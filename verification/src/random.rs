//! Random choices: ports and passwords for new game servers.
use rand::Rng;
use vstd::prelude::*;

use crate::text::push_char;

verus! {

/// The thread-local random generator of `rand`.
#[verifier::external_type_specification]
#[verifier::external_body]
pub struct ExThreadRng(rand::rngs::ThreadRng);

/// Calls `rand::thread_rng`, which hands out the thread's generator.
#[verifier::external_body]
fn thread_rng() -> rand::rngs::ThreadRng {
    rand::thread_rng()
}

/// Calls `Rng::gen_range` on the half-open range `low..high`, which draws a
/// number of that range (and panics on an empty one, which `requires` rules
/// out). Which number comes is left open.
#[verifier::external_body]
fn gen_range_u32(rng: &mut rand::rngs::ThreadRng, low: u32, high: u32) -> (r: u32)
    requires
        low < high,
    ensures
        low <= r < high,
{
    rng.gen_range(low..high)
}

/// An ASCII letter or digit.
pub open spec fn is_alphanumeric(c: char) -> bool {
    ||| '0' <= c <= '9'
    ||| 'A' <= c <= 'Z'
    ||| 'a' <= c <= 'z'
}

/// Calls `Rng::sample` with the `Alphanumeric` distribution, which draws one
/// byte out of `A`..`Z`, `a`..`z` and `0`..`9`. Which one is left open.
#[verifier::external_body]
fn sample_alphanumeric(rng: &mut rand::rngs::ThreadRng) -> (b: u8)
    ensures
        is_alphanumeric(b as char),
{
    rng.sample(rand::distributions::Alphanumeric)
}

/// Calls `DistString::sample_string` with the `Alphanumeric` distribution,
/// which makes a string of `len` characters, each drawn out of `A`..`Z`,
/// `a`..`z` and `0`..`9`. Which ones is left open.
#[verifier::external_body]
fn sample_alphanumeric_string(rng: &mut rand::rngs::ThreadRng, len: usize) -> (s: String)
    ensures
        s@.len() == len,
        forall|i: int| 0 <= i < s@.len() ==> is_alphanumeric(#[trigger] s@[i]),
{
    rand::distributions::DistString::sample_string(&rand::distributions::Alphanumeric, rng, len)
}

/// A fresh password of random letters and digits, drawn as one string.
pub fn generate_password_string() -> (p: String)
    ensures
        is_password(p@),
{
    let mut rng = thread_rng();
    sample_alphanumeric_string(&mut rng, PASSWORD_LEN)
}

/// A number drawn at random out of `low..high`.
pub fn random_in(low: u32, high: u32) -> (r: u32)
    requires
        low < high,
    ensures
        low <= r < high,
{
    let mut rng = thread_rng();
    gen_range_u32(&mut rng, low, high)
}

/// The length of a game-server password.
pub const PASSWORD_LEN: usize = 20;

/// A password: `PASSWORD_LEN` ASCII letters and digits.
pub open spec fn is_password(p: Seq<char>) -> bool {
    &&& p.len() == PASSWORD_LEN
    &&& forall|i: int| 0 <= i < p.len() ==> is_alphanumeric(#[trigger] p[i])
}

/// A fresh password of random letters and digits.
pub fn generate_password() -> (p: String)
    ensures
        is_password(p@),
{
    let mut rng = thread_rng();
    let mut p = String::new();
    let mut i: usize = 0;
    while i < PASSWORD_LEN
        invariant
            i <= PASSWORD_LEN,
            p@.len() == i,
            forall|k: int| 0 <= k < p@.len() ==> is_alphanumeric(#[trigger] p@[k]),
        decreases PASSWORD_LEN - i,
    {
        let b = sample_alphanumeric(&mut rng);
        push_char(&mut p, b as char);
        i += 1;
    }
    p
}

} // verus!
