//! Deployment environment and the shape of the configuration.
use vstd::prelude::*;
use vstd::string::StringExecFns;

verus! {

/// The environment the daemon runs in, which selects the configuration file.
#[derive(Debug, Clone, Copy, PartialEq, Eq, Structural)]
pub enum Env {
    Dev,
    Prod,
}

/// The name of an environment, as it is spelled in configuration file names.
pub open spec fn env_name(e: Env) -> Seq<char> {
    match e {
        Env::Dev => "dev"@,
        Env::Prod => "prod"@,
    }
}

impl Env {
    /// The name of the environment: `"dev"` or `"prod"`.
    pub fn as_str(&self) -> (res: &str)
        ensures
            res@ == env_name(*self),
    {
        match self {
            Env::Dev => "dev",
            Env::Prod => "prod",
        }
    }
}

/// Where the daemon listens, who may talk to it, and how many game servers it
/// may run at once.
#[derive(Debug)]
pub struct ApplicationConfig {
    pub host: String,
    pub port: u16,
    pub allowed_ips: Vec<String>,
    pub max_servers: u8,
}

/// The whole configuration of the daemon.
#[derive(Debug)]
pub struct Config {
    pub application: ApplicationConfig,
}

/// What `str::to_lowercase` returns for a string: the Unicode lowercase
/// mapping, character by character.
pub uninterp spec fn lowercase(s: Seq<char>) -> Seq<char>;

/// A character taken to lower case by the ASCII rules: `A`..`Z` become
/// `a`..`z`, every other character stays.
pub open spec fn ascii_lower_char(c: char) -> char {
    if 'A' <= c && c <= 'Z' {
        ((c as u32) + 32) as char
    } else {
        c
    }
}

/// Every character of `s` is an ASCII character.
pub open spec fn all_ascii(s: Seq<char>) -> bool {
    forall|i: int| 0 <= i < s.len() ==> (s[i] as u32) < 128
}

/// Calls `str::to_lowercase`. The result is named by `lowercase`; on ASCII
/// input it is the ASCII lower-case mapping of each character, as the
/// Unicode lowercase mapping of an ASCII character is its ASCII one.
#[verifier::external_body]
fn to_lowercase(s: &str) -> (res: String)
    ensures
        res@ == lowercase(s@),
        all_ascii(s@) ==> res@ == s@.map_values(|c: char| ascii_lower_char(c)),
{
    s.to_lowercase()
}

/// The message with which an unknown environment name is refused.
pub open spec fn unsupported_env_message(value: Seq<char>) -> Seq<char> {
    value + " is not supported environment, use either `dev` or `prod` >~<"@
}

/// The environment that a name selects once it is taken to lower case.
pub open spec fn env_of_name(value: Seq<char>) -> Result<Env, Seq<char>> {
    let lower = lowercase(value);
    if lower == "dev"@ {
        Ok(Env::Dev)
    } else if lower == "prod"@ {
        Ok(Env::Prod)
    } else {
        Err(unsupported_env_message(value))
    }
}

impl Env {
    /// Reads an environment name, ignoring case: `"dev"` and `"prod"` are
    /// accepted, anything else is refused with a message that names it.
    pub fn try_from(value: String) -> (res: Result<Env, String>)
        ensures
            match (res, env_of_name(value@)) {
                (Ok(e), Ok(f)) => e == f,
                (Err(m), Err(n)) => m@ == n,
                _ => false,
            },
            all_ascii(value@) ==> lowercase(value@) == value@.map_values(
                |c: char| ascii_lower_char(c),
            ),
            all_ascii(value@) && value@.map_values(|c: char| ascii_lower_char(c)) == "dev"@
                ==> res == Ok::<Env, String>(Env::Dev),
            all_ascii(value@) && value@.map_values(|c: char| ascii_lower_char(c)) == "prod"@
                ==> res == Ok::<Env, String>(Env::Prod),
            value@ == "dev"@ ==> res == Ok::<Env, String>(Env::Dev),
            value@ == "prod"@ ==> res == Ok::<Env, String>(Env::Prod),
    {
        let lower = to_lowercase(value.as_str());
        proof {
            reveal_strlit("dev");
            reveal_strlit("prod");
            if value@ == "dev"@ {
                assert(all_ascii(value@));
                assert(lower@ =~= "dev"@);
            }
            if value@ == "prod"@ {
                assert(all_ascii(value@));
                assert(lower@ =~= "prod"@);
            }
            assert("dev"@.len() != "prod"@.len());
        }
        if lower == "dev".to_owned() {
            Ok(Env::Dev)
        } else if lower == "prod".to_owned() {
            Ok(Env::Prod)
        } else {
            let mut msg = value;
            msg.append(" is not supported environment, use either `dev` or `prod` >~<");
            Err(msg)
        }
    }
}

} // verus!
