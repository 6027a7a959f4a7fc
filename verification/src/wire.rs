//! The protocol-buffers encoding of responses. A message is the
//! concatenation of its field records; each record is written by
//! `protobuf`'s `CodedOutputStream`.
use vstd::prelude::*;
use vstd::utf8::{decode_utf8, encode_utf8, valid_utf8};

use crate::protocol::{HappeningReport, Request, Response, ResponseCode, ResponseData, SystemReport};

verus! {

/// The error type of `protobuf`.
#[verifier::external_type_specification]
#[verifier::external_body]
pub struct ExProtobufError(protobuf::Error);

/// The largest field number a record can carry.
pub const FIELD_NUMBER_MAX: u32 = 0x1fff_ffff;

/// The varint encoding of `v`: seven bits per byte, low bits first, the
/// high bit set on every byte but the last.
pub open spec fn varint(v: nat) -> Seq<u8>
    decreases v,
{
    if v < 128 {
        seq![v as u8]
    } else {
        seq![(v % 128 + 128) as u8] + varint(v / 128)
    }
}

/// The low `n` bytes of `v`, least significant first.
pub open spec fn le_bytes(v: nat, n: nat) -> Seq<u8>
    decreases n,
{
    if n == 0 {
        Seq::empty()
    } else {
        seq![(v % 256) as u8] + le_bytes(v / 256, (n - 1) as nat)
    }
}

/// The tag of a record: field number and wire type packed into a varint.
pub open spec fn tag_bytes(field: u32, wire: nat) -> Seq<u8> {
    varint((field * 8 + wire) as nat)
}

/// The record of a `uint32` field, as `CodedOutputStream::write_uint32` writes it.
pub open spec fn uint32_record(field: u32, value: u32) -> Seq<u8> {
    tag_bytes(field, 0) + varint(value as nat)
}

/// The record of a `uint64` field, as `CodedOutputStream::write_uint64` writes it.
pub open spec fn uint64_record(field: u32, value: u64) -> Seq<u8> {
    tag_bytes(field, 0) + varint(value as nat)
}

/// The record of an enum field, as `CodedOutputStream::write_enum` writes it:
/// the value is widened to 64 bits with its sign.
pub open spec fn enum_record(field: u32, value: i32) -> Seq<u8> {
    tag_bytes(field, 0) + varint(((value as i64) as u64) as nat)
}

/// The record of a `fixed64` field, as `CodedOutputStream::write_fixed64`
/// writes it.
pub open spec fn fixed64_record(field: u32, value: u64) -> Seq<u8> {
    tag_bytes(field, 1) + le_bytes(value as nat, 8)
}

/// The record of a length-delimited field, as `CodedOutputStream::write_bytes`
/// writes it: the length, taken to 32 bits, then the bytes.
pub open spec fn bytes_record(field: u32, bytes: Seq<u8>) -> Seq<u8> {
    tag_bytes(field, 2) + varint((bytes.len() as u32) as nat) + bytes
}

/// The record of a `string` field, as `CodedOutputStream::write_string` writes
/// it: a length-delimited record of the string's UTF-8 bytes.
pub open spec fn string_record(field: u32, s: Seq<char>) -> Seq<u8> {
    bytes_record(field, encode_utf8(s))
}

/// Calls `CodedOutputStream::write_uint32` on a stream over a new vector and
/// flushes it. Writing to a vector does not fail; the field number must be
/// one that a tag can carry, or the call panics.
#[verifier::external_body]
fn write_uint32(field: u32, value: u32) -> (res: Result<Vec<u8>, protobuf::Error>)
    requires
        1 <= field <= FIELD_NUMBER_MAX,
    ensures
        res is Ok,
        res matches Ok(b) ==> b@ == uint32_record(field, value),
{
    let mut out: Vec<u8> = Vec::new();
    {
        let mut os = protobuf::CodedOutputStream::vec(&mut out);
        os.write_uint32(field, value)?;
        os.flush()?;
    }
    Ok(out)
}

/// Calls `CodedOutputStream::write_uint64` on a stream over a new vector and
/// flushes it. Writing to a vector does not fail; the field number must be
/// one that a tag can carry, or the call panics.
#[verifier::external_body]
fn write_uint64(field: u32, value: u64) -> (res: Result<Vec<u8>, protobuf::Error>)
    requires
        1 <= field <= FIELD_NUMBER_MAX,
    ensures
        res is Ok,
        res matches Ok(b) ==> b@ == uint64_record(field, value),
{
    let mut out: Vec<u8> = Vec::new();
    {
        let mut os = protobuf::CodedOutputStream::vec(&mut out);
        os.write_uint64(field, value)?;
        os.flush()?;
    }
    Ok(out)
}

/// Calls `CodedOutputStream::write_enum` on a stream over a new vector and
/// flushes it. Writing to a vector does not fail; the field number must be
/// one that a tag can carry, or the call panics.
#[verifier::external_body]
fn write_enum(field: u32, value: i32) -> (res: Result<Vec<u8>, protobuf::Error>)
    requires
        1 <= field <= FIELD_NUMBER_MAX,
    ensures
        res is Ok,
        res matches Ok(b) ==> b@ == enum_record(field, value),
{
    let mut out: Vec<u8> = Vec::new();
    {
        let mut os = protobuf::CodedOutputStream::vec(&mut out);
        os.write_enum(field, value)?;
        os.flush()?;
    }
    Ok(out)
}

/// Calls `CodedOutputStream::write_fixed64` on a stream over a new vector and
/// flushes it. Writing to a vector does not fail; the field number must be
/// one that a tag can carry, or the call panics.
#[verifier::external_body]
fn write_fixed64(field: u32, value: u64) -> (res: Result<Vec<u8>, protobuf::Error>)
    requires
        1 <= field <= FIELD_NUMBER_MAX,
    ensures
        res is Ok,
        res matches Ok(b) ==> b@ == fixed64_record(field, value),
{
    let mut out: Vec<u8> = Vec::new();
    {
        let mut os = protobuf::CodedOutputStream::vec(&mut out);
        os.write_fixed64(field, value)?;
        os.flush()?;
    }
    Ok(out)
}

/// Calls `CodedOutputStream::write_bytes` on a stream over a new vector and
/// flushes it. Writing to a vector does not fail; the field number must be
/// one that a tag can carry, or the call panics.
#[verifier::external_body]
fn write_bytes(field: u32, bytes: &[u8]) -> (res: Result<Vec<u8>, protobuf::Error>)
    requires
        1 <= field <= FIELD_NUMBER_MAX,
    ensures
        res is Ok,
        res matches Ok(b) ==> b@ == bytes_record(field, bytes@),
{
    let mut out: Vec<u8> = Vec::new();
    {
        let mut os = protobuf::CodedOutputStream::vec(&mut out);
        os.write_bytes(field, bytes)?;
        os.flush()?;
    }
    Ok(out)
}

/// Calls `CodedOutputStream::write_string` on a stream over a new vector and
/// flushes it. Writing to a vector does not fail; the field number must be
/// one that a tag can carry, or the call panics.
#[verifier::external_body]
fn write_string(field: u32, s: &str) -> (res: Result<Vec<u8>, protobuf::Error>)
    requires
        1 <= field <= FIELD_NUMBER_MAX,
    ensures
        res is Ok,
        res matches Ok(b) ==> b@ == string_record(field, s@),
{
    let mut out: Vec<u8> = Vec::new();
    {
        let mut os = protobuf::CodedOutputStream::vec(&mut out);
        os.write_string(field, s)?;
        os.flush()?;
    }
    Ok(out)
}

/// The number of a response code on the wire.
pub open spec fn code_number(c: ResponseCode) -> i32 {
    match c {
        ResponseCode::Success => 0,
        ResponseCode::WhoopsieDaisy => 1,
    }
}

/// A `uint32` field, left out when it holds its default, zero.
pub open spec fn opt_uint32(field: u32, v: u32) -> Seq<u8> {
    if v == 0 {
        Seq::empty()
    } else {
        uint32_record(field, v)
    }
}

/// A `uint64` field, left out when it holds its default, zero.
pub open spec fn opt_uint64(field: u32, v: u64) -> Seq<u8> {
    if v == 0 {
        Seq::empty()
    } else {
        uint64_record(field, v)
    }
}

/// An enum field, left out when it holds its default, zero.
pub open spec fn opt_enum(field: u32, v: i32) -> Seq<u8> {
    if v == 0 {
        Seq::empty()
    } else {
        enum_record(field, v)
    }
}

/// A `string` field, left out when it holds its default, the empty string.
pub open spec fn opt_string(field: u32, s: Seq<char>) -> Seq<u8> {
    if s.len() == 0 {
        Seq::empty()
    } else {
        string_record(field, s)
    }
}

/// The bits of a double that compares equal to zero: plus and minus zero.
pub open spec fn is_zero_double(bits: u64) -> bool {
    bits == 0 || bits == 0x8000_0000_0000_0000
}

/// A `double` field given by the bits of its IEEE-754 representation,
/// which is how a double is written (eight little-endian bytes, wire type
/// 1); left out when the value equals zero.
pub open spec fn opt_double_bits(field: u32, bits: u64) -> Seq<u8> {
    if is_zero_double(bits) {
        Seq::empty()
    } else {
        fixed64_record(field, bits)
    }
}

/// The machine figures as a message: total memory, load, free memory.
pub open spec fn system_bytes(s: SystemReport, load_bits: u64) -> Seq<u8> {
    opt_uint64(1, s.total_memory) + opt_double_bits(2, load_bits) + opt_uint64(3, s.free_memory)
}

/// One running server as a message.
pub open spec fn happening_bytes(h: HappeningReport) -> Seq<u8> {
    opt_uint32(1, h.port) + opt_uint32(2, h.pid) + opt_string(3, h.map_name@) + opt_string(
        4,
        h.password@,
    )
}

/// The running servers as the repeated field of the statistics message.
pub open spec fn happenings_bytes(hs: Seq<HappeningReport>) -> Seq<u8>
    decreases hs.len(),
{
    if hs.len() == 0 {
        Seq::empty()
    } else {
        happenings_bytes(hs.drop_last()) + bytes_record(2, happening_bytes(hs.last()))
    }
}

/// The payload of a response as the record of its field. A payload that is
/// set is written even when its message is empty.
pub open spec fn data_bytes(d: ResponseData, load_bits: u64) -> Seq<u8> {
    match d {
        ResponseData::Info { used, max } => bytes_record(
            2,
            opt_uint32(1, used) + opt_uint32(2, max),
        ),
        ResponseData::Start { password, port } => bytes_record(
            3,
            opt_string(1, password@) + opt_uint32(2, port),
        ),
        ResponseData::Shutdown { id } => bytes_record(4, opt_uint32(1, id)),
        ResponseData::Stats { system, happenings } => bytes_record(
            5,
            bytes_record(1, system_bytes(system, load_bits)) + happenings_bytes(happenings@),
        ),
    }
}

/// A response as a message: its code and the origin copied from the request
/// it answers, each left out at its default, then its payload if any.
pub open spec fn response_bytes(r: Response, origin: Seq<char>, load_bits: u64) -> Seq<u8> {
    opt_enum(1, code_number(r.code)) + opt_string(6, origin) + match r.data {
        None => Seq::empty(),
        Some(d) => data_bytes(d, load_bits),
    }
}

/// The bytes of `a` followed by those of `b`.
fn concat(a: Vec<u8>, b: Vec<u8>) -> (res: Vec<u8>)
    ensures
        res@ == a@ + b@,
{
    let mut a = a;
    let mut b = b;
    a.append(&mut b);
    a
}

/// A length-delimited record holding `bytes`.
fn bytes_field(field: u32, bytes: &Vec<u8>) -> (res: Vec<u8>)
    requires
        1 <= field <= FIELD_NUMBER_MAX,
    ensures
        res@ == bytes_record(field, bytes@),
{
    write_bytes(field, bytes.as_slice()).unwrap()
}

/// A `uint32` field unless it is zero.
fn uint32_field(field: u32, v: u32) -> (res: Vec<u8>)
    requires
        1 <= field <= FIELD_NUMBER_MAX,
    ensures
        res@ == opt_uint32(field, v),
{
    if v == 0 {
        Vec::new()
    } else {
        write_uint32(field, v).unwrap()
    }
}

/// A `uint64` field unless it is zero.
fn uint64_field(field: u32, v: u64) -> (res: Vec<u8>)
    requires
        1 <= field <= FIELD_NUMBER_MAX,
    ensures
        res@ == opt_uint64(field, v),
{
    if v == 0 {
        Vec::new()
    } else {
        write_uint64(field, v).unwrap()
    }
}

/// An enum field unless it is zero.
fn enum_field(field: u32, v: i32) -> (res: Vec<u8>)
    requires
        1 <= field <= FIELD_NUMBER_MAX,
    ensures
        res@ == opt_enum(field, v),
{
    if v == 0 {
        Vec::new()
    } else {
        write_enum(field, v).unwrap()
    }
}

/// A `string` field unless it is empty.
fn string_field(field: u32, s: &str) -> (res: Vec<u8>)
    requires
        1 <= field <= FIELD_NUMBER_MAX,
    ensures
        res@ == opt_string(field, s@),
{
    if s.unicode_len() == 0 {
        Vec::new()
    } else {
        write_string(field, s).unwrap()
    }
}

/// A `double` field, given by its bits, unless it equals zero.
fn double_bits_field(field: u32, bits: u64) -> (res: Vec<u8>)
    requires
        1 <= field <= FIELD_NUMBER_MAX,
    ensures
        res@ == opt_double_bits(field, bits),
{
    if bits == 0 || bits == 0x8000_0000_0000_0000 {
        Vec::new()
    } else {
        write_fixed64(field, bits).unwrap()
    }
}

/// Encodes one running server.
fn encode_happening(h: &HappeningReport) -> (res: Vec<u8>)
    ensures
        res@ == happening_bytes(*h),
{
    let a = concat(uint32_field(1, h.port), uint32_field(2, h.pid));
    let b = concat(a, string_field(3, h.map_name.as_str()));
    concat(b, string_field(4, h.password.as_str()))
}

/// Encodes the payload of a response.
fn encode_data(d: &ResponseData, load_bits: u64) -> (res: Vec<u8>)
    ensures
        res@ == data_bytes(*d, load_bits),
{
    match d {
        ResponseData::Info { used, max } => {
            let inner = concat(uint32_field(1, *used), uint32_field(2, *max));
            bytes_field(2, &inner)
        },
        ResponseData::Start { password, port } => {
            let inner = concat(string_field(1, password.as_str()), uint32_field(2, *port));
            bytes_field(3, &inner)
        },
        ResponseData::Shutdown { id } => {
            let inner = uint32_field(1, *id);
            bytes_field(4, &inner)
        },
        ResponseData::Stats { system, happenings } => {
            let sys = concat(
                concat(uint64_field(1, system.total_memory), double_bits_field(2, load_bits)),
                uint64_field(3, system.free_memory),
            );
            let mut inner = bytes_field(1, &sys);
            let ghost prefix = inner@;
            let mut i: usize = 0;
            while i < happenings.len()
                invariant
                    i <= happenings@.len(),
                    inner@ == prefix + happenings_bytes(happenings@.take(i as int)),
                decreases happenings@.len() - i,
            {
                assert(happenings@.take(i + 1).drop_last() =~= happenings@.take(i as int));
                let entry = encode_happening(&happenings[i]);
                let record = bytes_field(2, &entry);
                inner = concat(inner, record);
                i += 1;
            }
            assert(happenings@.take(happenings@.len() as int) =~= happenings@);
            bytes_field(5, &inner)
        },
    }
}

/// Encodes a response, with the origin of the request it answers and, for
/// statistics, the bits of the machine load.
pub fn encode_response(r: &Response, origin: &str, load_bits: u64) -> (res: Vec<u8>)
    ensures
        res@ == response_bytes(*r, origin@, load_bits),
{
    let code: i32 = match r.code {
        ResponseCode::Success => 0,
        ResponseCode::WhoopsieDaisy => 1,
    };
    let head = concat(enum_field(1, code), string_field(6, origin));
    let body = match &r.data {
        None => Vec::new(),
        Some(d) => encode_data(d, load_bits),
    };
    concat(head, body)
}

/// The records of running servers in the statistics message: for each
/// server of the list, in its order, a length-delimited record of field 2
/// holding that server's message.
pub open spec fn happening_records(hs: Seq<HappeningReport>) -> Seq<Seq<u8>> {
    Seq::new(hs.len(), |i: int| bytes_record(2, happening_bytes(hs[i])))
}

/// The repeated field of the statistics message lists every running server
/// exactly once and in order: its bytes are the records of the servers one
/// after the other, as many records as there are servers, the record at
/// each place holding the server at that place.
pub proof fn lemma_happenings_one_record_each(hs: Seq<HappeningReport>)
    ensures
        happenings_bytes(hs) == happening_records(hs).flatten(),
        happening_records(hs).len() == hs.len(),
        forall|i: int|
            0 <= i < hs.len() ==> #[trigger] happening_records(hs)[i] == bytes_record(
                2,
                happening_bytes(hs[i]),
            ),
    decreases hs.len(),
{
    if hs.len() == 0 {
        assert(happening_records(hs) =~= Seq::<Seq<u8>>::empty());
    } else {
        let front = hs.drop_last();
        let last = bytes_record(2, happening_bytes(hs.last()));
        lemma_happenings_one_record_each(front);
        assert(happening_records(hs) =~= happening_records(front).push(last));
        happening_records(front).lemma_flatten_push(last);
    }
}

/// Two lists of servers reported one after the other give the records of
/// the first list followed by those of the second: no server is dropped,
/// repeated or moved.
pub proof fn lemma_happenings_concat(a: Seq<HappeningReport>, b: Seq<HappeningReport>)
    ensures
        happenings_bytes(a + b) == happenings_bytes(a) + happenings_bytes(b),
{
    lemma_happenings_one_record_each(a);
    lemma_happenings_one_record_each(b);
    lemma_happenings_one_record_each(a + b);
    assert(happening_records(a + b) =~= happening_records(a) + happening_records(b));
    vstd::seq_lib::lemma_flatten_concat(happening_records(a), happening_records(b));
}

/// A statistics response is its code and origin, then one payload record
/// holding the machine record followed by the record of every running
/// server, in the order the response lists them.
pub proof fn lemma_stats_response_lists_every_server(
    r: Response,
    origin: Seq<char>,
    load_bits: u64,
)
    ensures
        r.data matches Some(ResponseData::Stats { system, happenings }) ==> response_bytes(
            r,
            origin,
            load_bits,
        ) == opt_enum(1, code_number(r.code)) + opt_string(6, origin) + bytes_record(
            5,
            bytes_record(1, system_bytes(system, load_bits)) + happening_records(
                happenings@,
            ).flatten(),
        ),
{
    if let Some(ResponseData::Stats { system, happenings }) = r.data {
        lemma_happenings_one_record_each(happenings@);
    }
}

/// The varint at the start of `bytes`, as `protobuf` decodes one that is at
/// most `budget` bytes long and whose byte at that limit is at most
/// `last_max`: the value and the number of bytes it takes; `None` when the
/// input ends first or the limit is broken.
pub open spec fn varint_value(bytes: Seq<u8>, budget: nat, last_max: u8) -> Option<(nat, nat)>
    decreases budget,
{
    if bytes.len() == 0 || budget == 0 {
        None
    } else if budget == 1 {
        if bytes[0] > last_max {
            None
        } else {
            Some((bytes[0] as nat, 1nat))
        }
    } else if bytes[0] < 128 {
        Some((bytes[0] as nat, 1nat))
    } else {
        match varint_value(bytes.drop_first(), (budget - 1) as nat, last_max) {
            Some((v, c)) => Some(((bytes[0] % 128) as nat + 128 * v, c + 1)),
            None => None,
        }
    }
}

/// A 32-bit varint: at most five bytes, the fifth at most `0x0f`.
pub open spec fn varint32_value(bytes: Seq<u8>) -> Option<(nat, nat)> {
    varint_value(bytes, 5, 0x0f)
}

/// A 64-bit varint: at most ten bytes, the tenth at most `0x01`.
pub open spec fn varint64_value(bytes: Seq<u8>) -> Option<(nat, nat)> {
    varint_value(bytes, 10, 0x01)
}

/// A varint takes at least one byte and no more than there are.
pub proof fn lemma_varint_count(bytes: Seq<u8>, budget: nat, last_max: u8)
    ensures
        varint_value(bytes, budget, last_max) matches Some((v, c)) ==> 0 < c <= bytes.len() && c
            <= budget,
    decreases budget,
{
    if bytes.len() > 0 && budget > 1 && bytes[0] >= 128 {
        lemma_varint_count(bytes.drop_first(), (budget - 1) as nat, last_max);
    }
}

/// What `CodedInputStream::read_raw_tag_or_eof` reads at the start of
/// `bytes`: `None` when it fails, otherwise the tag (a 32-bit varint), or
/// `None` at the end of the input, together with the number of bytes read.
pub open spec fn tag_read(bytes: Seq<u8>) -> Option<Option<(u32, u64)>> {
    if bytes.len() == 0 {
        Some(None)
    } else {
        match varint32_value(bytes) {
            Some((v, c)) => Some(Some((v as u32, c as u64))),
            None => None,
        }
    }
}

/// What `CodedInputStream::read_int32` reads at the start of `bytes`: a
/// 64-bit varint taken as a signed number, which must fit in 32 bits; with
/// the number of bytes read, `None` when it fails.
pub open spec fn int32_read(bytes: Seq<u8>) -> Option<(i32, u64)> {
    match varint64_value(bytes) {
        Some((v, c)) => {
            let w = (v as u64) as i64;
            if i32::MIN <= w <= i32::MAX {
                Some((w as i32, c as u64))
            } else {
                None
            }
        },
        None => None,
    }
}

/// What `CodedInputStream::read_uint64` reads at the start of `bytes`: a
/// 64-bit varint, with the number of bytes read; `None` when it fails.
pub open spec fn uint64_read(bytes: Seq<u8>) -> Option<(u64, u64)> {
    match varint64_value(bytes) {
        Some((v, c)) => Some((v as u64, c as u64)),
        None => None,
    }
}

/// What `CodedInputStream::read_string` reads at the start of `bytes`: a
/// 32-bit varint length, then that many bytes, which must be UTF-8; with the
/// number of bytes read, `None` when it fails.
pub open spec fn string_read(bytes: Seq<u8>) -> Option<(Seq<char>, u64)> {
    match varint32_value(bytes) {
        Some((len, c)) => if c + len <= bytes.len() && valid_utf8(
            bytes.subrange(c as int, (c + len) as int),
        ) {
            Some((decode_utf8(bytes.subrange(c as int, (c + len) as int)), (c + len) as u64))
        } else {
            None
        },
        None => None,
    }
}

/// How many bytes `protobuf::rt::read_unknown_or_skip_group` passes over when
/// it skips a group, the record that starts with the tag just read; `None`
/// when it fails.
pub uninterp spec fn group_read(bytes: Seq<u8>) -> Option<u64>;

/// How many bytes `protobuf::rt::read_unknown_or_skip_group` passes over for
/// the value of an unknown field with tag `tag` at the start of `bytes`:
/// a tag with field number 0 or wire type 6 or 7 fails; a varint, eight or
/// four bytes, or a 32-bit varint length and that many bytes, by wire type;
/// a group as `group_read` says; a group end fails.
pub open spec fn unknown_read(bytes: Seq<u8>, tag: u32) -> Option<u64> {
    let wire = tag % 8;
    if tag / 8 == 0 || wire > 5 {
        None
    } else if wire == 0 {
        match varint64_value(bytes) {
            Some((v, c)) => Some(c as u64),
            None => None,
        }
    } else if wire == 1 {
        if bytes.len() >= 8 {
            Some(8)
        } else {
            None
        }
    } else if wire == 2 {
        match varint32_value(bytes) {
            Some((len, c)) => if c + len <= bytes.len() {
                Some((c + len) as u64)
            } else {
                None
            },
            None => None,
        }
    } else if wire == 3 {
        group_read(bytes)
    } else if wire == 5 {
        if bytes.len() >= 4 {
            Some(4)
        } else {
            None
        }
    } else {
        None
    }
}

/// Calls `CodedInputStream::read_raw_tag_or_eof` on a stream over `bytes`
/// and reports the stream position after it.
#[verifier::external_body]
fn read_tag(bytes: &[u8]) -> (res: Result<Option<(u32, u64)>, protobuf::Error>)
    ensures
        res is Ok <==> tag_read(bytes@) is Some,
        res matches Ok(v) ==> tag_read(bytes@) == Some(v),
{
    let mut is = protobuf::CodedInputStream::from_bytes(bytes);
    match is.read_raw_tag_or_eof()? {
        Some(tag) => Ok(Some((tag, is.pos()))),
        None => Ok(None),
    }
}

/// Calls `CodedInputStream::read_int32` on a stream over `bytes` and
/// reports the stream position after it.
#[verifier::external_body]
fn read_int32(bytes: &[u8]) -> (res: Result<(i32, u64), protobuf::Error>)
    ensures
        res is Ok <==> int32_read(bytes@) is Some,
        res matches Ok(v) ==> int32_read(bytes@) == Some(v),
{
    let mut is = protobuf::CodedInputStream::from_bytes(bytes);
    let v = is.read_int32()?;
    Ok((v, is.pos()))
}

/// Calls `CodedInputStream::read_uint64` on a stream over `bytes` and
/// reports the stream position after it.
#[verifier::external_body]
fn read_uint64(bytes: &[u8]) -> (res: Result<(u64, u64), protobuf::Error>)
    ensures
        res is Ok <==> uint64_read(bytes@) is Some,
        res matches Ok(v) ==> uint64_read(bytes@) == Some(v),
{
    let mut is = protobuf::CodedInputStream::from_bytes(bytes);
    let v = is.read_uint64()?;
    Ok((v, is.pos()))
}

/// Calls `CodedInputStream::read_string` on a stream over `bytes` and
/// reports the stream position after it.
#[verifier::external_body]
fn read_string(bytes: &[u8]) -> (res: Result<(String, u64), protobuf::Error>)
    ensures
        res is Ok <==> string_read(bytes@) is Some,
        res matches Ok((s, n)) ==> string_read(bytes@) == Some((s@, n)),
{
    let mut is = protobuf::CodedInputStream::from_bytes(bytes);
    let s = is.read_string()?;
    Ok((s, is.pos()))
}

/// Calls `protobuf::rt::read_unknown_or_skip_group`, as parsers of messages
/// do for a field they do not know, on a stream over `bytes` (what follows
/// the tag `tag`), and reports the stream position after it. Skipping a
/// group reads at least the next tag, so it passes over at least one byte.
#[verifier::external_body]
fn skip_unknown(bytes: &[u8], tag: u32) -> (res: Result<u64, protobuf::Error>)
    ensures
        res is Ok <==> unknown_read(bytes@, tag) is Some,
        res matches Ok(n) ==> unknown_read(bytes@, tag) == Some(n),
        res matches Ok(n) ==> (tag % 8 == 3 ==> 0 < n <= bytes@.len()),
        res matches Ok(n) ==> (tag / 8 != 0 && tag % 8 == 3 ==> group_read(bytes@) == Some(n)),
{
    let mut is = protobuf::CodedInputStream::from_bytes(bytes);
    protobuf::rt::read_unknown_or_skip_group(tag, &mut is, &mut protobuf::UnknownFields::new())?;
    Ok(is.pos())
}

/// A value read at the start of `bytes` takes at least one byte and no more
/// than there are.
pub proof fn lemma_read_counts(bytes: Seq<u8>, tag: u32)
    requires
        bytes.len() <= u64::MAX,
    ensures
        tag_read(bytes) matches Some(Some((t, n))) ==> 0 < n <= bytes.len(),
        int32_read(bytes) matches Some((v, n)) ==> 0 < n <= bytes.len(),
        uint64_read(bytes) matches Some((v, n)) ==> 0 < n <= bytes.len(),
        string_read(bytes) matches Some((v, n)) ==> 0 < n <= bytes.len(),
        unknown_read(bytes, tag) matches Some(n) ==> tag % 8 != 3 ==> 0 < n <= bytes.len(),
{
    lemma_varint_count(bytes, 5, 0x0f);
    lemma_varint_count(bytes, 10, 0x01);
}

/// The fields of a request as they are read: action number, happening,
/// map name and origin.
pub type RequestFields = (i32, u64, Seq<char>, Seq<char>);

/// The fields of a request before anything is read: every field at its
/// default.
pub open spec fn default_fields() -> RequestFields {
    (0, 0, Seq::empty(), Seq::empty())
}

/// The tag of the action field (field 1, varint).
pub const ACTION_TAG: u32 = 8;

/// The tag of the happening field (field 2, varint).
pub const ID_TAG: u32 = 16;

/// The tag of the map name field (field 3, length-delimited).
pub const MAP_NAME_TAG: u32 = 26;

/// The tag of the origin field (field 4, length-delimited).
pub const ORIGIN_TAG: u32 = 34;

/// Reads the records of `bytes` one after the other into `acc`: a known
/// field replaces its value, an unknown one is passed over; a record that
/// cannot be read makes the whole input unreadable.
pub open spec fn decode_fields(bytes: Seq<u8>, acc: RequestFields) -> Option<RequestFields>
    decreases bytes.len(),
{
    match tag_read(bytes) {
        None => None,
        Some(None) => Some(acc),
        Some(Some((tag, n))) => {
            if !(0 < n <= bytes.len()) {
                None
            } else {
                let rest = bytes.skip(n as int);
                if tag == ACTION_TAG {
                    match int32_read(rest) {
                        Some((v, m)) => if 0 < m <= rest.len() {
                            decode_fields(rest.skip(m as int), (v, acc.1, acc.2, acc.3))
                        } else {
                            None
                        },
                        None => None,
                    }
                } else if tag == ID_TAG {
                    match uint64_read(rest) {
                        Some((v, m)) => if 0 < m <= rest.len() {
                            decode_fields(rest.skip(m as int), (acc.0, v, acc.2, acc.3))
                        } else {
                            None
                        },
                        None => None,
                    }
                } else if tag == MAP_NAME_TAG {
                    match string_read(rest) {
                        Some((v, m)) => if 0 < m <= rest.len() {
                            decode_fields(rest.skip(m as int), (acc.0, acc.1, v, acc.3))
                        } else {
                            None
                        },
                        None => None,
                    }
                } else if tag == ORIGIN_TAG {
                    match string_read(rest) {
                        Some((v, m)) => if 0 < m <= rest.len() {
                            decode_fields(rest.skip(m as int), (acc.0, acc.1, acc.2, v))
                        } else {
                            None
                        },
                        None => None,
                    }
                } else {
                    match unknown_read(rest, tag) {
                        Some(m) => if 0 < m <= rest.len() {
                            decode_fields(rest.skip(m as int), acc)
                        } else {
                            None
                        },
                        None => None,
                    }
                }
            }
        },
    }
}

/// The fields of a request.
pub open spec fn request_fields(r: Request) -> RequestFields {
    (r.action, r.id, r.map_name@, r.origin@)
}

/// Decodes a request; `None` when the bytes are not a readable request.
pub fn decode_request(bytes: &[u8]) -> (res: Option<Request>)
    ensures
        match res {
            None => decode_fields(bytes@, default_fields()) is None,
            Some(r) => decode_fields(bytes@, default_fields()) == Some(request_fields(r)),
        },
{
    let mut req = Request { action: 0, id: 0, map_name: String::new(), origin: String::new() };
    let mut pos: usize = 0;
    assert(bytes@.skip(0) =~= bytes@);
    loop
        invariant
            pos <= bytes@.len(),
            decode_fields(bytes@, default_fields()) == decode_fields(
                bytes@.skip(pos as int),
                request_fields(req),
            ),
        decreases bytes@.len() - pos,
    {
        let rest = &bytes[pos..bytes.len()];
        assert(rest@ =~= bytes@.skip(pos as int));
        let (tag, n) = match read_tag(rest) {
            Err(_) => return None,
            Ok(None) => return Some(req),
            Ok(Some(t)) => t,
        };
        proof {
            lemma_read_counts(rest@, 0);
        }
        let after_tag: usize = pos + n as usize;
        let field = &bytes[after_tag..bytes.len()];
        assert(field@ =~= rest@.skip(n as int));
        let m: u64;
        if tag == ACTION_TAG {
            match read_int32(field) {
                Err(_) => return None,
                Ok((v, k)) => {
                    req.action = v;
                    m = k;
                },
            }
        } else if tag == ID_TAG {
            match read_uint64(field) {
                Err(_) => return None,
                Ok((v, k)) => {
                    req.id = v;
                    m = k;
                },
            }
        } else if tag == MAP_NAME_TAG {
            match read_string(field) {
                Err(_) => return None,
                Ok((v, k)) => {
                    req.map_name = v;
                    m = k;
                },
            }
        } else if tag == ORIGIN_TAG {
            match read_string(field) {
                Err(_) => return None,
                Ok((v, k)) => {
                    req.origin = v;
                    m = k;
                },
            }
        } else {
            match skip_unknown(field, tag) {
                Err(_) => return None,
                Ok(k) => {
                    m = k;
                },
            }
        }
        proof {
            lemma_read_counts(field@, tag);
        }
        assert(field@.skip(m as int) =~= bytes@.skip(after_tag + m));
        pos = after_tag + m as usize;
    }
}

} // verus!
