//! Errors reported to clients, written as JSON objects with a status field.
use vstd::prelude::*;

verus! {

/// Why a request failed.
#[derive(Debug, Clone, Copy, PartialEq, Eq, Structural)]
pub enum Errors {
    AccessDenied,
    BadData,
    Unknown,
}

/// The error type of `serde_json`.
#[verifier::external_type_specification]
#[verifier::external_body]
pub struct ExJsonError(serde_json::Error);

/// The compact JSON text of an object with one string field `key` whose
/// value is `value`, as `serde_json` writes it.
pub uninterp spec fn json_object_text(key: Seq<char>, value: Seq<char>) -> Seq<char>;

/// A string that JSON writes as it is: no quote, no backslash and no control
/// character below space.
pub open spec fn json_plain(s: Seq<char>) -> bool {
    forall|i: int| 0 <= i < s.len() ==> {
        let c = #[trigger] s[i];
        c != '"' && c != '\\' && (c as u32) >= 0x20
    }
}

/// Calls `serde_json::to_string` on a map that holds the single entry
/// `key: value`. Serialising string keys and string values cannot fail, so
/// the result is `Ok`; its text is named by `json_object_text`. The compact
/// writer puts each string between quotes and escapes only quotes,
/// backslashes and control characters, so for plain strings the text is
/// spelled out.
#[verifier::external_body]
fn json_object(key: &str, value: &str) -> (res: Result<String, serde_json::Error>)
    ensures
        res is Ok,
        res matches Ok(s) ==> s@ == json_object_text(key@, value@),
        res matches Ok(s) ==> (json_plain(key@) && json_plain(value@) ==> s@ == "{\""@ + key@
            + "\":\""@ + value@ + "\"}"@),
{
    serde_json::to_string(&std::collections::BTreeMap::from([(key, value)]))
}

/// The status word of an error.
pub open spec fn status_text(e: Errors) -> Seq<char> {
    match e {
        Errors::BadData => "BAD_DATA"@,
        Errors::Unknown => "SOMETHING_HAPPENNED_IDK_MYSELF"@,
        Errors::AccessDenied => "ACCESS_DENIED"@,
    }
}

impl Errors {
    /// The status word of the error.
    pub fn status(&self) -> (res: &'static str)
        ensures
            res@ == status_text(*self),
    {
        match self {
            Errors::BadData => "BAD_DATA",
            Errors::Unknown => "SOMETHING_HAPPENNED_IDK_MYSELF",
            Errors::AccessDenied => "ACCESS_DENIED",
        }
    }

    /// The error as it is shown: a JSON object whose `status` field holds the
    /// status word, such as `{"status":"BAD_DATA"}`.
    pub fn to_string(&self) -> (res: String)
        ensures
            res@ == json_object_text("status"@, status_text(*self)),
            res@ == "{\"status\":\""@ + status_text(*self) + "\"}"@,
    {
        let text = json_object("status", self.status());
        proof {
            reveal_strlit("status");
            reveal_strlit("BAD_DATA");
            reveal_strlit("SOMETHING_HAPPENNED_IDK_MYSELF");
            reveal_strlit("ACCESS_DENIED");
            reveal_strlit("{\"");
            reveal_strlit("\":\"");
            reveal_strlit("\"}");
            reveal_strlit("{\"status\":\"");
            assert("{\"status\":\""@ =~= "{\""@ + "status"@ + "\":\""@);
        }
        text.unwrap()
    }
}

} // verus!
