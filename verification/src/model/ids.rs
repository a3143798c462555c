//! Short random identifiers for boards, lists, cards and labels.

use vstd::prelude::*;

verus! {

/// Identifier of a board, list, card or label.
pub type ShortId = String;

/// A lowercase hexadecimal digit, as `Uuid`'s hyphenated form writes them.
pub open spec fn is_lower_hex(c: char) -> bool {
    ('0' <= c && c <= '9') || ('a' <= c && c <= 'f')
}

/// The text of a hyphenated UUID: 36 characters, hyphens at 8, 13, 18
/// and 23, lowercase hexadecimal digits elsewhere.
pub open spec fn is_uuid_text(s: Seq<char>) -> bool {
    &&& s.len() == 36
    &&& forall|i: int|
        0 <= i < 36 ==> if i == 8 || i == 13 || i == 18 || i == 23 {
            #[trigger] s[i] == '-'
        } else {
            is_lower_hex(s[i])
        }
}

/// Calls `uuid::Uuid::new_v4` and writes it with `Display`: the
/// hyphenated lowercase text of a random UUID. Which UUID is left open.
#[verifier::external_body]
fn random_uuid_text() -> (s: String)
    ensures
        is_uuid_text(s@),
{
    uuid::Uuid::new_v4().to_string()
}

/// A fresh short id: the first eight characters (the first group of hex
/// digits) of a random UUID's text.
pub fn new_id() -> (id: ShortId)
    ensures
        id@.len() == 8,
        forall|i: int| 0 <= i < 8 ==> is_lower_hex(#[trigger] id@[i]),
{
    let text = random_uuid_text();
    let cs = crate::text::chars_of(text.as_str());
    let mut first: Vec<char> = Vec::new();
    let mut i: usize = 0;
    while i < 8
        invariant
            i <= 8,
            cs@ == text@,
            is_uuid_text(cs@),
            first@ == cs@.take(i as int),
        decreases 8 - i,
    {
        first.push(cs[i]);
        i += 1;
        assert(first@ =~= cs@.take(i as int));
    }
    let id = crate::text::string_from_chars(first.as_slice());
    assert forall|k: int| 0 <= k < 8 implies is_lower_hex(#[trigger] id@[k]) by {
        assert(id@[k] == cs@[k]);
        assert(k != 8 && k != 13 && k != 18 && k != 23);
    }
    id
}

/// Microseconds since the Unix epoch, the library's stand-in for a UTC
/// timestamp.
pub type Timestamp = i64;

/// Calls `chrono::Utc::now` and reads it as microseconds since the epoch.
/// Nothing is promised of the value: it is the current time.
#[verifier::external_body]
pub fn now_micros() -> (t: Timestamp) {
    chrono::Utc::now().timestamp_micros()
}

} // verus!
