//! Random identifiers: sidecar tokens' raw material, process session ids
//! and question call ids.
use vstd::prelude::*;
use crate::text::owned;

verus! {

broadcast use vstd::string::group_string_axioms;

/// A lower-case hexadecimal digit.
pub open spec fn is_lower_hex(c: char) -> bool {
    ('0' <= c && c <= '9') || ('a' <= c && c <= 'f')
}

/// `uuid::Uuid::new_v4().simple().to_string()`: a random version-4 UUID
/// as 32 lower-case hex digits, whose 13th digit is the version `4` and
/// whose 17th holds the RFC 4122 variant (`8`, `9`, `a` or `b`). Which
/// digits come out is chance; nothing more is stated of them.
#[verifier::external_body]
pub(crate) fn random_uuid_simple() -> (s: String)
    ensures
        s@.len() == 32,
        forall|i: int| 0 <= i < 32 ==> is_lower_hex(#[trigger] s@[i]),
        s@[12] == '4',
        s@[16] == '8' || s@[16] == '9' || s@[16] == 'a' || s@[16] == 'b',
{
    uuid::Uuid::new_v4().simple().to_string()
}

/// The hyphenated form of a UUID: 36 characters, `-` at positions 8, 13,
/// 18 and 23 and lower-case hex digits elsewhere.
pub open spec fn is_hyphenated_uuid(s: Seq<char>) -> bool {
    &&& s.len() == 36
    &&& forall|i: int| 0 <= i < 36 ==> (if i == 8 || i == 13 || i == 18 || i == 23 {
        #[trigger] s[i] == '-'
    } else {
        is_lower_hex(s[i])
    })
}

/// `uuid::Uuid::new_v4().to_string()`: a random version-4 UUID in its
/// hyphenated lower-case form, with the version `4` at position 14 and the
/// variant digit (`8`, `9`, `a` or `b`) at position 19. Which digits come
/// out is chance; nothing more is stated of them.
#[verifier::external_body]
fn random_uuid_hyphenated() -> (s: String)
    ensures
        is_hyphenated_uuid(s@),
        s@[14] == '4',
        s@[19] == '8' || s@[19] == '9' || s@[19] == 'a' || s@[19] == 'b',
{
    uuid::Uuid::new_v4().to_string()
}

/// A fresh id for a process left running in the background.
pub fn new_session_id() -> (id: String)
    ensures
        is_hyphenated_uuid(id@),
        id@[14] == '4',
{
    random_uuid_hyphenated()
}

/// A fresh call id for a question put to the browser: `question-` and a
/// random UUID.
pub fn question_call_id() -> (id: String)
    ensures
        id@.len() == 45,
        id@.subrange(0, 9) == "question-"@,
        is_hyphenated_uuid(id@.subrange(9, 45)),
{
    let mut id = owned("question-");
    let u = random_uuid_hyphenated();
    id.append(u.as_str());
    proof {
        reveal_strlit("question-");
        assert(id@.subrange(0, 9) =~= "question-"@);
        assert(id@.subrange(9, 45) =~= u@);
    }
    id
}

} // verus!
