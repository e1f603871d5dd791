//! What tells requests apart.

use vstd::prelude::*;

verus! {

/// A digit of a number in base sixteen, in lower case.
pub open spec fn is_hex_digit(c: char) -> bool {
    '0' <= c <= '9' || 'a' <= c <= 'f'
}

/// The text of a random UUID: 32 hexadecimal digits in five groups, of which two are marked with
/// the version and the variant.
pub open spec fn is_random_uuid(text: Seq<char>) -> bool {
    &&& text.len() == 36
    &&& forall|i: int|
        0 <= i < 36 ==> if i == 8 || i == 13 || i == 18 || i == 23 {
            #[trigger] text[i] == '-'
        } else {
            is_hex_digit(text[i])
        }
    &&& text[14] == '4'
    &&& text[19] == '8' || text[19] == '9' || text[19] == 'a' || text[19] == 'b'
}

/// `uuid::Uuid::new_v4`, written out: a random UUID in lower case with hyphens. Which one it is
/// rests on chance. It does not return where the system has no random bytes to give.
#[verifier::external_body]
fn random_uuid() -> (text: String)
    ensures
        is_random_uuid(text@),
{
    uuid::Uuid::new_v4().to_string()
}

/// A name for a new request.
pub fn new_request_id() -> (request_id: String)
    ensures
        is_random_uuid(request_id@),
{
    random_uuid()
}

/// The form of a name, place by place.
pub proof fn law_request_id_form(text: Seq<char>, i: int)
    ensures
        is_random_uuid(text) ==> {
            &&& text.len() == 36
            &&& text[8] == '-' && text[13] == '-' && text[18] == '-' && text[23] == '-'
            &&& text[14] == '4'
            &&& text[19] == '8' || text[19] == '9' || text[19] == 'a' || text[19] == 'b'
            &&& 0 <= i < 36 && i != 8 && i != 13 && i != 18 && i != 23 ==> '0' <= text[i] <= '9'
                || 'a' <= text[i] <= 'f'
        },
{
}

} // verus!
