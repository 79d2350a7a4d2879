//! Identifiers of requests and messages.

use vstd::prelude::*;
use vstd::string::*;

verus! {

/// Whether a character is a hexadecimal digit in lower case.
pub open spec fn is_lower_hex(c: char) -> bool {
    ('0' <= c && c <= '9') || ('a' <= c && c <= 'f')
}

/// Whether a text is a random UUID in simple form: 32 digits in lower case, with the
/// version and the variant of random UUIDs.
pub open spec fn is_simple_uuid(s: Seq<char>) -> bool {
    &&& s.len() == 32
    &&& forall|i: int| 0 <= i < s.len() ==> is_lower_hex(#[trigger] s[i])
    &&& s[12] == '4'
    &&& s[16] == '8' || s[16] == '9' || s[16] == 'a' || s[16] == 'b'
}

/// Wraps `uuid::Uuid::new_v4` in its simple form, `uuid::Uuid::simple`: a random UUID
/// of version 4, written as 32 hexadecimal digits in lower case. Which one it is
/// rests on chance; where the system has no random bytes to give, `uuid` panics.
#[verifier::external_body]
fn new_simple_uuid() -> (r: String)
    ensures
        is_simple_uuid(r@),
{
    uuid::Uuid::new_v4().simple().to_string()
}

/// A new identifier of a request.
pub fn new_request_id() -> (r: String)
    ensures
        is_simple_uuid(r@),
{
    new_simple_uuid()
}

/// How many characters of a UUID an identifier of a message takes.
pub const MESSAGE_ID_DIGITS: usize = 20;

/// The start of a text, up to a number of characters.
pub open spec fn head(s: Seq<char>, count: nat) -> Seq<char> {
    if s.len() <= count {
        s
    } else {
        s.take(count as int)
    }
}

/// The identifier of a message, made from the start of a UUID.
pub fn message_id_of(uuid: &str) -> (r: String)
    ensures
        r@ == "msg_"@ + head(uuid@, MESSAGE_ID_DIGITS as nat),
{
    let mut id = "msg_".to_owned();
    if uuid.unicode_len() <= MESSAGE_ID_DIGITS {
        id.append(uuid);
    } else {
        let start = uuid.substring_char(0, MESSAGE_ID_DIGITS);
        assert(start@ =~= uuid@.take(MESSAGE_ID_DIGITS as int));
        id.append(start);
    }
    id
}

/// A new identifier of a message: `msg_` and random hexadecimal digits.
pub fn new_message_id() -> (r: String)
    ensures
        exists|uuid: Seq<char>|
            #[trigger] is_simple_uuid(uuid) && r@ == "msg_"@ + uuid.take(
                MESSAGE_ID_DIGITS as int,
            ),
{
    let uuid = new_simple_uuid();
    message_id_of(uuid.as_str())
}

} // verus!
