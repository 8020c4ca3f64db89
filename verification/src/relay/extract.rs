//! How unreadable requests are answered: with the error envelope that every other
//! failure uses.

use crate::relay::error::{code, ApiError, Refusal};
use crate::text;
use crate::text::trimmed;
use vstd::prelude::*;
use vstd::utf8::*;

verus! {

/// The size that a message is cut to, in bytes.
pub const MAX_DETAIL: usize = 300;

/// A text on one line.
pub open spec fn single_line(text: Seq<char>) -> Seq<char> {
    text.map_values(
        |c: char|
            if c == '\n' {
                ' '
            } else {
                c
            },
    )
}

/// The detail of a rejection on one line, without the blanks around it.
pub open spec fn detail(text: Seq<char>) -> Seq<char> {
    trimmed(single_line(text))
}

/// The first `size` characters fill a message.
pub open spec fn fills(detail: Seq<char>, size: int) -> bool {
    0 <= size <= detail.len() && encode_utf8(detail.take(size)).len() == MAX_DETAIL
}

/// A detail that is too long can be cut between two characters.
pub open spec fn can_be_cut(detail: Seq<char>) -> bool {
    encode_utf8(detail).len() > MAX_DETAIL ==> exists|size: int| #[trigger] fills(detail, size)
}

/// `message` is what is left of a rejection's text.
pub open spec fn is_cleaned(text: Seq<char>, message: Seq<char>) -> bool {
    if encode_utf8(detail(text)).len() > MAX_DETAIL {
        exists|size: int| #[trigger]
            fills(detail(text), size) && message == detail(text).take(size) + "…"@
    } else {
        message == detail(text)
    }
}

fn on_one_line(text: &str) -> (line: String)
    ensures
        line@ == single_line(text@),
{
    let list = text::characters(text);
    let mut line = String::new();
    let mut index: usize = 0;
    while index < list.len()
        invariant
            index <= list@.len(),
            list@ == text@,
            line@ == single_line(text@).take(index as int),
        decreases list@.len() - index,
    {
        if list[index] == '\n' {
            line.push(' ');
        } else {
            line.push(list[index]);
        }
        index = index + 1;
        assert(line@ =~= single_line(text@).take(index as int));
    }
    assert(line@ =~= single_line(text@));
    line
}

/// The longest front of a detail that a message holds, if a cut between two characters
/// fills it.
fn front_of(list: &Vec<char>) -> (front: Option<String>)
    ensures
        front is Some <==> exists|size: int| #[trigger] fills(list@, size),
        front is Some ==> exists|size: int| #[trigger]
            fills(list@, size) && front->0@ == list@.take(size),
{
    let mut front = String::new();
    let mut size: usize = 0;
    assert(front@ =~= list@.take(0));
    loop
        invariant
            size <= list@.len(),
            front@ == list@.take(size as int),
            forall|other: int| 0 <= other < size ==> !fills(list@, other),
        decreases list@.len() - size,
    {
        if front.as_str().as_bytes().len() == MAX_DETAIL {
            assert(fills(list@, size as int));
            return Some(front);
        }
        assert(!fills(list@, size as int));
        if size == list.len() {
            return None;
        }
        front.push(list[size]);
        size = size + 1;
        assert(front@ =~= list@.take(size as int));
    }
}

/// Whether a rejection's text can be told in one message.
pub fn is_cleanable(text: &str) -> (cleanable: bool)
    ensures
        cleanable == can_be_cut(detail(text@)),
{
    let kept = text::trim(on_one_line(text).as_str());
    if kept.as_str().as_bytes().len() <= MAX_DETAIL {
        return true;
    }
    front_of(&text::characters(kept.as_str())).is_some()
}

/// Strips the multi-line detail that a parser produces, so that the message stays a
/// single sentence.
pub fn clean(text: &str) -> (message: String)
    requires
        can_be_cut(detail(text@)),
    ensures
        is_cleaned(text@, message@),
{
    let kept = text::trim(on_one_line(text).as_str());
    if kept.as_str().as_bytes().len() > MAX_DETAIL {
        match front_of(&text::characters(kept.as_str())) {
            Some(front) => front.concat("…"),
            None => {
                assert(false);
                kept
            },
        }
    } else {
        kept
    }
}

/// Why a JSON body could not be read.
#[derive(Debug, Clone, Copy, PartialEq, Eq, Structural)]
pub enum JsonFault {
    /// It is JSON, but not what was asked for.
    Data,
    /// It is not JSON.
    Syntax,
    /// It is not said to be JSON.
    ContentType,
    /// It could not be read within the limit.
    Unreadable,
    Other,
}

impl JsonFault {
    /// The answer tells what the parser said.
    pub open spec fn tells_detail(self) -> bool {
        self != JsonFault::ContentType && self != JsonFault::Unreadable
    }
}

/// `refusal` is what an unreadable JSON body is answered.
pub open spec fn is_json_refusal(fault: JsonFault, text: Seq<char>, refusal: Refusal) -> bool {
    match fault {
        JsonFault::Data => exists|message: Seq<char>| #[trigger]
            is_cleaned(text, message) && refusal == Refusal::validation(message),
        JsonFault::ContentType => refusal == Refusal::new(
            415,
            code::UNSUPPORTED_MEDIA_TYPE@,
            "requests must use Content-Type: application/json"@,
        ),
        JsonFault::Unreadable => refusal == Refusal::new(
            413,
            code::PAYLOAD_TOO_LARGE@,
            "request body could not be read within the configured limit"@,
        ),
        JsonFault::Syntax | JsonFault::Other => exists|message: Seq<char>| #[trigger]
            is_cleaned(text, message) && refusal == Refusal::invalid(message),
    }
}

/// What an unreadable JSON body is answered. An unknown or mistyped field is a failed
/// validation, not a syntax error.
pub fn reject_json(fault: JsonFault, text: &str) -> (error: ApiError)
    requires
        fault.tells_detail() ==> can_be_cut(detail(text@)),
    ensures
        is_json_refusal(fault, text@, error@),
{
    match fault {
        JsonFault::Data => {
            let message = clean(text);
            assert(is_cleaned(text@, message@));
            ApiError::validation(message.as_str())
        },
        JsonFault::ContentType => ApiError::new(
            415,
            code::UNSUPPORTED_MEDIA_TYPE,
            "requests must use Content-Type: application/json",
        ),
        JsonFault::Unreadable => ApiError::new(
            413,
            code::PAYLOAD_TOO_LARGE,
            "request body could not be read within the configured limit",
        ),
        JsonFault::Syntax | JsonFault::Other => reject_parts(text),
    }
}

/// What an unreadable path or query is answered. A malformed identifier in a path is the
/// client's error, and says nothing of whether any such thing exists.
pub fn reject_parts(text: &str) -> (error: ApiError)
    requires
        can_be_cut(detail(text@)),
    ensures
        exists|message: Seq<char>| #[trigger]
            is_cleaned(text@, message) && error@ == Refusal::invalid(message),
{
    let message = clean(text);
    assert(is_cleaned(text@, message@));
    ApiError::invalid(message.as_str())
}

} // verus!
