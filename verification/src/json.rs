//! JSON text, as far as it is written by hand.

use crate::text;
use crate::text::{decimal, hex_digit, option_view, signed_decimal, texts};
use vstd::prelude::*;

pub mod reading;

verus! {

/// How a character stands in a JSON string.
pub open spec fn escaped(c: char) -> Seq<char> {
    if c == '"' {
        seq!['\\', '"']
    } else if c == '\\' {
        seq!['\\', '\\']
    } else if c == '\u{8}' {
        seq!['\\', 'b']
    } else if c == '\u{c}' {
        seq!['\\', 'f']
    } else if c == '\n' {
        seq!['\\', 'n']
    } else if c == '\r' {
        seq!['\\', 'r']
    } else if c == '\t' {
        seq!['\\', 't']
    } else if 32 > c as int {
        seq!['\\', 'u', '0', '0', hex_digit(c as int / 16), hex_digit(c as int % 16)]
    } else {
        seq![c]
    }
}

/// The JSON string that stands for a text: in quotation marks, with quotation marks,
/// backslashes and control characters escaped.
#[verifier::opaque]
pub open spec fn json_string(text: Seq<char>) -> Seq<char> {
    seq!['"'] + text.map_values(|c: char| escaped(c)).flatten() + seq!['"']
}

/// `serde_json::to_string` of a string: the text in quotation marks, with quotation
/// marks, backslashes and the characters below the space escaped, in the short form where
/// there is one.
#[verifier::external_body]
pub(crate) fn string(text: &str) -> (json: String)
    ensures
        json@ == json_string(text@),
{
    serde_json::to_string(text).expect("a string always serialises")
}

/// A name that needs no escaping: lower-case letters and underscores.
pub open spec fn is_name(name: Seq<char>) -> bool {
    forall|i: int| 0 <= i < name.len() ==> 'a' <= #[trigger] name[i] <= 'z' || name[i] == '_'
}

/// One name comes before another: at `at` it ends, or has the smaller character, and up to
/// there they are the same.
pub open spec fn comes_first_at(a: Seq<char>, b: Seq<char>, at: int) -> bool {
    &&& 0 <= at <= a.len()
    &&& at < b.len()
    &&& a.take(at) == b.take(at)
    &&& at == a.len() || a[at] < b[at]
}

/// One name comes before another.
pub open spec fn comes_first(a: Seq<char>, b: Seq<char>) -> bool {
    exists|at: int| #[trigger] comes_first_at(a, b, at)
}

/// The names of an object's members need no escaping and stand in their order, each once.
pub open spec fn is_orderly(list: Seq<(Seq<char>, Seq<char>)>) -> bool {
    &&& forall|i: int| 0 <= i < list.len() ==> is_name((#[trigger] list[i]).0)
    &&& forall|i: int|
        0 < i < list.len() ==> comes_first(list[i - 1].0, (#[trigger] list[i]).0)
}

/// Whether a text is the JSON of a value as it is written: nothing, a truth value, an
/// integer, a text, or an object of such values, nested no deeper than `depth`.
pub open spec fn is_written(json: Seq<char>, depth: nat) -> bool
    decreases depth,
{
    ||| json == "null"@
    ||| json == truth_text(true)
    ||| json == truth_text(false)
    ||| exists|n: int| i64::MIN <= n <= u64::MAX && json == #[trigger] signed_decimal(n)
    ||| exists|text: Seq<char>| json == #[trigger] json_string(text)
    ||| depth > 0 && exists|list: Seq<(Seq<char>, Seq<char>)>| #[trigger]
        is_orderly(list) && json == object_text(list) && forall|i: int|
            0 <= i < list.len() ==> is_written((#[trigger] list[i]).1, (depth - 1) as nat)
}

/// Whether members make up an object as it is written.
pub open spec fn are_written(list: Seq<(Seq<char>, Seq<char>)>, depth: nat) -> bool {
    is_orderly(list) && forall|i: int|
        0 <= i < list.len() ==> is_written((#[trigger] list[i]).1, depth)
}

/// An object of members that are written is written.
pub proof fn lemma_object_is_written(list: Seq<(Seq<char>, Seq<char>)>, depth: nat)
    requires
        are_written(list, depth),
    ensures
        is_written(object_text(list), depth + 1),
{
}

/// Members in order, with others behind them that are in order too.
pub proof fn lemma_members_are_written(
    front: Seq<(Seq<char>, Seq<char>)>,
    back: Seq<(Seq<char>, Seq<char>)>,
    depth: nat,
)
    requires
        are_written(front, depth),
        are_written(back, depth),
        front.len() > 0 && back.len() > 0 ==> comes_first(front.last().0, back[0].0),
    ensures
        are_written(front + back, depth),
{
    let list = front + back;
    assert forall|i: int| 0 <= i < list.len() implies is_name((#[trigger] list[i]).0) && is_written(
        list[i].1,
        depth,
    ) by {
        if i < front.len() {
            assert(list[i] == front[i]);
        } else {
            assert(list[i] == back[i - front.len()]);
        }
    }
    assert forall|i: int| 0 < i < list.len() implies comes_first(
        list[i - 1].0,
        (#[trigger] list[i]).0,
    ) by {
        if i < front.len() {
            assert(list[i] == front[i] && list[i - 1] == front[i - 1]);
        } else if i == front.len() {
            assert(list[i] == back[0] && list[i - 1] == front.last());
        } else {
            assert(list[i] == back[i - front.len()]);
            assert(list[i - 1] == back[i - front.len() - 1]);
        }
    }
}

/// Truth values, numbers and texts are written, and so is what stands for them where they
/// are missing.
pub proof fn lemma_values_are_written(depth: nat)
    ensures
        forall|value: bool| is_written(#[trigger] truth_text(value), depth),
        forall|n: nat| n <= u64::MAX ==> is_written(#[trigger] decimal(n), depth),
        forall|n: Option<u32>| is_written(#[trigger] number_or_null(n), depth),
        forall|text: Seq<char>| is_written(#[trigger] json_string(text), depth),
        forall|text: Option<Seq<char>>| is_written(#[trigger] text_or_null(text), depth),
{
    assert forall|n: nat| n <= u64::MAX implies is_written(#[trigger] decimal(n), depth) by {
        assert(decimal(n) == signed_decimal(n as int));
    }
    assert forall|n: Option<u32>| is_written(#[trigger] number_or_null(n), depth) by {
        match n {
            Some(n) => {
                assert(is_written(decimal(n as nat), depth));
            },
            None => {},
        }
    }
    assert forall|text: Option<Seq<char>>| is_written(#[trigger] text_or_null(text), depth) by {
        match text {
            Some(text) => {
                assert(is_written(json_string(text), depth));
            },
            None => {},
        }
    }
}

/// The JSON of the value that a text stands for, without white space and with the members
/// of objects in the order of their names, if the text is JSON.
pub uninterp spec fn json_value(text: Seq<char>) -> Option<Seq<char>>;

/// `serde_json::from_str` as a `serde_json::Value`, which is written out again by its
/// `to_string`.
///
/// The outcome is a function of the text alone; any error is `None`. A value that is
/// written comes back as it is: nothing is lost of a truth value, an integer of 64 bits, a
/// text, or an object whose members are in order. What else is JSON is not stated.
#[verifier::external_body]
pub(crate) fn reread(text: &str) -> (json: Option<String>)
    ensures
        option_view(json) == json_value(text@),
        is_written(text@, 2) ==> json is Some && json->0@ == text@,
{
    serde_json::from_str::<serde_json::Value>(text).ok().map(|value| value.to_string())
}

/// The text that a JSON pointer leads to in a document, if the document is JSON and the
/// pointer leads to a text.
pub uninterp spec fn json_text_at(document: Seq<char>, pointer: Seq<char>) -> Option<Seq<char>>;

/// `serde_json::from_str` as a `serde_json::Value`, in which `Value::pointer` is followed
/// to a value that `Value::as_str` reads.
///
/// The outcome is a function of the two texts alone; where the document is no JSON, the
/// pointer leads nowhere or the value is no text, it is `None`. Which documents hold which
/// texts is not stated.
#[verifier::external_body]
pub(crate) fn text_at(document: &str, pointer: &str) -> (found: Option<String>)
    ensures
        option_view(found) == json_text_at(document@, pointer@),
{
    let value = serde_json::from_str::<serde_json::Value>(document).ok()?;
    value.pointer(pointer)?.as_str().map(|text| text.to_string())
}

/// One member of an object, its value as JSON.
#[derive(Debug)]
pub struct Member {
    pub name: &'static str,
    pub value: String,
}

impl View for Member {
    type V = (Seq<char>, Seq<char>);

    open spec fn view(&self) -> (Seq<char>, Seq<char>) {
        (self.name@, self.value@)
    }
}

/// The members of an object in a row.
pub open spec fn members(list: Seq<(Seq<char>, Seq<char>)>) -> Seq<char>
    decreases list.len(),
{
    if list.len() == 0 {
        Seq::empty()
    } else {
        let (name, value) = list.last();
        let front = if list.len() == 1 {
            Seq::empty()
        } else {
            members(list.drop_last()) + ","@
        };
        front + "\""@ + name + "\":"@ + value
    }
}

/// The text of an object.
pub open spec fn object_text(list: Seq<(Seq<char>, Seq<char>)>) -> Seq<char> {
    "{"@ + members(list) + "}"@
}

/// The views of a list of members.
pub open spec fn member_views(list: Seq<Member>) -> Seq<(Seq<char>, Seq<char>)> {
    list.map_values(|member: Member| member@)
}

/// Writes an object. The names need no escaping.
pub fn object(list: &Vec<Member>) -> (json: String)
    ensures
        json@ == object_text(member_views(list@)),
{
    let ghost all = member_views(list@);
    let mut row = String::new();
    let mut index: usize = 0;
    while index < list.len()
        invariant
            index <= list@.len(),
            all == member_views(list@),
            row@ == members(all.take(index as int)),
        decreases list@.len() - index,
    {
        proof {
            let front = all.take(index + 1);
            assert(front.drop_last() =~= all.take(index as int));
            assert(front.last() == list@[index as int]@);
        }
        if index > 0 {
            row = row.concat(",");
        }
        row = row.concat("\"").concat(list[index].name).concat("\":").concat(
            list[index].value.as_str(),
        );
        index = index + 1;
    }
    assert(all.take(all.len() as int) =~= all);
    "{".to_owned().concat(row.as_str()).concat("}")
}

/// Appends members to others.
pub fn extend(list: &mut Vec<Member>, more: Vec<Member>)
    ensures
        member_views(final(list)@) == member_views(old(list)@) + member_views(more@),
{
    let ghost before = list@;
    let ghost added = more@;
    let mut rest = more;
    list.append(&mut rest);
    assert(member_views(list@) =~= member_views(before) + member_views(added));
}

/// The JSON of a text that may be missing.
pub open spec fn text_or_null(value: Option<Seq<char>>) -> Seq<char> {
    match value {
        Some(text) => json_string(text),
        None => "null"@,
    }
}

/// The JSON of a number that may be missing.
pub open spec fn number_or_null(value: Option<u32>) -> Seq<char> {
    match value {
        Some(n) => text::decimal(n as nat),
        None => "null"@,
    }
}

/// The JSON of a truth value.
pub open spec fn truth_text(value: bool) -> Seq<char> {
    if value {
        "true"@
    } else {
        "false"@
    }
}

/// The JSON of a text that may be missing.
pub fn optional(value: &Option<String>) -> (json: String)
    ensures
        json@ == text_or_null(option_view(*value)),
{
    match value {
        Some(text) => string(text.as_str()),
        None => "null".to_owned(),
    }
}

/// The JSON of a number that may be missing.
pub fn optional_number(value: Option<u32>) -> (json: String)
    ensures
        json@ == number_or_null(value),
{
    match value {
        Some(n) => text::decimal_of(n as u64),
        None => "null".to_owned(),
    }
}

/// The JSON of a truth value.
pub fn truth(value: bool) -> (json: String)
    ensures
        json@ == truth_text(value),
{
    if value {
        "true".to_owned()
    } else {
        "false".to_owned()
    }
}

/// A member.
pub fn member(name: &'static str, value: String) -> (member: Member)
    ensures
        member@ == (name@, value@),
{
    Member { name, value }
}

/// A member that is there only if it has a value, given as JSON.
pub open spec fn some_member(name: Seq<char>, value: Option<Seq<char>>) -> Seq<
    (Seq<char>, Seq<char>),
> {
    match value {
        Some(value) => seq![(name, value)],
        None => Seq::empty(),
    }
}

/// Appends a member if it has a value.
pub fn push_some(list: &mut Vec<Member>, name: &'static str, value: Option<String>)
    ensures
        member_views(final(list)@) == member_views(old(list)@) + some_member(
            name@,
            option_view(value),
        ),
{
    let ghost before = list@;
    match value {
        Some(value) => {
            list.push(Member { name, value });
            assert(member_views(list@) =~= member_views(before) + seq![(name@, value@)]);
        },
        None => {
            assert(member_views(list@) =~= member_views(before) + Seq::empty());
        },
    }
}

/// JSON values in a row.
pub open spec fn values(list: Seq<Seq<char>>) -> Seq<char>
    decreases list.len(),
{
    if list.len() == 0 {
        Seq::empty()
    } else if list.len() == 1 {
        list[0]
    } else {
        values(list.drop_last()) + ","@ + list.last()
    }
}

/// The text of an array of JSON values.
pub open spec fn list_text(list: Seq<Seq<char>>) -> Seq<char> {
    "["@ + values(list) + "]"@
}

/// Writes an array of JSON values.
pub fn list(all: &Vec<String>) -> (json: String)
    ensures
        json@ == list_text(texts(all@)),
{
    let ghost views = texts(all@);
    let mut row = String::new();
    let mut index: usize = 0;
    while index < all.len()
        invariant
            index <= all@.len(),
            views == texts(all@),
            row@ == values(views.take(index as int)),
        decreases all@.len() - index,
    {
        proof {
            let front = views.take(index + 1);
            assert(front.drop_last() =~= views.take(index as int));
            assert(front.last() == all@[index as int]@);
        }
        if index == 0 {
            row = all[index].as_str().to_owned();
        } else {
            row = row.concat(",").concat(all[index].as_str());
        }
        index = index + 1;
    }
    assert(views.take(views.len() as int) =~= views);
    "[".to_owned().concat(row.as_str()).concat("]")
}

/// Texts in a row, as JSON.
pub open spec fn items(list: Seq<Seq<char>>) -> Seq<char>
    decreases list.len(),
{
    if list.len() == 0 {
        Seq::empty()
    } else if list.len() == 1 {
        json_string(list[0])
    } else {
        items(list.drop_last()) + ","@ + json_string(list.last())
    }
}

/// The text of an array of texts.
pub open spec fn array_text(list: Seq<Seq<char>>) -> Seq<char> {
    "["@ + items(list) + "]"@
}

/// Writes an array of texts.
pub fn array(list: &Vec<String>) -> (json: String)
    ensures
        json@ == array_text(texts(list@)),
{
    let ghost all = texts(list@);
    let mut row = String::new();
    let mut index: usize = 0;
    while index < list.len()
        invariant
            index <= list@.len(),
            all == texts(list@),
            row@ == items(all.take(index as int)),
        decreases list@.len() - index,
    {
        proof {
            let front = all.take(index + 1);
            assert(front.drop_last() =~= all.take(index as int));
            assert(front.last() == list@[index as int]@);
        }
        let item = string(list[index].as_str());
        if index == 0 {
            row = item;
        } else {
            row = row.concat(",").concat(item.as_str());
        }
        index = index + 1;
    }
    assert(all.take(all.len() as int) =~= all);
    "[".to_owned().concat(row.as_str()).concat("]")
}

} // verus!
