//! What JSON text says when it is read.

use crate::ids::{be128, lemma_be128, uuid_text};
use crate::json::{
    are_written, array_text, comes_first, comes_first_at, escaped, is_name, is_orderly, is_written,
    items, json_string, list_text, members, number_or_null, object_text, text_or_null, truth_text, values,
};
use crate::text::{decimal, digits_value, hex, hex_digit, signed_decimal};
use vstd::prelude::*;

verus! {

/// Where a reader stands inside a value.
#[derive(PartialEq, Eq, Structural)]
pub struct Place {
    /// How many objects and arrays are open.
    pub depth: nat,
    /// Inside a text.
    pub quoted: bool,
    /// Behind a backslash inside a text.
    pub escaped: bool,
}

/// Outside of everything, or inside so many objects and arrays.
pub open spec fn within(depth: nat) -> Place {
    Place { depth, quoted: false, escaped: false }
}

/// A character that can only follow a value.
pub open spec fn follows_value(c: char) -> bool {
    c == ',' || c == '}' || c == ']'
}

/// Where a reader stands one character further on.
pub open spec fn passed(at: Place, c: char) -> Place {
    if at.quoted {
        if at.escaped {
            Place { escaped: false, ..at }
        } else if c == '\\' {
            Place { escaped: true, ..at }
        } else if c == '"' {
            Place { quoted: false, ..at }
        } else {
            at
        }
    } else if c == '"' {
        Place { quoted: true, ..at }
    } else if c == '{' || c == '[' {
        Place { depth: at.depth + 1, ..at }
    } else if c == '}' || c == ']' {
        Place { depth: (at.depth - 1) as nat, ..at }
    } else {
        at
    }
}

/// Where a reader stands behind a text, if the text does not go beyond the value that it
/// began in.
pub open spec fn read(text: Seq<char>, at: Place) -> Option<Place>
    decreases text.len(),
{
    if text.len() == 0 {
        Some(at)
    } else {
        match read(text.drop_last(), at) {
            None => None,
            Some(place) => if place == within(0) && follows_value(text.last()) {
                None
            } else {
                Some(passed(place, text.last()))
            },
        }
    }
}

/// A text is exactly one value: it ends where it began, and not before.
pub open spec fn is_value(text: Seq<char>) -> bool {
    text.len() > 0 && read(text, within(0)) == Some(within(0))
}

/// A text reads as an object with these members.
pub open spec fn reads_as(text: Seq<char>, list: Seq<(Seq<char>, Seq<char>)>) -> bool {
    text == object_text(list) && are_readable(list)
}

/// Members whose names are names and whose values are values.
pub open spec fn are_readable(list: Seq<(Seq<char>, Seq<char>)>) -> bool {
    forall|i: int|
        0 <= i < list.len() ==> is_name((#[trigger] list[i]).0) && is_value(list[i].1)
}

/// A text reads as an object that has this member and no other of its name.
pub open spec fn has_member(text: Seq<char>, name: Seq<char>, value: Seq<char>) -> bool {
    exists|list: Seq<(Seq<char>, Seq<char>)>, i: int| #[trigger] holds_at(text, list, i, name, value)
}

/// A text reads as these members, of which the one at `i` is the only one of its name.
pub open spec fn holds_at(
    text: Seq<char>,
    list: Seq<(Seq<char>, Seq<char>)>,
    i: int,
    name: Seq<char>,
    value: Seq<char>,
) -> bool {
    &&& reads_as(text, list)
    &&& 0 <= i < list.len()
    &&& list[i] == (name, value)
    &&& forall|j: int| 0 <= j < list.len() && (#[trigger] list[j]).0 == name ==> j == i
}

/// A text reads as an object whose member of this name is a text.
pub open spec fn has_text(text: Seq<char>, name: Seq<char>, value: Seq<char>) -> bool {
    has_member(text, name, json_string(value))
}

/// A text reads as an object whose member of this name is a number, which its digits stand
/// for.
pub open spec fn has_number(text: Seq<char>, name: Seq<char>, value: nat) -> bool {
    exists|digits: Seq<char>| #[trigger]
        has_member(text, name, digits) && digits_value(digits) == Some(value)
}

/// A text reads as an object whose member of this name is this truth value.
pub open spec fn has_truth(text: Seq<char>, name: Seq<char>, value: bool) -> bool {
    has_member(
        text,
        name,
        if value {
            "true"@
        } else {
            "false"@
        },
    )
}

/// A text reads as an object whose member of this name is a text, or null where there is
/// none.
pub open spec fn may_have_text(text: Seq<char>, name: Seq<char>, value: Option<Seq<char>>) -> bool {
    match value {
        Some(value) => has_text(text, name, value),
        None => has_member(text, name, "null"@),
    }
}

/// A text reads as an object whose member of this name is a number, or null where there is
/// none.
pub open spec fn may_have_number(text: Seq<char>, name: Seq<char>, value: Option<u32>) -> bool {
    match value {
        Some(value) => has_number(text, name, value as nat),
        None => has_member(text, name, "null"@),
    }
}

/// A text reads as an object whose member of this name is a whole number.
pub open spec fn has_integer(text: Seq<char>, name: Seq<char>, value: int) -> bool {
    if value >= 0 {
        has_number(text, name, value as nat)
    } else {
        exists|digits: Seq<char>| #[trigger]
            has_member(text, name, seq!['-'] + digits) && digits_value(digits) == Some(
                (0 - value) as nat,
            )
    }
}

/// A text reads as an object whose member of this name is an array of texts.
pub open spec fn has_texts(text: Seq<char>, name: Seq<char>, list: Seq<Seq<char>>) -> bool {
    has_member(text, name, list_text(list.map_values(|item: Seq<char>| json_string(item))))
}

/// A text reads as an object without a member of this name.
pub open spec fn has_no_member(text: Seq<char>, name: Seq<char>) -> bool {
    exists|list: Seq<(Seq<char>, Seq<char>)>| #[trigger]
        reads_as(text, list) && forall|j: int| 0 <= j < list.len() ==> (#[trigger] list[j]).0 != name
}

pub proof fn lemma_read_on(a: Seq<char>, b: Seq<char>, at: Place)
    ensures
        read(a + b, at) == (match read(a, at) {
            Some(place) => read(b, place),
            None => None,
        }),
    decreases b.len(),
{
    if b.len() == 0 {
        assert(a + b =~= a);
    } else {
        lemma_read_on(a, b.drop_last(), at);
        assert((a + b).drop_last() =~= a + b.drop_last());
    }
}

/// What is read outside of everything is read the same inside of something.
proof fn lemma_read_within(text: Seq<char>, depth: nat)
    requires
        read(text, within(0)) is Some,
    ensures
        read(text, within(depth)) == Some(
            Place {
                depth: read(text, within(0))->0.depth + depth,
                ..read(text, within(0))->0
            },
        ),
    decreases text.len(),
{
    if text.len() > 0 {
        lemma_read_within(text.drop_last(), depth);
        lemma_read_is_sane(text.drop_last());
    }
}

/// A reader that goes not beyond its value never leaves what it did not enter.
proof fn lemma_read_is_sane(text: Seq<char>)
    requires
        read(text, within(0)) is Some,
    ensures
        ({
            let place = read(text, within(0))->0;
            !place.quoted ==> !place.escaped
        }),
    decreases text.len(),
{
    if text.len() > 0 {
        lemma_read_is_sane(text.drop_last());
    }
}

/// A value has one end.
proof fn lemma_value_ends(v: Seq<char>, rest_v: Seq<char>, w: Seq<char>, rest_w: Seq<char>)
    requires
        is_value(v),
        is_value(w),
        v + rest_v == w + rest_w,
        rest_v.len() > 0 && follows_value(rest_v[0]),
        rest_w.len() > 0 && follows_value(rest_w[0]),
    ensures
        v == w,
        rest_v == rest_w,
{
    lemma_value_is_no_longer(v, rest_v, w, rest_w);
    lemma_value_is_no_longer(w, rest_w, v, rest_v);
    let whole = v + rest_v;
    assert(v =~= whole.take(v.len() as int));
    assert(w =~= whole.take(w.len() as int));
    assert(rest_v =~= whole.skip(v.len() as int));
    assert(rest_w =~= whole.skip(w.len() as int));
}

proof fn lemma_value_is_no_longer(v: Seq<char>, rest_v: Seq<char>, w: Seq<char>, rest_w: Seq<char>)
    requires
        is_value(v),
        is_value(w),
        v + rest_v == w + rest_w,
        rest_v.len() > 0 && follows_value(rest_v[0]),
    ensures
        w.len() <= v.len(),
{
    if v.len() < w.len() {
        let whole = v + rest_v;
        let at = v.len() as int;
        assert(whole[at] == rest_v[0]);
        assert(w[at] == (w + rest_w)[at]);
        let front = w.take(at + 1);
        assert(front.drop_last() =~= v) by {
            assert forall|i: int| 0 <= i < at implies front[i] == v[i] by {
                assert(whole[i] == v[i] && (w + rest_w)[i] == w[i]);
            }
        }
        assert(front.last() == w[at]);
        assert(read(front, within(0)) is None);
        assert(w =~= front + w.skip(at + 1));
        lemma_read_on(front, w.skip(at + 1), within(0));
    }
}

/// The members of an object, taken apart from the front.
proof fn lemma_members_front(list: Seq<(Seq<char>, Seq<char>)>)
    requires
        list.len() > 0,
    ensures
        members(list) == "\""@ + list[0].0 + "\":"@ + list[0].1 + (if list.len() == 1 {
            Seq::empty()
        } else {
            ","@ + members(list.skip(1))
        }),
    decreases list.len(),
{
    reveal_with_fuel(members, 2);
    if list.len() == 1 {
        assert(list.last() == list[0]);
        assert(members(list) =~= "\""@ + list[0].0 + "\":"@ + list[0].1 + Seq::empty());
    } else {
        let front = list.drop_last();
        lemma_members_front(front);
        assert(list.skip(1).drop_last() =~= front.skip(1));
        assert(list.skip(1).last() == list.last());
        assert(front[0] == list[0]);
        if front.len() == 1 {
            assert(front.skip(1) =~= Seq::empty());
            assert(list.skip(1).len() == 1);
        }
        assert(members(list) =~= "\""@ + list[0].0 + "\":"@ + list[0].1 + (","@ + members(
            list.skip(1),
        )));
    }
}

/// A name has one end.
proof fn lemma_name_ends(a: Seq<char>, rest_a: Seq<char>, b: Seq<char>, rest_b: Seq<char>)
    requires
        is_name(a),
        is_name(b),
        a + rest_a == b + rest_b,
        rest_a.len() > 0 && rest_a[0] == '"',
        rest_b.len() > 0 && rest_b[0] == '"',
    ensures
        a == b,
        rest_a == rest_b,
{
    let whole = a + rest_a;
    if a.len() < b.len() {
        assert(whole[a.len() as int] == '"');
        assert((b + rest_b)[a.len() as int] == b[a.len() as int]);
    }
    if b.len() < a.len() {
        assert((b + rest_b)[b.len() as int] == '"');
        assert(whole[b.len() as int] == a[b.len() as int]);
    }
    assert(a =~= whole.take(a.len() as int));
    assert(b =~= whole.take(b.len() as int));
    assert(rest_a =~= whole.skip(a.len() as int));
    assert(rest_b =~= whole.skip(b.len() as int));
}

/// What follows the first member of an object.
spec fn behind_first(list: Seq<(Seq<char>, Seq<char>)>) -> Seq<char> {
    if list.len() == 1 {
        "}"@
    } else {
        ","@ + (members(list.skip(1)) + "}"@)
    }
}

proof fn lemma_first_apart(list: Seq<(Seq<char>, Seq<char>)>)
    requires
        list.len() > 0,
    ensures
        members(list) + "}"@ == "\""@ + (list[0].0 + ("\":"@ + (list[0].1 + behind_first(list)))),
        behind_first(list).len() > 0 && follows_value(behind_first(list)[0]),
        list.len() == 1 <==> behind_first(list)[0] == '}',
{
    lemma_members_front(list);
    reveal_strlit("}");
    reveal_strlit(",");
    assert(members(list) + "}"@ =~= "\""@ + (list[0].0 + ("\":"@ + (list[0].1 + behind_first(
        list,
    )))));
}

proof fn lemma_first_member(
    one: Seq<(Seq<char>, Seq<char>)>,
    other: Seq<(Seq<char>, Seq<char>)>,
)
    requires
        one.len() > 0,
        other.len() > 0,
        are_readable(one),
        are_readable(other),
        members(one) + "}"@ == members(other) + "}"@,
    ensures
        one[0] == other[0],
        behind_first(one) == behind_first(other),
{
    lemma_first_apart(one);
    lemma_first_apart(other);
    reveal_strlit("\"");
    reveal_strlit("\":");
    let whole = members(one) + "}"@;
    let value_one = one[0].1 + behind_first(one);
    let value_other = other[0].1 + behind_first(other);
    let rest_one = "\":"@ + value_one;
    let rest_other = "\":"@ + value_other;
    assert(is_name(one[0].0) && is_value(one[0].1));
    assert(is_name(other[0].0) && is_value(other[0].1));
    assert(one[0].0 + rest_one =~= whole.skip(1));
    assert(other[0].0 + rest_other =~= whole.skip(1));
    lemma_name_ends(one[0].0, rest_one, other[0].0, rest_other);
    assert(value_one =~= rest_one.skip(2));
    assert(value_other =~= rest_other.skip(2));
    lemma_value_ends(one[0].1, behind_first(one), other[0].1, behind_first(other));
}

proof fn lemma_rest_is_readable(list: Seq<(Seq<char>, Seq<char>)>)
    requires
        list.len() > 0,
        are_readable(list),
    ensures
        are_readable(list.skip(1)),
{
    assert forall|i: int| 0 <= i < list.len() - 1 implies is_name((#[trigger] list.skip(1)[i]).0)
        && is_value(list.skip(1)[i].1) by {
        assert(list.skip(1)[i] == list[i + 1]);
    }
}

proof fn lemma_members_read_alike(
    one: Seq<(Seq<char>, Seq<char>)>,
    other: Seq<(Seq<char>, Seq<char>)>,
)
    requires
        are_readable(one),
        are_readable(other),
        members(one) + "}"@ == members(other) + "}"@,
    ensures
        one == other,
    decreases one.len(),
{
    if one.len() == 0 || other.len() == 0 {
        reveal_strlit("}");
        reveal_strlit("\"");
        let left = members(one) + "}"@;
        let right = members(other) + "}"@;
        if other.len() > 0 {
            lemma_first_apart(other);
            assert(right[0] == '"');
            assert(left[0] == '}');
        }
        if one.len() > 0 {
            lemma_first_apart(one);
            assert(left[0] == '"');
            assert(right[0] == '}');
        }
        assert(one =~= other);
    } else {
        lemma_first_member(one, other);
        lemma_first_apart(one);
        lemma_first_apart(other);
        assert(one.len() == 1 <==> other.len() == 1);
        if one.len() > 1 {
            reveal_strlit(",");
            assert(members(one.skip(1)) + "}"@ =~= behind_first(one).skip(1));
            assert(members(other.skip(1)) + "}"@ =~= behind_first(other).skip(1));
            lemma_rest_is_readable(one);
            lemma_rest_is_readable(other);
            lemma_members_read_alike(one.skip(1), other.skip(1));
            assert(one =~= seq![one[0]] + one.skip(1));
            assert(other =~= seq![other[0]] + other.skip(1));
        }
        assert(one =~= other);
    }
}

/// A text reads as one object only: its members are what was written, each under its name.
pub proof fn law_objects_read_one_way(
    text: Seq<char>,
    one: Seq<(Seq<char>, Seq<char>)>,
    other: Seq<(Seq<char>, Seq<char>)>,
)
    requires
        reads_as(text, one),
        reads_as(text, other),
    ensures
        one == other,
{
    reveal_strlit("{");
    assert(members(one) + "}"@ =~= text.skip(1));
    assert(members(other) + "}"@ =~= text.skip(1));
    lemma_members_read_alike(one, other);
}

/// A member has one value.
pub proof fn law_members_have_one_value(
    text: Seq<char>,
    name: Seq<char>,
    one: Seq<char>,
    other: Seq<char>,
)
    requires
        has_member(text, name, one),
        has_member(text, name, other),
    ensures
        one == other,
{
    let (list, i) = choose|list: Seq<(Seq<char>, Seq<char>)>, i: int| #[trigger]
        holds_at(text, list, i, name, one);
    let (again, j) = choose|again: Seq<(Seq<char>, Seq<char>)>, j: int| #[trigger]
        holds_at(text, again, j, name, other);
    law_objects_read_one_way(text, list, again);
    assert(list[j].0 == name);
}

proof fn lemma_escaped_is_read(c: char, at: Place)
    requires
        at.quoted,
        !at.escaped,
    ensures
        read(escaped(c), at) == Some(at),
{
    reveal_with_fuel(read, 7);
    let piece = escaped(c);
    if piece.len() == 6 {
        assert(piece.drop_last().drop_last().drop_last().drop_last().drop_last() =~= seq!['\\']);
        assert(piece.drop_last().drop_last().drop_last().drop_last() =~= seq!['\\', 'u']);
        assert(piece.drop_last().drop_last().drop_last() =~= seq!['\\', 'u', '0']);
        assert(piece.drop_last().drop_last() =~= seq!['\\', 'u', '0', '0']);
        assert(piece.drop_last() =~= seq!['\\', 'u', '0', '0', hex_digit(c as int / 16)]);
    } else if piece.len() == 2 {
        assert(piece.drop_last() =~= seq!['\\']);
        assert(seq!['\\'].drop_last() =~= Seq::empty());
    } else {
        assert(piece.drop_last() =~= Seq::empty());
    }
}

proof fn lemma_text_is_read(text: Seq<char>, at: Place)
    requires
        at.quoted,
        !at.escaped,
    ensures
        read(text.map_values(|c: char| escaped(c)).flatten(), at) == Some(at),
    decreases text.len(),
{
    let pieces = text.map_values(|c: char| escaped(c));
    reveal_with_fuel(Seq::flatten, 2);
    if text.len() == 0 {
        assert(pieces.flatten() =~= Seq::<char>::empty());
    } else {
        let rest = text.drop_first();
        assert(rest.map_values(|c: char| escaped(c)) =~= pieces.drop_first());
        assert(pieces.first() == escaped(text[0]));
        lemma_escaped_is_read(text[0], at);
        lemma_text_is_read(rest, at);
        lemma_read_on(pieces.first(), pieces.drop_first().flatten(), at);
        assert(pieces.flatten() =~= pieces.first() + pieces.drop_first().flatten());
    }
}

/// A text in quotation marks is a value.
pub proof fn lemma_string_is_value(text: Seq<char>)
    ensures
        is_value(json_string(text)),
{
    reveal(json_string);
    let inner = text.map_values(|c: char| escaped(c)).flatten();
    let opened = Place { depth: 0, quoted: true, escaped: false };
    reveal_with_fuel(read, 2);
    assert(seq!['"'].drop_last() =~= Seq::empty());
    assert(read(seq!['"'], within(0)) == Some(opened));
    assert(read(seq!['"'], opened) == Some(within(0)));
    lemma_text_is_read(text, opened);
    lemma_read_on(seq!['"'], inner, within(0));
    lemma_read_on(seq!['"'] + inner, seq!['"'], within(0));
}

/// A text of plain characters is a value.
proof fn lemma_plain_is_read(text: Seq<char>, depth: nat)
    requires
        forall|i: int| 0 <= i < text.len() ==> is_plain(#[trigger] text[i]),
    ensures
        read(text, within(depth)) == Some(within(depth)),
    decreases text.len(),
{
    if text.len() > 0 {
        assert forall|i: int| 0 <= i < text.drop_last().len() implies is_plain(
            #[trigger] text.drop_last()[i],
        ) by {
            assert(text.drop_last()[i] == text[i]);
        }
        lemma_plain_is_read(text.drop_last(), depth);
        assert(is_plain(text[text.len() - 1]));
    }
}

/// A character that neither opens nor closes anything.
pub open spec fn is_plain(c: char) -> bool {
    'a' <= c <= 'z' || '0' <= c <= '9' || c == '-' || c == '_' || c == ':'
}

/// The digits of a number stand for it, and are nothing but digits.
pub proof fn lemma_decimal_reads_back(n: nat)
    ensures
        digits_value(decimal(n)) == Some(n),
        decimal(n).len() > 0,
        forall|i: int| 0 <= i < decimal(n).len() ==> '0' <= #[trigger] decimal(n)[i] <= '9',
    decreases n,
{
    reveal_with_fuel(digits_value, 2);
    if n >= 10 {
        lemma_decimal_reads_back(n / 10);
        let front = decimal(n / 10);
        assert(decimal(n).drop_last() =~= front);
    } else {
        assert(decimal(n).drop_last() =~= Seq::empty());
    }
}

/// Numbers, truth values and texts are values, and so is what stands for them where they
/// are missing.
pub proof fn lemma_values()
    ensures
        forall|n: nat| is_value(#[trigger] decimal(n)),
        forall|n: int| is_value(#[trigger] signed_decimal(n)),
        forall|value: bool| is_value(#[trigger] truth_text(value)),
        forall|text: Seq<char>| is_value(#[trigger] json_string(text)),
        forall|text: Option<Seq<char>>| is_value(#[trigger] text_or_null(text)),
        forall|n: Option<u32>| is_value(#[trigger] number_or_null(n)),
        is_value("null"@),
        is_value("true"@),
{
    reveal_strlit("true");
    reveal_strlit("false");
    reveal_strlit("null");
    reveal_strlit("-");
    assert forall|n: nat| is_value(#[trigger] decimal(n)) by {
        lemma_decimal_reads_back(n);
        lemma_plain_is_read(decimal(n), 0);
    }
    assert forall|n: int| is_value(#[trigger] signed_decimal(n)) by {
        if n < 0 {
            lemma_decimal_reads_back((-n) as nat);
        } else {
            lemma_decimal_reads_back(n as nat);
        }
        lemma_plain_is_read(signed_decimal(n), 0);
    }
    lemma_plain_is_read("true"@, 0);
    lemma_plain_is_read("false"@, 0);
    lemma_plain_is_read("null"@, 0);
    assert forall|text: Seq<char>| is_value(#[trigger] json_string(text)) by {
        lemma_string_is_value(text);
    }
    assert forall|text: Option<Seq<char>>| is_value(#[trigger] text_or_null(text)) by {
        match text {
            Some(text) => lemma_string_is_value(text),
            None => {},
        }
    }
    assert forall|n: Option<u32>| is_value(#[trigger] number_or_null(n)) by {
        match n {
            Some(n) => assert(is_value(decimal(n as nat))),
            None => {},
        }
    }
}

proof fn lemma_name_is_read(name: Seq<char>, at: Place)
    requires
        is_name(name),
        at.quoted,
        !at.escaped,
    ensures
        read(name, at) == Some(at),
    decreases name.len(),
{
    if name.len() > 0 {
        assert forall|i: int| 0 <= i < name.drop_last().len() implies 'a' <= (
        #[trigger] name.drop_last()[i]) <= 'z' || name.drop_last()[i] == '_' by {
            assert(name.drop_last()[i] == name[i]);
        }
        lemma_name_is_read(name.drop_last(), at);
        assert('a' <= name[name.len() - 1] <= 'z' || name[name.len() - 1] == '_');
    }
}

proof fn lemma_members_are_read(list: Seq<(Seq<char>, Seq<char>)>)
    requires
        are_readable(list),
    ensures
        read(members(list), within(1)) == Some(within(1)),
    decreases list.len(),
{
    reveal_with_fuel(members, 1);
    reveal_strlit("\"");
    reveal_strlit("\":");
    reveal_strlit(",");
    if list.len() > 0 {
        let shorter = list.drop_last();
        assert forall|i: int| 0 <= i < shorter.len() implies is_name((#[trigger] shorter[i]).0)
            && is_value(shorter[i].1) by {
            assert(shorter[i] == list[i]);
        }
        lemma_members_are_read(shorter);
        let (name, value) = list.last();
        assert(list[list.len() - 1] == list.last());
        let front = if list.len() == 1 {
            Seq::empty()
        } else {
            members(shorter) + ","@
        };
        reveal_with_fuel(read, 3);
        let quoted = Place { depth: 1, quoted: true, escaped: false };
        if list.len() > 1 {
            lemma_read_on(members(shorter), ","@, within(1));
            assert(","@.drop_last() =~= Seq::empty());
        }
        assert(read(front, within(1)) == Some(within(1)));
        assert("\""@.drop_last() =~= Seq::empty());
        assert("\":"@.drop_last() =~= "\""@);
        assert(read("\""@, within(1)) == Some(quoted));
        assert(read("\":"@, quoted) == Some(within(1)));
        lemma_name_is_read(name, quoted);
        lemma_read_within(value, 1);
        lemma_read_on(front, "\""@, within(1));
        lemma_read_on(front + "\""@, name, within(1));
        lemma_read_on(front + "\""@ + name, "\":"@, within(1));
        lemma_read_on(front + "\""@ + name + "\":"@, value, within(1));
    }
}

/// An object is a value.
pub proof fn lemma_object_is_value(list: Seq<(Seq<char>, Seq<char>)>)
    requires
        are_readable(list),
    ensures
        is_value(object_text(list)),
{
    lemma_members_are_read(list);
    reveal_strlit("{");
    reveal_strlit("}");
    reveal_with_fuel(read, 2);
    assert("{"@.drop_last() =~= Seq::empty());
    assert("}"@.drop_last() =~= Seq::empty());
    assert(read("{"@, within(0)) == Some(within(1)));
    assert(read("}"@, within(1)) == Some(within(0)));
    lemma_read_on("{"@, members(list), within(0));
    lemma_read_on("{"@ + members(list), "}"@, within(0));
}

proof fn lemma_values_are_read(list: Seq<Seq<char>>)
    requires
        forall|i: int| 0 <= i < list.len() ==> is_value(#[trigger] list[i]),
    ensures
        read(values(list), within(1)) == Some(within(1)),
    decreases list.len(),
{
    reveal_strlit(",");
    if list.len() > 0 {
        let shorter = list.drop_last();
        assert forall|i: int| 0 <= i < shorter.len() implies is_value(#[trigger] shorter[i]) by {
            assert(shorter[i] == list[i]);
        }
        assert(is_value(list[list.len() - 1]));
        lemma_read_within(list.last(), 1);
        if list.len() > 1 {
            lemma_values_are_read(shorter);
            reveal_with_fuel(read, 2);
            assert(","@.drop_last() =~= Seq::empty());
            lemma_read_on(values(shorter), ","@, within(1));
            lemma_read_on(values(shorter) + ","@, list.last(), within(1));
        }
    }
}

/// An array of values is a value.
pub proof fn lemma_list_is_value(list: Seq<Seq<char>>)
    requires
        forall|i: int| 0 <= i < list.len() ==> is_value(#[trigger] list[i]),
    ensures
        is_value(list_text(list)),
{
    lemma_values_are_read(list);
    reveal_strlit("[");
    reveal_strlit("]");
    reveal_with_fuel(read, 2);
    assert("["@.drop_last() =~= Seq::empty());
    assert("]"@.drop_last() =~= Seq::empty());
    assert(read("["@, within(0)) == Some(within(1)));
    assert(read("]"@, within(1)) == Some(within(0)));
    lemma_read_on("["@, values(list), within(0));
    lemma_read_on("["@ + values(list), "]"@, within(0));
}

/// Names in order differ.
proof fn lemma_order_is_strict(a: Seq<char>, b: Seq<char>, c: Seq<char>)
    ensures
        !comes_first(a, a),
        comes_first(a, b) && comes_first(b, c) ==> comes_first(a, c),
{
    if comes_first(a, b) && comes_first(b, c) {
        let k = choose|at: int| #[trigger] comes_first_at(a, b, at);
        let l = choose|at: int| #[trigger] comes_first_at(b, c, at);
        if k <= l {
            assert(c.take(k) =~= b.take(k)) by {
                assert(c.take(l).take(k) =~= c.take(k));
                assert(b.take(l).take(k) =~= b.take(k));
            }
            if k < l {
                assert(b.take(l)[k] == c.take(l)[k]);
            }
            assert(comes_first_at(a, c, k));
        } else {
            assert(a.take(l) =~= b.take(l)) by {
                assert(a.take(k).take(l) =~= a.take(l));
                assert(b.take(k).take(l) =~= b.take(l));
            }
            assert(a.take(k)[l] == b.take(k)[l]);
            assert(comes_first_at(a, c, l));
        }
    }
}

proof fn lemma_later_names(list: Seq<(Seq<char>, Seq<char>)>, i: int, j: int)
    requires
        is_orderly(list),
        0 <= i < j < list.len(),
    ensures
        comes_first(list[i].0, list[j].0),
    decreases j - i,
{
    assert(comes_first(list[j - 1].0, list[j].0));
    if i + 1 < j {
        lemma_later_names(list, i, j - 1);
        lemma_order_is_strict(list[i].0, list[j - 1].0, list[j].0);
    }
}

/// What is written is a value.
proof fn lemma_written_is_value(json: Seq<char>, depth: nat)
    requires
        is_written(json, depth),
    ensures
        is_value(json),
    decreases depth,
{
    lemma_values();
    if exists|n: int| i64::MIN <= n <= u64::MAX && json == #[trigger] signed_decimal(n) {
    } else if exists|text: Seq<char>| json == #[trigger] json_string(text) {
    } else if json == "null"@ || json == truth_text(true) || json == truth_text(false) {
    } else {
        let list = choose|list: Seq<(Seq<char>, Seq<char>)>| #[trigger]
            is_orderly(list) && json == object_text(list) && forall|i: int|
                0 <= i < list.len() ==> is_written((#[trigger] list[i]).1, (depth - 1) as nat);
        assert forall|i: int| 0 <= i < list.len() implies is_name((#[trigger] list[i]).0)
            && is_value(list[i].1) by {
            lemma_written_is_value(list[i].1, (depth - 1) as nat);
        }
        lemma_object_is_value(list);
    }
}

/// The members of an object in order are its only ones of their names.
pub proof fn lemma_members_in_order(list: Seq<(Seq<char>, Seq<char>)>)
    requires
        is_orderly(list),
        forall|i: int| 0 <= i < list.len() ==> is_value((#[trigger] list[i]).1),
    ensures
        reads_as(object_text(list), list),
        forall|i: int|
            0 <= i < list.len() ==> has_member(
                object_text(list),
                (#[trigger] list[i]).0,
                list[i].1,
            ),
{
    assert(reads_as(object_text(list), list));
    assert forall|i: int| 0 <= i < list.len() implies has_member(
        object_text(list),
        (#[trigger] list[i]).0,
        list[i].1,
    ) by {
        assert forall|j: int| 0 <= j < list.len() && (#[trigger] list[j]).0 == list[i].0 implies j
            == i by {
            lemma_order_is_strict(list[i].0, list[i].0, list[i].0);
            if j < i {
                lemma_later_names(list, j, i);
            } else if i < j {
                lemma_later_names(list, i, j);
            }
        }
        assert(holds_at(object_text(list), list, i, list[i].0, list[i].1));
    }
}

/// The members of an object as it is written are its only ones of their names.
pub proof fn lemma_written_members(list: Seq<(Seq<char>, Seq<char>)>, depth: nat)
    requires
        are_written(list, depth),
    ensures
        reads_as(object_text(list), list),
        forall|i: int|
            0 <= i < list.len() ==> has_member(
                object_text(list),
                (#[trigger] list[i]).0,
                list[i].1,
            ),
{
    assert forall|i: int| 0 <= i < list.len() implies is_value((#[trigger] list[i]).1) by {
        lemma_written_is_value(list[i].1, depth);
    }
    lemma_members_in_order(list);
}

/// A member whose value is the digits of a number is that number.
pub proof fn lemma_has_number(text: Seq<char>, name: Seq<char>, n: nat)
    requires
        has_member(text, name, decimal(n)),
    ensures
        has_number(text, name, n),
{
    lemma_decimal_reads_back(n);
}

/// A member whose value is the digits of a whole number is that number.
pub proof fn lemma_has_integer(text: Seq<char>, name: Seq<char>, n: int)
    requires
        has_member(text, name, signed_decimal(n)),
    ensures
        has_integer(text, name, n),
{
    if n >= 0 {
        lemma_has_number(text, name, n as nat);
    } else {
        reveal_strlit("-");
        assert("-"@ =~= seq!['-']);
        lemma_decimal_reads_back((0 - n) as nat);
        assert(has_member(text, name, seq!['-'] + decimal((0 - n) as nat)));
    }
}

/// A member whose value is the digits of a number, or null, is that number, or none.
pub proof fn lemma_may_have_number(text: Seq<char>, name: Seq<char>, n: Option<u32>)
    requires
        has_member(text, name, number_or_null(n)),
    ensures
        may_have_number(text, name, n),
{
    match n {
        Some(n) => {
            lemma_has_number(text, name, n as nat);
        },
        None => {},
    }
}

/// An array of texts is an array of their values.
pub proof fn lemma_array_is_list(list: Seq<Seq<char>>)
    ensures
        array_text(list) == list_text(list.map_values(|item: Seq<char>| json_string(item))),
        is_value(array_text(list)),
{
    lemma_items_are_values(list);
    lemma_values();
    lemma_list_is_value(list.map_values(|item: Seq<char>| json_string(item)));
}

proof fn lemma_items_are_values(list: Seq<Seq<char>>)
    ensures
        items(list) == values(list.map_values(|item: Seq<char>| json_string(item))),
    decreases list.len(),
{
    let mapped = list.map_values(|item: Seq<char>| json_string(item));
    if list.len() > 1 {
        lemma_items_are_values(list.drop_last());
        assert(mapped.drop_last() =~= list.drop_last().map_values(
            |item: Seq<char>| json_string(item),
        ));
    }
}

/// Members that stand in their order, each with a value.
pub open spec fn is_in_order(list: Seq<(Seq<char>, Seq<char>)>) -> bool {
    is_orderly(list) && forall|i: int| 0 <= i < list.len() ==> is_value((#[trigger] list[i]).1)
}

/// Members in order, with others behind them that are in order too.
pub proof fn lemma_joined_in_order(
    front: Seq<(Seq<char>, Seq<char>)>,
    back: Seq<(Seq<char>, Seq<char>)>,
)
    requires
        is_in_order(front),
        is_in_order(back),
        front.len() > 0 && back.len() > 0 ==> comes_first(front.last().0, back[0].0),
    ensures
        is_in_order(front + back),
        forall|member: (Seq<char>, Seq<char>)|
            front.contains(member) || back.contains(member) ==> #[trigger] (front
                + back).contains(member),
{
    let list = front + back;
    assert forall|i: int| 0 <= i < list.len() implies is_name((#[trigger] list[i]).0) && is_value(
        list[i].1,
    ) by {
        if i < front.len() {
            assert(list[i] == front[i]);
        } else {
            assert(list[i] == back[i - front.len()]);
        }
    }
    assert forall|i: int| 0 < i < list.len() implies comes_first(
        list[i - 1].0,
        (#[trigger] list[i]).0,
    ) by {
        if i < front.len() {
            assert(list[i] == front[i] && list[i - 1] == front[i - 1]);
        } else if i == front.len() {
            assert(list[i] == back[0] && list[i - 1] == front.last());
        } else {
            assert(list[i] == back[i - front.len()]);
            assert(list[i - 1] == back[i - front.len() - 1]);
        }
    }
    assert forall|member: (Seq<char>, Seq<char>)|
        front.contains(member) || back.contains(member) implies #[trigger] list.contains(member) by {
        if front.contains(member) {
            let i = choose|i: int| 0 <= i < front.len() && front[i] == member;
            assert(list[i] == member);
        } else {
            let i = choose|i: int| 0 <= i < back.len() && back[i] == member;
            assert(list[front.len() + i] == member);
        }
    }
}

/// An object of members in order has each of them.
pub proof fn lemma_ordered_members(list: Seq<(Seq<char>, Seq<char>)>)
    requires
        is_in_order(list),
    ensures
        is_value(object_text(list)),
        forall|name: Seq<char>, value: Seq<char>| #[trigger]
            list.contains((name, value)) ==> has_member(object_text(list), name, value),
{
    lemma_members_in_order(list);
    lemma_object_is_value(list);
}

/// An object whose members' names differ has each of them.
pub proof fn lemma_distinct_members(list: Seq<(Seq<char>, Seq<char>)>)
    requires
        are_readable(list),
        forall|i: int, j: int| 0 <= i < j < list.len() ==> (#[trigger] list[i]).0 != (#[trigger] list[j]).0,
    ensures
        forall|i: int|
            0 <= i < list.len() ==> has_member(
                object_text(list),
                (#[trigger] list[i]).0,
                list[i].1,
            ),
{
    assert(reads_as(object_text(list), list));
    assert forall|i: int| 0 <= i < list.len() implies has_member(
        object_text(list),
        (#[trigger] list[i]).0,
        list[i].1,
    ) by {
        assert(holds_at(object_text(list), list, i, list[i].0, list[i].1));
    }
}

/// A text that needs no escaping.
pub open spec fn is_unescaped(text: Seq<char>) -> bool {
    forall|i: int|
        0 <= i < text.len() ==> 32 <= (#[trigger] text[i]) as int && text[i] != '"' && text[i] != '\\'
}

proof fn lemma_nothing_escaped(text: Seq<char>)
    requires
        is_unescaped(text),
    ensures
        text.map_values(|c: char| escaped(c)).flatten() == text,
    decreases text.len(),
{
    let pieces = text.map_values(|c: char| escaped(c));
    reveal_with_fuel(Seq::flatten, 2);
    if text.len() == 0 {
        assert(pieces.flatten() =~= Seq::<char>::empty());
        assert(text =~= Seq::<char>::empty());
    } else {
        let rest = text.drop_first();
        assert(rest.map_values(|c: char| escaped(c)) =~= pieces.drop_first());
        assert(is_unescaped(rest)) by {
            assert forall|i: int| 0 <= i < rest.len() implies 32 <= (#[trigger] rest[i]) as int
                && rest[i] != '"' && rest[i] != '\\' by {
                assert(rest[i] == text[i + 1]);
            }
        }
        lemma_nothing_escaped(rest);
        assert(32 <= text[0] as int && text[0] != '"' && text[0] != '\\');
        assert(pieces.first() =~= seq![text[0]]);
        assert(pieces.flatten() =~= pieces.first() + pieces.drop_first().flatten());
        assert(text =~= seq![text[0]] + rest);
    }
}

/// A text that needs no escaping stands in quotation marks as it is.
pub proof fn lemma_unescaped(text: Seq<char>)
    requires
        is_unescaped(text),
    ensures
        json_string(text) == "\""@ + text + "\""@,
{
    reveal(json_string);
    reveal_strlit("\"");
    lemma_nothing_escaped(text);
    assert("\""@ =~= seq!['"']);
}

/// An identifier needs no escaping.
pub proof fn lemma_identifier_is_unescaped(value: u128)
    ensures
        is_unescaped(uuid_text(value)),
{
    reveal(uuid_text);
    let digits = hex(be128(value as nat));
    assert forall|i: int| 0 <= i < digits.len() implies 32 <= (#[trigger] digits[i]) as int
        && digits[i] != '"' && digits[i] != '\\' by {
    }
    let text = uuid_text(value);
    lemma_be128(value, Seq::empty());
    assert(digits.len() == 32);
    assert forall|i: int| 0 <= i < text.len() implies 32 <= (#[trigger] text[i]) as int && text[i]
        != '"' && text[i] != '\\' by {
        if i < 8 {
            assert(text[i] == digits[i]);
        } else if 8 < i < 13 {
            assert(text[i] == digits[i - 1]);
        } else if 13 < i < 18 {
            assert(text[i] == digits[i - 2]);
        } else if 18 < i < 23 {
            assert(text[i] == digits[i - 3]);
        } else if 23 < i {
            assert(text[i] == digits[i - 4]);
        } else {
            assert(text[i] == '-');
        }
    }
}

/// The first member of an object.
pub proof fn lemma_one_member(name: Seq<char>, value: Seq<char>)
    ensures
        members(seq![(name, value)]) == "\""@ + name + "\":"@ + value,
{
    let list = seq![(name, value)];
    assert(list.last() == (name, value));
    assert(members(list) =~= "\""@ + name + "\":"@ + value);
}

/// One more member of an object, behind the text of those before it.
pub proof fn lemma_next_member(
    list: Seq<(Seq<char>, Seq<char>)>,
    before: Seq<char>,
    mark: Seq<char>,
    name: Seq<char>,
    value: Seq<char>,
)
    requires
        list.len() > 0,
        before == "{"@ + members(list),
        mark == ","@ + "\""@ + name + "\":"@,
    ensures
        "{"@ + members(list.push((name, value))) == before + mark + value,
{
    assert(list.push((name, value)).drop_last() =~= list);
    assert("{"@ + members(list.push((name, value))) =~= before + mark + value);
}

/// An object is its members between braces, each with its name in quotation marks and a
/// colon behind it, and commas between them; an array is its values between brackets, with
/// commas between them.
pub proof fn law_objects_and_arrays_are_punctuated(
    a: Seq<char>,
    v: Seq<char>,
    b: Seq<char>,
    w: Seq<char>,
)
    ensures
        object_text(Seq::empty()) == "{}"@,
        object_text(seq![(a, v)]) == "{\""@ + a + "\":"@ + v + "}"@,
        object_text(seq![(a, v), (b, w)]) == "{\""@ + a + "\":"@ + v + ",\""@ + b + "\":"@ + w
            + "}"@,
        list_text(Seq::empty()) == "[]"@,
        list_text(seq![v]) == "["@ + v + "]"@,
        list_text(seq![v, w]) == "["@ + v + ","@ + w + "]"@,
{
    reveal_strlit("{}");
    reveal_strlit("{");
    reveal_strlit("}");
    reveal_strlit("[]");
    reveal_strlit("[");
    reveal_strlit("]");
    reveal_strlit("{\"");
    reveal_strlit("\"");
    reveal_strlit(",");
    reveal_strlit(",\"");
    assert(object_text(Seq::empty()) =~= "{}"@);
    assert(list_text(Seq::empty()) =~= "[]"@);
    lemma_one_member(a, v);
    let one = seq![(a, v)];
    assert(object_text(one) =~= "{\""@ + a + "\":"@ + v + "}"@);
    lemma_next_member(one, "{"@ + members(one), ","@ + "\""@ + b + "\":"@, b, w);
    assert(one.push((b, w)) =~= seq![(a, v), (b, w)]);
    assert(object_text(one.push((b, w))) =~= "{\""@ + a + "\":"@ + v + ",\""@ + b + "\":"@ + w
        + "}"@);
    let both = seq![v, w];
    assert(both.drop_last() =~= seq![v]);
    assert(values(seq![v]) == v);
    assert(values(both) == v + ","@ + w);
    assert(list_text(both) =~= "["@ + v + ","@ + w + "]"@);
}

} // verus!
