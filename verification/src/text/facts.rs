//! What can be counted on when texts and numbers are taken apart and put together.

use crate::encoding::{
    be32, be64, concatenated, contents, copy_of, law_splitting_undoes_joining, lemma_be64,
    lemma_split_fields, parse_length_prefixed, put_bytes, put_u32, put_u64, LengthPrefixed,
};
use crate::ids::{lemma_be128, Uuid};
use crate::json::reading::lemma_decimal_reads_back;
use crate::paths::{join, System};
use crate::text::{
    control, decimal, decimal_of, first_of, hex_of, is_white_space, join_words,
    lemma_words_of_spaced, parse_number, split_once, split_words, strip_prefix, texts, to_lower,
    trim, trim_end_matches, trimmed, white_space, without_trailing, is_word,
};
use vstd::prelude::*;
use vstd::utf8::encode_utf8;

verus! {

/// A text holds nothing but white space.
pub open spec fn is_all_white(text: Seq<char>) -> bool {
    forall|i: int| 0 <= i < text.len() ==> is_white_space(#[trigger] text[i])
}

proof fn lemma_trimmed(text: Seq<char>) -> (parts: (Seq<char>, Seq<char>))
    ensures
        text == parts.0 + trimmed(text) + parts.1,
        is_all_white(parts.0),
        is_all_white(parts.1),
        trimmed(text).len() > 0 ==> !is_white_space(trimmed(text)[0]) && !is_white_space(
            trimmed(text).last(),
        ),
    decreases text.len(),
{
    if text.len() > 0 && is_white_space(text[0]) {
        let (a, b) = lemma_trimmed(text.drop_first());
        let front = seq![text[0]] + a;
        let kept = trimmed(text.drop_first());
        assert(trimmed(text) == kept);
        assert(text =~= seq![text[0]] + text.drop_first());
        assert(seq![text[0]] + (a + kept + b) =~= front + kept + b);
        assert forall|i: int| 0 <= i < front.len() implies is_white_space(#[trigger] front[i]) by {
            if i > 0 {
                assert(front[i] == a[i - 1]);
            }
        }
        (front, b)
    } else if text.len() > 0 && is_white_space(text.last()) {
        let (a, b) = lemma_trimmed(text.drop_last());
        let back = b.push(text.last());
        let kept = trimmed(text.drop_last());
        assert(trimmed(text) == kept);
        assert(text =~= text.drop_last().push(text.last()));
        assert((a + kept + b).push(text.last()) =~= a + kept + back);
        assert forall|i: int| 0 <= i < back.len() implies is_white_space(#[trigger] back[i]) by {
            if i < b.len() {
                assert(back[i] == b[i]);
            }
        }
        (a, back)
    } else {
        assert(text =~= Seq::<char>::empty() + text + Seq::<char>::empty());
        (Seq::empty(), Seq::empty())
    }
}

/// Trimming takes white space from both ends of a text, all of it, and nothing else.
pub proof fn law_trimming_takes_white_space(text: &str, rest: String)
    requires
        call_ensures(trim, (text,), rest),
    ensures
        exists|a: Seq<char>, b: Seq<char>|
            #![trigger is_all_white(a), is_all_white(b)]
            text@ == a + rest@ + b && is_all_white(a) && is_all_white(b),
        rest@.len() > 0 ==> !is_white_space(rest@[0]) && !is_white_space(rest@.last()),
{
    let (a, b) = lemma_trimmed(text@);
    assert(text@ == a + rest@ + b && is_all_white(a) && is_all_white(b));
}

/// Spaces, tabs and line ends are white space, and what can be seen is not; control
/// characters are those below the space, and those from the deletion up to the next
/// printed one.
pub proof fn law_characters_are_classed(c: char, white: bool, controls: bool)
    requires
        call_ensures(white_space, (c,), white),
        call_ensures(control, (c,), controls),
    ensures
        c == ' ' || c == '\t' || c == '\n' || c == '\r' ==> white,
        '!' <= c <= '~' ==> !white && !controls,
        c == ' ' ==> !controls,
        controls <==> (c as u32) < 32 || 127 <= (c as u32) < 160,
{
}

/// Lower case changes the capital letters of ASCII, each to its own small letter, and
/// nothing else.
pub proof fn law_lower_case_changes_letters_only(text: &str, lower: String)
    requires
        call_ensures(to_lower, (text,), lower),
    ensures
        lower@.len() == text@.len(),
        forall|i: int|
            0 <= i < text@.len() ==> {
                let c = #[trigger] text@[i];
                &&& 'A' <= c <= 'Z' ==> lower@[i] as u32 == c as u32 + 32
                &&& !('A' <= c <= 'Z') ==> lower@[i] == c
            },
{
    assert forall|i: int| 0 <= i < text@.len() implies {
        let c = #[trigger] text@[i];
        &&& 'A' <= c <= 'Z' ==> lower@[i] as u32 == c as u32 + 32
        &&& !('A' <= c <= 'Z') ==> lower@[i] == c
    } by {
        assert(lower@[i] == crate::text::lower_char(text@[i]));
    }
}

proof fn lemma_without_trailing(text: Seq<char>, c: char) -> (taken: nat)
    ensures
        taken <= text.len(),
        without_trailing(text, c) == text.take(text.len() - taken),
        forall|i: int| text.len() - taken <= i < text.len() ==> text[i] == c,
        without_trailing(text, c).len() > 0 ==> without_trailing(text, c).last() != c,
    decreases text.len(),
{
    if text.len() > 0 && text.last() == c {
        let front = text.drop_last();
        let taken = lemma_without_trailing(front, c);
        assert(front.take(front.len() - taken) =~= text.take(text.len() - (taken + 1)));
        assert forall|i: int| text.len() - (taken + 1) <= i < text.len() implies text[i] == c by {
            if i < front.len() {
                assert(front[i] == text[i]);
            }
        }
        taken + 1
    } else {
        assert(text.take(text.len() as int) =~= text);
        0
    }
}

/// What is taken from the end of a text is that character, as often as it stands there.
pub proof fn law_ends_are_taken_off(text: &str, c: char, rest: String)
    requires
        call_ensures(trim_end_matches, (text, c), rest),
    ensures
        rest@.len() <= text@.len(),
        rest@ == text@.take(rest@.len() as int),
        forall|i: int| rest@.len() <= i < text@.len() ==> text@[i] == c,
        rest@.len() > 0 ==> rest@.last() != c,
{
    let taken = lemma_without_trailing(text@, c);
}

proof fn lemma_first_of_is_first(text: Seq<char>, c: char)
    ensures
        first_of(text, c) <= text.len(),
        first_of(text, c) < text.len() ==> text[first_of(text, c) as int] == c,
        forall|i: int| 0 <= i < first_of(text, c) ==> text[i] != c,
    decreases text.len(),
{
    if text.len() > 0 && text[0] != c {
        let rest = text.drop_first();
        lemma_first_of_is_first(rest, c);
        assert forall|i: int| 0 <= i < first_of(text, c) implies text[i] != c by {
            if i > 0 {
                assert(rest[i - 1] == text[i]);
            }
        }
    }
}

/// A text is taken apart at the first occurrence of the separator, which goes to neither
/// part; without one it stays whole.
pub proof fn law_texts_are_taken_apart_at_the_first(
    text: &str,
    separator: char,
    parts: Option<(String, String)>,
)
    requires
        call_ensures(split_once, (text, separator), parts),
    ensures
        parts is Some <==> text@.contains(separator),
        (parts matches Some((front, back)) ==> {
            &&& text@ == front@.push(separator) + back@
            &&& !front@.contains(separator)
        }),
{
    lemma_first_of_is_first(text@, separator);
    let at = first_of(text@, separator) as int;
    if at < text@.len() {
        assert(text@.contains(separator));
        assert(text@ =~= text@.take(at).push(separator) + text@.skip(at + 1));
        assert(!text@.take(at).contains(separator)) by {
            if text@.take(at).contains(separator) {
                let i = choose|i: int| 0 <= i < at && text@.take(at)[i] == separator;
                assert(text@[i] == separator);
            }
        }
    }
}

/// What follows a prefix is what the text is beyond it.
pub proof fn law_prefixes_are_taken_off(text: &str, prefix: &str, rest: Option<String>)
    requires
        call_ensures(strip_prefix, (text, prefix), rest),
    ensures
        rest is Some ==> text@ == prefix@ + (rest->0)@,
        (exists|back: Seq<char>| text@ == #[trigger] (prefix@ + back)) ==> rest is Some,
{
    if rest is Some {
        assert(text@ =~= prefix@ + (rest->0)@);
    }
    if exists|back: Seq<char>| text@ == #[trigger] (prefix@ + back) {
        let back = choose|back: Seq<char>| text@ == #[trigger] (prefix@ + back);
        assert(text@.take(prefix@.len() as int) =~= prefix@);
    }
}

/// A number is read as it was written, with or without a plus sign in front of it.
pub proof fn law_numbers_read_back(
    n: u64,
    text: String,
    plain: &str,
    signed: &str,
    read: Option<u64>,
    also: Option<u64>,
)
    requires
        call_ensures(decimal_of, (n,), text),
        plain@ == text@,
        signed@ == seq!['+'] + text@,
        call_ensures(parse_number, (plain,), read),
        call_ensures(parse_number, (signed,), also),
    ensures
        read == Some(n),
        also == Some(n),
        forall|i: int| 0 <= i < text@.len() ==> '0' <= #[trigger] text@[i] <= '9',
        text@.len() > 1 ==> text@[0] != '0',
{
    lemma_decimal_reads_back(n as nat);
    assert(signed@.skip(1) =~= text@);
    lemma_no_leading_zero(n as nat);
}

proof fn lemma_no_leading_zero(n: nat)
    ensures
        decimal(n).len() > 1 ==> decimal(n)[0] != '0',
        n > 0 ==> decimal(n)[0] != '0',
        decimal(n).len() > 0,
    decreases n,
{
    if n >= 10 {
        lemma_no_leading_zero(n / 10);
    }
}

/// The value of a hexadecimal digit.
pub open spec fn hex_value(c: char) -> int {
    if '0' <= c <= '9' {
        c as int - '0' as int
    } else {
        c as int - 'a' as int + 10
    }
}

/// Every byte is written as two digits, the high one first, in lower case.
pub proof fn law_bytes_are_written_in_hexadecimal(bytes: &[u8], text: String)
    requires
        call_ensures(hex_of, (bytes,), text),
    ensures
        text@.len() == 2 * bytes@.len(),
        forall|i: int|
            0 <= i < bytes@.len() ==> #[trigger] bytes@[i] == hex_value(text@[2 * i]) * 16
                + hex_value(text@[2 * i + 1]),
        forall|i: int|
            0 <= i < text@.len() ==> '0' <= #[trigger] text@[i] <= '9' || 'a' <= text@[i] <= 'f',
{
    assert forall|i: int| 0 <= i < bytes@.len() implies #[trigger] bytes@[i] == hex_value(
        text@[2 * i],
    ) * 16 + hex_value(text@[2 * i + 1]) by {
        assert((2 * i) / 2 == i && (2 * i) % 2 == 0);
        assert((2 * i + 1) / 2 == i && (2 * i + 1) % 2 == 1);
    }
    assert forall|i: int| 0 <= i < text@.len() implies '0' <= #[trigger] text@[i] <= '9' || 'a'
        <= text@[i] <= 'f' by {
        assert(0 <= i / 2 < bytes@.len());
    }
}

/// Words that are joined come apart into the same words.
pub proof fn law_joined_words_come_apart(
    words: Vec<String>,
    line: String,
    text: &str,
    again: Vec<String>,
)
    requires
        forall|i: int| 0 <= i < words@.len() ==> is_word((#[trigger] words@[i])@),
        call_ensures(join_words, (&words,), line),
        text@ == line@,
        call_ensures(split_words, (text,), again),
    ensures
        texts(again@) == texts(words@),
{
    let list = texts(words@);
    assert forall|i: int| 0 <= i < list.len() implies is_word(#[trigger] list[i]) by {
        assert(is_word(words@[i]@));
    }
    lemma_words_of_spaced(list);
}

/// A path goes on with a name behind exactly one separator, which is the system's own where
/// the directory does not end in one.
pub proof fn law_paths_go_on_behind_a_separator(
    dir: &str,
    name: &str,
    unix: String,
    windows: String,
)
    requires
        dir@.len() > 2,
        call_ensures(join, (System::Unix, dir, name), unix),
        call_ensures(join, (System::Windows, dir, name), windows),
    ensures
        dir@.last() == '/' ==> unix@ == dir@ + name@ && windows@ == dir@ + name@,
        dir@.last() != '/' ==> unix@ == dir@.push('/') + name@,
        dir@.last() == '\\' ==> windows@ == dir@ + name@,
        dir@.last() != '/' && dir@.last() != '\\' ==> windows@ == dir@.push('\\') + name@,
{
    reveal_strlit("/");
    reveal_strlit("\\");
    assert(dir@ + "/"@ + name@ =~= dir@.push('/') + name@);
    assert(dir@ + "\\"@ + name@ =~= dir@.push('\\') + name@);
}

/// Numbers go over the wire with their most significant byte first.
pub proof fn law_numbers_are_in_network_order(n: u32, m: u64)
    ensures
        forall|buf: &mut Vec<u8>| #[trigger]
            call_ensures(put_u32, (buf, n), ()) ==> {
                let at = buf@.len() as int;
                &&& final(buf)@.len() == at + 4
                &&& final(buf)@.take(at) == buf@
                &&& final(buf)@[at] as int * 0x100_0000 + final(buf)@[at + 1] as int * 0x1_0000
                    + final(buf)@[at + 2] as int * 0x100 + final(buf)@[at + 3] as int == n
            },
        forall|buf: &mut Vec<u8>| #[trigger]
            call_ensures(put_u64, (buf, m), ()) ==> {
                let at = buf@.len() as int;
                &&& final(buf)@.len() == at + 8
                &&& final(buf)@.take(at) == buf@
                &&& (final(buf)@[at] as int * 0x100_0000 + final(buf)@[at + 1] as int * 0x1_0000
                    + final(buf)@[at + 2] as int * 0x100 + final(buf)@[at + 3] as int)
                    * 0x1_0000_0000 + (final(buf)@[at + 4] as int * 0x100_0000 + final(
                    buf)@[at + 5] as int * 0x1_0000 + final(buf)@[at + 6] as int * 0x100 + final(
                    buf)@[at + 7] as int) == m
            },
{
    lemma_be32_digits(n as nat);
    let high = m as nat / 0x1_0000_0000;
    let low = m as nat % 0x1_0000_0000;
    lemma_be32_digits(high);
    lemma_be32_digits(low);
    assert forall|buf: &mut Vec<u8>| #[trigger] call_ensures(put_u32, (buf, n), ()) implies final(
        buf)@.take(buf@.len() as int) == buf@ by {
        assert(final(buf)@.take(buf@.len() as int) =~= buf@);
    }
    assert forall|buf: &mut Vec<u8>| #[trigger] call_ensures(put_u64, (buf, m), ()) implies ({
        let at = buf@.len() as int;
        &&& final(buf)@.take(at) == buf@
        &&& forall|i: int| 0 <= i < 4 ==> #[trigger] be32(high)[i] == final(buf)@[at + i]
        &&& forall|i: int| 0 <= i < 4 ==> #[trigger] be32(low)[i] == final(buf)@[at + 4 + i]
    }) by {
        assert(final(buf)@.take(buf@.len() as int) =~= buf@);
        let both = be64(m as nat);
        assert(both =~= be32(high) + be32(low));
    }
}

proof fn lemma_be32_digits(n: nat)
    requires
        n < 0x1_0000_0000,
    ensures
        be32(n).len() == 4,
        be32(n)[0] as int * 0x100_0000 + be32(n)[1] as int * 0x1_0000 + be32(n)[2] as int * 0x100
            + be32(n)[3] as int == n,
{
    crate::encoding::lemma_be32(n, Seq::empty());
    reveal(crate::encoding::be32);
    reveal(crate::encoding::be32_value);
}

/// An identifier reads back from its bytes and from its text.
pub proof fn law_identifiers_read_back(
    id: Uuid,
    bytes: Vec<u8>,
    wire: &[u8],
    at: usize,
    read: Uuid,
    text: String,
    words: &str,
    parsed: Option<Uuid>,
)
    requires
        call_ensures(Uuid::as_bytes, (&id,), bytes),
        at + 16 <= wire@.len(),
        wire@.subrange(at as int, at + 16) == bytes@,
        call_ensures(Uuid::from_bytes_at, (wire, at), read),
        call_ensures(Uuid::to_text, (&id,), text),
        words@ == text@,
        call_ensures(Uuid::parse_str, (words,), parsed),
    ensures
        bytes@.len() == 16,
        read == id,
        parsed == Some(id),
{
    lemma_be128(id.value, bytes@);
}

/// What is copied out of bytes is what stands there, and what is put behind them follows
/// them.
pub proof fn law_bytes_are_copied(bytes: &[u8], from: usize, to: usize, copy: Vec<u8>)
    requires
        from <= to <= bytes@.len(),
        call_ensures(copy_of, (bytes, from, to), copy),
    ensures
        copy@.len() == to - from,
        forall|i: int| 0 <= i < copy@.len() ==> #[trigger] copy@[i] == bytes@[from + i],
        forall|buf: &mut Vec<u8>| #[trigger]
            call_ensures(put_bytes, (buf, bytes), ()) ==> final(buf)@ == buf@ + bytes@,
{
}

/// Fields that are joined come apart into the same fields.
pub proof fn law_joined_fields_come_apart(
    one: &[u8],
    two: &str,
    three: u64,
    start: LengthPrefixed,
    first: LengthPrefixed,
    second: LengthPrefixed,
    third: LengthPrefixed,
    bytes: Vec<u8>,
    wire: &[u8],
    parsed: Option<Vec<Vec<u8>>>,
)
    requires
        one@.len() < 0x1_0000_0000,
        encode_utf8(two@).len() < 0x1_0000_0000,
        call_ensures(LengthPrefixed::new, (), start),
        call_ensures(LengthPrefixed::field, (start, one), first),
        call_ensures(LengthPrefixed::field_str, (first, two), second),
        call_ensures(LengthPrefixed::field_u64, (second, three), third),
        call_ensures(LengthPrefixed::finish, (third,), bytes),
        wire@ == bytes@,
        call_ensures(parse_length_prefixed, (wire,), parsed),
    ensures
        parsed matches Some(fields) && fields@.len() == 3 && fields@[0]@ == one@ && fields@[1]@
            == encode_utf8(two@) && fields@[2]@ == be64(three as nat),
{
    lemma_be64(three as nat, Seq::empty());
    let none = Seq::<Seq<u8>>::empty();
    let fields = seq![one@, encode_utf8(two@), be64(three as nat)];
    assert(none.push(one@).push(encode_utf8(two@)).push(be64(three as nat)) =~= fields);
    assert(third@ == concatenated(none.push(one@).push(encode_utf8(two@)).push(be64(three as nat))));
    law_splitting_undoes_joining(fields, fields);
    lemma_split_fields(wire@, fields);
    if let Some(list) = parsed {
        assert(contents(list@) == fields);
        assert(contents(list@).len() == list@.len());
        assert(contents(list@)[0] == list@[0]@);
        assert(contents(list@)[1] == list@[1]@);
        assert(contents(list@)[2] == list@[2]@);
    }
}

/// A field stands behind its length, which takes four bytes.
pub proof fn law_fields_stand_behind_their_length(
    bytes: &[u8],
    start: LengthPrefixed,
    longer: LengthPrefixed,
)
    requires
        bytes@.len() < 0x1_0000_0000,
        call_ensures(LengthPrefixed::new, (), start),
        call_ensures(LengthPrefixed::field, (start, bytes), longer),
    ensures
        start@.len() == 0,
        longer@.len() == 4 + bytes@.len(),
        longer@.take(4) == be32(bytes@.len()),
        longer@.skip(4) == bytes@,
{
    crate::encoding::lemma_be32(bytes@.len(), Seq::empty());
    assert(longer@.take(4) =~= be32(bytes@.len()));
    assert(longer@.skip(4) =~= bytes@);
}

} // verus!
