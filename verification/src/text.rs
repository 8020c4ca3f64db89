//! Strings as sequences of characters: comparison, searching and number formatting.

use vstd::prelude::*;
use vstd::utf8::*;

pub mod facts;

verus! {

/// `String::push` appends one character to the end of the string.
pub assume_specification[ String::push ](string: &mut String, ch: char)
    ensures
        final(string)@ == old(string)@.push(ch),
;

/// Two strings are the same if and only if their encodings are.
pub proof fn lemma_same_bytes(a: Seq<char>, b: Seq<char>)
    ensures
        encode_utf8(a) == encode_utf8(b) <==> a == b,
{
    encode_utf8_decode_utf8(a);
    encode_utf8_decode_utf8(b);
}

/// Whether two byte strings are equal.
pub fn same_bytes(a: &[u8], b: &[u8]) -> (same: bool)
    ensures
        same == (a@ == b@),
{
    if a.len() != b.len() {
        return false;
    }
    let mut index: usize = 0;
    while index < a.len()
        invariant
            index <= a@.len() == b@.len(),
            forall|i: int| 0 <= i < index ==> a@[i] == b@[i],
        decreases a@.len() - index,
    {
        if a[index] != b[index] {
            return false;
        }
        index = index + 1;
    }
    assert(a@ =~= b@);
    true
}

/// Whether two strings hold the same characters.
pub fn same(a: &str, b: &str) -> (same: bool)
    ensures
        same == (a@ == b@),
{
    proof {
        lemma_same_bytes(a@, b@);
    }
    same_bytes(a.as_bytes(), b.as_bytes())
}

/// The characters of a string, in order.
pub fn characters(text: &str) -> (list: Vec<char>)
    ensures
        list@ == text@,
{
    let mut list: Vec<char> = Vec::new();
    for c in iter: text.chars()
        invariant
            list@.len() == iter.index(),
            iter.seq() == text@,
            forall|i: int| 0 <= i < list@.len() ==> list@[i] == text@[i],
    {
        list.push(c);
    }
    assert(list@ =~= text@);
    list
}

/// The string made of `list[from..to]`.
pub fn string_of(list: &Vec<char>, from: usize, to: usize) -> (text: String)
    requires
        from <= to <= list@.len(),
    ensures
        text@ == list@.subrange(from as int, to as int),
{
    let mut text = String::new();
    let mut index: usize = from;
    while index < to
        invariant
            from <= index <= to <= list@.len(),
            text@ =~= list@.subrange(from as int, index as int),
        decreases to - index,
    {
        text.push(list[index]);
        index = index + 1;
    }
    text
}

/// A copy of a string slice.
pub fn owned(text: &str) -> (copy: String)
    ensures
        copy@ == text@,
{
    text.to_owned()
}

/// `String::from_utf8`: the text that the bytes encode, if they are valid UTF-8.
#[verifier::external_body]
pub(crate) fn utf8_text(bytes: Vec<u8>) -> (text: Option<String>)
    ensures
        text is Some <==> valid_utf8(bytes@),
        text is Some ==> text->0@ == decode_utf8(bytes@),
{
    String::from_utf8(bytes).ok()
}

/// What becomes of bytes that are not valid UTF-8 when they are read as text anyway.
pub uninterp spec fn replaced_text(bytes: Seq<u8>) -> Seq<char>;

/// Bytes read as text, whatever they are.
pub open spec fn lossy_text(bytes: Seq<u8>) -> Seq<char> {
    if valid_utf8(bytes) {
        decode_utf8(bytes)
    } else {
        replaced_text(bytes)
    }
}

/// `String::from_utf8_lossy`: valid UTF-8 is read as the text it encodes, and anything
/// else with replacement characters in it.
///
/// The text is a function of the bytes alone. Where the replacement characters come is
/// not stated.
#[verifier::external_body]
pub(crate) fn lossy(bytes: &[u8]) -> (text: String)
    ensures
        text@ == (if valid_utf8(bytes@) {
            decode_utf8(bytes@)
        } else {
            replaced_text(bytes@)
        }),
{
    String::from_utf8_lossy(bytes).to_string()
}

/// The texts that a list of strings holds.
pub open spec fn texts(list: Seq<String>) -> Seq<Seq<char>> {
    Seq::new(list.len(), |i: int| list[i]@)
}

/// An optional value, by the view of what it may hold.
pub open spec fn option_view<T: View>(option: Option<T>) -> Option<T::V> {
    match option {
        Some(value) => Some(value@),
        None => None,
    }
}

/// A copy of an optional string.
pub fn copy_option(option: &Option<String>) -> (copy: Option<String>)
    ensures
        option_view(copy) == option_view(*option),
{
    match option {
        Some(text) => Some(text.as_str().to_owned()),
        None => None,
    }
}

/// The lower-case hexadecimal digit of a number below sixteen.
pub open spec fn hex_digit(n: int) -> char
    recommends
        0 <= n < 16,
{
    if n < 10 {
        (48 + n) as char
    } else {
        (87 + n) as char
    }
}

/// The two hexadecimal digits of every byte.
pub open spec fn hex(bytes: Seq<u8>) -> Seq<char> {
    Seq::new(
        bytes.len() * 2,
        |i: int|
            if i % 2 == 0 {
                hex_digit(bytes[i / 2] as int / 16)
            } else {
                hex_digit(bytes[i / 2] as int % 16)
            },
    )
}

/// Writes a hexadecimal digit.
fn hex_digit_of(n: u8) -> (c: char)
    requires
        n < 16,
    ensures
        c == hex_digit(n as int),
{
    if n < 10 {
        (48 + n) as char
    } else {
        (87 + n) as char
    }
}

/// Writes bytes in hexadecimal.
pub fn hex_of(bytes: &[u8]) -> (text: String)
    ensures
        text@ == hex(bytes@),
{
    let mut text = String::new();
    let mut index: usize = 0;
    while index < bytes.len()
        invariant
            index <= bytes@.len(),
            text@ =~= hex(bytes@.subrange(0, index as int)),
        decreases bytes@.len() - index,
    {
        let ghost before = text@;
        text.push(hex_digit_of(bytes[index] / 16));
        text.push(hex_digit_of(bytes[index] % 16));
        index = index + 1;
        proof {
            let next = hex(bytes@.subrange(0, index as int));
            assert(next.len() == before.len() + 2);
            assert forall|i: int| 0 <= i < next.len() implies text@[i] == next[i] by {
                if i < before.len() {
                    assert(before[i] == hex(bytes@.subrange(0, index - 1))[i]);
                    assert(i / 2 < index - 1);
                } else {
                    assert(i / 2 == index - 1);
                }
            }
        }
    }
    assert(bytes@.subrange(0, index as int) =~= bytes@);
    text
}

/// Whether a list of strings holds a text.
pub fn holds(list: &[String], text: &str) -> (found: bool)
    ensures
        found == texts(list@).contains(text@),
{
    let mut index: usize = 0;
    while index < list.len()
        invariant
            index <= list@.len(),
            forall|i: int| 0 <= i < index ==> texts(list@)[i] != text@,
        decreases list@.len() - index,
    {
        if same(list[index].as_str(), text) {
            assert(texts(list@)[index as int] == text@);
            return true;
        }
        index = index + 1;
    }
    false
}

/// A copy of a list of strings.
pub fn copy_texts(list: &[String]) -> (copy: Vec<String>)
    ensures
        texts(copy@) == texts(list@),
{
    let mut copy: Vec<String> = Vec::new();
    let mut index: usize = 0;
    while index < list.len()
        invariant
            index <= list@.len(),
            copy@.len() == index,
            forall|i: int| 0 <= i < index ==> (#[trigger] copy@[i])@ == list@[i]@,
        decreases list@.len() - index,
    {
        copy.push(list[index].as_str().to_owned());
        index = index + 1;
    }
    assert(texts(copy@) =~= texts(list@));
    copy
}

/// The characters that Unicode calls white space.
pub open spec fn is_white_space(c: char) -> bool {
    ||| '\u{9}' <= c <= '\u{d}'
    ||| c == ' '
    ||| c == '\u{85}'
    ||| c == '\u{a0}'
    ||| c == '\u{1680}'
    ||| '\u{2000}' <= c <= '\u{200a}'
    ||| c == '\u{2028}'
    ||| c == '\u{2029}'
    ||| c == '\u{202f}'
    ||| c == '\u{205f}'
    ||| c == '\u{3000}'
}

/// Whether Unicode calls a character white space.
pub fn white_space(c: char) -> (white: bool)
    ensures
        white == is_white_space(c),
{
    ('\u{9}' <= c && c <= '\u{d}') || c == ' ' || c == '\u{85}' || c == '\u{a0}' || c == '\u{1680}'
        || ('\u{2000}' <= c && c <= '\u{200a}') || c == '\u{2028}' || c == '\u{2029}' || c
        == '\u{202f}' || c == '\u{205f}' || c == '\u{3000}'
}

/// The characters that Unicode calls control characters.
pub open spec fn is_control(c: char) -> bool {
    c <= '\u{1f}' || '\u{7f}' <= c <= '\u{9f}'
}

/// Whether Unicode calls a character a control character.
pub fn control(c: char) -> (control: bool)
    ensures
        control == is_control(c),
{
    c <= '\u{1f}' || ('\u{7f}' <= c && c <= '\u{9f}')
}

/// A text without the white space at either end.
pub open spec fn trimmed(text: Seq<char>) -> Seq<char>
    decreases text.len(),
{
    if text.len() > 0 && is_white_space(text[0]) {
        trimmed(text.drop_first())
    } else if text.len() > 0 && is_white_space(text.last()) {
        trimmed(text.drop_last())
    } else {
        text
    }
}

/// A copy of `text` without the white space at either end.
pub fn trim(text: &str) -> (rest: String)
    ensures
        rest@ == trimmed(text@),
{
    let list = characters(text);
    let mut from: usize = 0;
    let mut to: usize = list.len();
    assert(list@.subrange(0, list@.len() as int) =~= list@);
    while from < to && white_space(list[from])
        invariant
            from <= to == list@.len(),
            list@ == text@,
            trimmed(text@) == trimmed(list@.subrange(from as int, to as int)),
        ensures
            from <= to == list@.len(),
            from < to ==> !is_white_space(list@[from as int]),
            trimmed(text@) == trimmed(list@.subrange(from as int, to as int)),
        decreases to - from,
    {
        assert(list@.subrange(from as int, to as int).drop_first() =~= list@.subrange(
            from + 1,
            to as int,
        ));
        from = from + 1;
    }
    while from < to && white_space(list[to - 1])
        invariant
            from <= to <= list@.len(),
            from < to ==> !is_white_space(list@[from as int]),
            trimmed(text@) == trimmed(list@.subrange(from as int, to as int)),
        ensures
            from <= to <= list@.len(),
            from < to ==> !is_white_space(list@[from as int]),
            from < to ==> !is_white_space(list@[to - 1]),
            trimmed(text@) == trimmed(list@.subrange(from as int, to as int)),
        decreases to - from,
    {
        assert(list@.subrange(from as int, to as int).drop_last() =~= list@.subrange(
            from as int,
            to - 1,
        ));
        to = to - 1;
    }
    string_of(&list, from, to)
}

/// A text without the occurrences of a character at its end.
pub open spec fn without_trailing(text: Seq<char>, c: char) -> Seq<char>
    decreases text.len(),
{
    if text.len() > 0 && text.last() == c {
        without_trailing(text.drop_last(), c)
    } else {
        text
    }
}

/// A copy of `text` without the occurrences of `c` at its end.
pub fn trim_end_matches(text: &str, c: char) -> (rest: String)
    ensures
        rest@ == without_trailing(text@, c),
{
    let list = characters(text);
    let mut to: usize = list.len();
    assert(list@.take(to as int) =~= list@);
    while to > 0 && list[to - 1] == c
        invariant
            to <= list@.len(),
            without_trailing(text@, c) == without_trailing(list@.take(to as int), c),
        ensures
            to <= list@.len(),
            to > 0 ==> list@[to - 1] != c,
            without_trailing(text@, c) == without_trailing(list@.take(to as int), c),
        decreases to,
    {
        assert(list@.take(to as int).drop_last() =~= list@.take(to - 1));
        to = to - 1;
    }
    let rest = string_of(&list, 0, to);
    assert(rest@ =~= list@.take(to as int));
    rest
}

/// A text without the occurrences of a character at its start.
pub open spec fn without_leading(text: Seq<char>, c: char) -> Seq<char>
    decreases text.len(),
{
    if text.len() > 0 && text[0] == c {
        without_leading(text.drop_first(), c)
    } else {
        text
    }
}

/// A copy of `text` without the occurrences of `c` at its start.
pub fn trim_start_matches(text: &str, c: char) -> (rest: String)
    ensures
        rest@ == without_leading(text@, c),
{
    let list = characters(text);
    let mut from: usize = 0;
    assert(list@.skip(0) =~= list@);
    while from < list.len() && list[from] == c
        invariant
            from <= list@.len(),
            without_leading(text@, c) == without_leading(list@.skip(from as int), c),
        ensures
            from <= list@.len(),
            from < list@.len() ==> list@[from as int] != c,
            without_leading(text@, c) == without_leading(list@.skip(from as int), c),
        decreases list@.len() - from,
    {
        assert(list@.skip(from as int).drop_first() =~= list@.skip(from + 1));
        from = from + 1;
    }
    let rest = string_of(&list, from, list.len());
    assert(rest@ =~= list@.skip(from as int));
    rest
}

/// A string in quotation marks with its special characters escaped.
pub uninterp spec fn quoted_text(text: Seq<char>) -> Seq<char>;

/// The `Debug` form of `str`, through `format!`: the string in quotation marks, with its
/// special characters escaped.
///
/// The result is a function of the text alone. How each character is escaped is not
/// stated.
#[verifier::external_body]
pub(crate) fn quoted(text: &str) -> (form: String)
    ensures
        form@ == quoted_text(text@),
{
    format!("{text:?}")
}

/// A character with `A` to `Z` made lower case, and every other kept.
pub open spec fn lower_char(c: char) -> char {
    if 'A' <= c <= 'Z' {
        (c as u32 + 32) as char
    } else {
        c
    }
}

/// A text with its ASCII letters made lower case.
pub open spec fn lowered(text: Seq<char>) -> Seq<char> {
    text.map_values(|c: char| lower_char(c))
}

/// A copy of `text` with its ASCII letters made lower case.
pub fn to_lower(text: &str) -> (lower: String)
    ensures
        lower@ == lowered(text@),
{
    let list = characters(text);
    let mut lower = String::new();
    let mut index: usize = 0;
    while index < list.len()
        invariant
            index <= list@.len(),
            lower@ =~= lowered(list@.subrange(0, index as int)),
        decreases list@.len() - index,
    {
        let c: char = list[index];
        let small: char = if 'A' <= c && c <= 'Z' {
            let code: u8 = c as u8;
            (code + 32) as char
        } else {
            c
        };
        assert(small == lower_char(c));
        lower.push(small);
        index = index + 1;
    }
    assert(list@.subrange(0, index as int) =~= list@);
    lower
}

/// Where a character first occurs, or the length of the text.
pub open spec fn first_of(text: Seq<char>, c: char) -> nat
    decreases text.len(),
{
    if text.len() == 0 || text[0] == c {
        0
    } else {
        1 + first_of(text.drop_first(), c)
    }
}

/// The pieces of a text between the occurrences of a separator.
pub open spec fn split_on(text: Seq<char>, separator: char) -> Seq<Seq<char>>
    decreases text.len(),
{
    let at = first_of(text, separator) as int;
    if at >= text.len() {
        seq![text]
    } else {
        seq![text.take(at)] + split_on(text.skip(at + 1), separator)
    }
}

/// A character first occurs where it occurs and nothing before it does.
pub proof fn lemma_first_of(text: Seq<char>, c: char, at: int)
    requires
        0 <= at <= text.len(),
        at < text.len() ==> text[at] == c,
        forall|i: int| 0 <= i < at ==> text[i] != c,
    ensures
        first_of(text, c) == at,
    decreases text.len(),
{
    if text.len() > 0 && text[0] != c {
        lemma_first_of(text.drop_first(), c, at - 1);
    }
}

/// A character first occurs inside the text, or nowhere in it.
pub proof fn lemma_first_of_bound(text: Seq<char>, c: char)
    ensures
        first_of(text, c) <= text.len(),
        first_of(text, c) < text.len() ==> text[first_of(text, c) as int] == c,
        forall|i: int| 0 <= i < first_of(text, c) ==> text[i] != c,
    decreases text.len(),
{
    if text.len() > 0 && text[0] != c {
        let rest = text.drop_first();
        lemma_first_of_bound(rest, c);
        assert forall|i: int| 0 <= i < first_of(text, c) implies text[i] != c by {
            if i > 0 {
                assert(rest[i - 1] == text[i]);
            }
        }
    }
}

/// Takes `text` apart at every occurrence of `separator`.
pub fn split(text: &str, separator: char) -> (pieces: Vec<String>)
    ensures
        texts(pieces@) == split_on(text@, separator),
        pieces@.len() >= 1,
{
    let list = characters(text);
    let mut pieces: Vec<String> = Vec::new();
    let mut start: usize = 0;
    let mut index: usize = 0;
    assert(list@.skip(0) =~= list@);
    assert(texts(pieces@) + split_on(text@, separator) =~= split_on(text@, separator));
    while index < list.len()
        invariant
            start <= index <= list@.len(),
            list@ == text@,
            forall|i: int| start <= i < index ==> list@[i] != separator,
            texts(pieces@) + split_on(list@.skip(start as int), separator) == split_on(
                text@,
                separator,
            ),
        decreases list@.len() - index,
    {
        if list[index] == separator {
            let ghost before = texts(pieces@);
            let ghost rest = list@.skip(start as int);
            let piece = string_of(&list, start, index);
            proof {
                lemma_first_of(rest, separator, index - start);
                assert(rest.take(index - start) =~= piece@);
                assert(rest.skip(index - start + 1) =~= list@.skip(index + 1));
            }
            pieces.push(piece);
            start = index + 1;
            assert(texts(pieces@) =~= before.push(piece@));
            assert(before.push(piece@) + split_on(list@.skip(start as int), separator) =~= before + (
            seq![piece@] + split_on(list@.skip(start as int), separator)));
        }
        index = index + 1;
    }
    let ghost before = texts(pieces@);
    let piece = string_of(&list, start, index);
    proof {
        let rest = list@.skip(start as int);
        lemma_first_of(rest, separator, rest.len() as int);
        assert(rest =~= piece@);
    }
    pieces.push(piece);
    assert(texts(pieces@) =~= before + seq![piece@]);
    pieces
}

/// Splitting in front of and behind one separator: a piece without separators in it,
/// one separator, and whatever follows.
pub proof fn lemma_split_on(piece: Seq<char>, separator: char, rest: Seq<char>)
    requires
        !piece.contains(separator),
    ensures
        split_on(piece, separator) == seq![piece],
        split_on(piece.push(separator) + rest, separator) == seq![piece] + split_on(
            rest,
            separator,
        ),
{
    lemma_first_of(piece, separator, piece.len() as int);
    let whole = piece.push(separator) + rest;
    lemma_first_of(whole, separator, piece.len() as int);
    assert(whole.take(piece.len() as int) =~= piece);
    assert(whole.skip(piece.len() as int + 1) =~= rest);
}

/// `text` begins with `prefix`.
pub open spec fn begins_with(text: Seq<char>, prefix: Seq<char>) -> bool {
    prefix.len() <= text.len() && text.take(prefix.len() as int) == prefix
}

/// What follows `prefix` in `text`, if `text` begins with it.
pub fn strip_prefix(text: &str, prefix: &str) -> (rest: Option<String>)
    ensures
        rest is Some <==> begins_with(text@, prefix@),
        rest is Some ==> rest->0@ == text@.skip(prefix@.len() as int),
{
    let list = characters(text);
    let head = characters(prefix);
    if list.len() < head.len() {
        return None;
    }
    let mut index: usize = 0;
    while index < head.len()
        invariant
            index <= head@.len() <= list@.len(),
            list@ == text@,
            head@ == prefix@,
            forall|i: int| 0 <= i < index ==> list@[i] == head@[i],
        decreases head@.len() - index,
    {
        if list[index] != head[index] {
            assert(text@.take(prefix@.len() as int)[index as int] != prefix@[index as int]);
            return None;
        }
        index = index + 1;
    }
    assert(text@.take(prefix@.len() as int) =~= prefix@);
    let rest = string_of(&list, head.len(), list.len());
    assert(rest@ =~= text@.skip(prefix@.len() as int));
    Some(rest)
}

/// The decimal digit of a number below ten.
pub open spec fn digit(n: int) -> char
    recommends
        0 <= n < 10,
{
    (48 + n) as char
}

/// The decimal form of a number, without leading zeros.
pub open spec fn decimal(n: nat) -> Seq<char>
    decreases n,
{
    if n < 10 {
        seq![digit(n as int)]
    } else {
        decimal(n / 10).push(digit((n % 10) as int))
    }
}

/// Writes `n` in decimal.
pub fn decimal_of(n: u64) -> (text: String)
    ensures
        text@ == decimal(n as nat),
{
    wide_decimal_of(n as u128)
}

/// Writes `n` in decimal.
pub fn wide_decimal_of(n: u128) -> (text: String)
    ensures
        text@ == decimal(n as nat),
    decreases n,
{
    let last: u8 = (n % 10) as u8;
    let c: char = (48 + last) as char;
    if n < 10 {
        let mut text = String::new();
        text.push(c);
        assert(text@ =~= seq![digit(n as int)]);
        text
    } else {
        let mut text = wide_decimal_of(n / 10);
        text.push(c);
        text
    }
}

/// The decimal form of a number that may be negative.
pub open spec fn signed_decimal(n: int) -> Seq<char> {
    if n < 0 {
        "-"@ + decimal((-n) as nat)
    } else {
        decimal(n as nat)
    }
}

/// Writes `n` in decimal, with a sign if it is negative.
pub fn signed_of(n: i128) -> (text: String)
    requires
        n > i128::MIN,
    ensures
        text@ == signed_decimal(n as int),
{
    if n < 0 {
        let digits = wide_decimal_of((-n) as u128);
        "-".to_owned().concat(digits.as_str())
    } else {
        wide_decimal_of(n as u128)
    }
}

/// Some words with spaces between them.
pub open spec fn spaced(words: Seq<Seq<char>>) -> Seq<char>
    decreases words.len(),
{
    if words.len() == 0 {
        Seq::empty()
    } else if words.len() == 1 {
        words[0]
    } else {
        spaced(words.drop_last()) + " "@ + words.last()
    }
}

/// Some words with spaces between them.
pub fn join_words(words: &Vec<String>) -> (line: String)
    ensures
        line@ == spaced(texts(words@)),
{
    let mut line = String::new();
    let mut index: usize = 0;
    assert(texts(words@).take(0) =~= Seq::empty());
    while index < words.len()
        invariant
            index <= words@.len(),
            line@ == spaced(texts(words@).take(index as int)),
        decreases words@.len() - index,
    {
        proof {
            let longer = texts(words@).take(index + 1);
            assert(longer.drop_last() =~= texts(words@).take(index as int));
            assert(longer.last() == words@[index as int]@);
        }
        if index == 0 {
            line = words[index].as_str().to_owned();
        } else {
            line = line.concat(" ").concat(words[index].as_str());
        }
        index = index + 1;
    }
    assert(texts(words@).take(index as int) =~= texts(words@));
    line
}

/// The words of a text: its longest pieces without white space.
pub open spec fn words_of(text: Seq<char>) -> Seq<Seq<char>>
    decreases text.len(),
{
    if text.len() == 0 {
        Seq::empty()
    } else if is_white_space(text.last()) {
        words_of(text.drop_last())
    } else {
        let start = word_start(text);
        if start < text.len() {
            words_of(text.take(start as int)).push(text.skip(start as int))
        } else {
            Seq::empty()
        }
    }
}

/// Where the last word of a text that does not end in white space begins.
pub open spec fn word_start(text: Seq<char>) -> nat
    decreases text.len(),
{
    if text.len() == 0 || is_white_space(text.last()) {
        text.len()
    } else {
        word_start(text.drop_last())
    }
}

/// A word that holds no white space and something else.
pub open spec fn is_word(word: Seq<char>) -> bool {
    word.len() > 0 && forall|i: int| 0 <= i < word.len() ==> !is_white_space(#[trigger] word[i])
}

/// Where the last word begins, by what surrounds it.
pub proof fn lemma_word_start(text: Seq<char>, start: int)
    requires
        0 <= start <= text.len(),
        forall|i: int| start <= i < text.len() ==> !is_white_space(#[trigger] text[i]),
        start > 0 ==> is_white_space(text[start - 1]),
    ensures
        word_start(text) == start,
    decreases text.len(),
{
    if text.len() > start {
        lemma_word_start(text.drop_last(), start);
    }
}

/// The words of a text followed by a space and a word.
proof fn lemma_words_push(text: Seq<char>, word: Seq<char>)
    requires
        is_word(word),
    ensures
        words_of(word) == seq![word],
        words_of(text + " "@ + word) == words_of(text).push(word),
{
    reveal_strlit(" ");
    lemma_word_start(word, 0);
    assert(word.take(0) =~= Seq::empty());
    assert(word.skip(0) =~= word);
    assert(!is_white_space(word[word.len() - 1]));
    assert(words_of(word.take(0)) =~= Seq::empty());
    assert(words_of(word) =~= seq![word]);
    let whole = text + " "@ + word;
    let start = text.len() as int + 1;
    assert(whole[start - 1] == ' ');
    assert forall|i: int| start <= i < whole.len() implies !is_white_space(#[trigger] whole[i]) by {
        assert(whole[i] == word[i - start]);
    }
    assert(whole.last() == word.last());
    lemma_word_start(whole, start);
    assert(whole.take(start) =~= text + " "@);
    assert(whole.skip(start) =~= word);
    assert((text + " "@).last() == ' ');
    assert((text + " "@).drop_last() =~= text);
    assert(words_of(text + " "@) == words_of(text));
}

/// Words that are put together with spaces come apart again as they were.
pub proof fn lemma_words_of_spaced(words: Seq<Seq<char>>)
    requires
        forall|i: int| 0 <= i < words.len() ==> is_word(#[trigger] words[i]),
    ensures
        words_of(spaced(words)) == words,
    decreases words.len(),
{
    if words.len() == 0 {
        assert(words_of(spaced(words)) =~= words);
    } else {
        let before = words.drop_last();
        assert forall|i: int| 0 <= i < before.len() implies is_word(#[trigger] before[i]) by {
            assert(before[i] == words[i]);
        }
        lemma_words_of_spaced(before);
        lemma_words_push(spaced(before), words.last());
        if words.len() == 1 {
            assert(words =~= seq![words[0]]);
        } else {
            assert(before.push(words.last()) =~= words);
        }
    }
}

/// Takes a text apart into its words.
pub fn split_words(text: &str) -> (words: Vec<String>)
    ensures
        texts(words@) == words_of(text@),
{
    let list = characters(text);
    let mut words: Vec<String> = Vec::new();
    let mut start: usize = 0;
    let mut index: usize = 0;
    assert(list@.take(0) =~= Seq::empty());
    assert(texts(words@) =~= words_of(list@.take(0)));
    while index < list.len()
        invariant
            start <= index <= list@.len(),
            forall|i: int| start <= i < index ==> !is_white_space(#[trigger] list@[i]),
            start > 0 ==> is_white_space(list@[start - 1]),
            texts(words@) == words_of(list@.take(start as int)),
        decreases list@.len() - index,
    {
        if white_space(list[index]) {
            let ghost before = texts(words@);
            let ghost upto = list@.take(index as int);
            if start < index {
                let word = string_of(&list, start, index);
                words.push(word);
                proof {
                    lemma_word_start(upto, start as int);
                    assert(upto.take(start as int) =~= list@.take(start as int));
                    assert(upto.skip(start as int) =~= word@);
                    assert(upto.last() == list@[index - 1]);
                    assert(words_of(upto) == before.push(word@));
                    assert(texts(words@) =~= before.push(word@));
                }
            } else {
                assert(upto =~= list@.take(start as int));
            }
            proof {
                assert(list@.take(index + 1).drop_last() =~= upto);
                assert(list@.take(index + 1).last() == list@[index as int]);
            }
            start = index + 1;
        }
        index = index + 1;
    }
    assert(list@.take(index as int) =~= list@);
    if start < index {
        let ghost before = texts(words@);
        let word = string_of(&list, start, index);
        words.push(word);
        proof {
            lemma_word_start(list@, start as int);
            assert(list@.skip(start as int) =~= word@);
            assert(texts(words@) =~= before.push(word@));
        }
    }
    words
}

/// The parts of a text in front of and behind the first occurrence of a separator.
pub open spec fn split_at_first(text: Seq<char>, separator: char) -> Option<(Seq<char>, Seq<char>)> {
    let at = first_of(text, separator) as int;
    if at < text.len() {
        Some((text.take(at), text.skip(at + 1)))
    } else {
        None
    }
}

/// Takes a text apart at the first occurrence of a separator.
pub fn split_once(text: &str, separator: char) -> (parts: Option<(String, String)>)
    ensures
        match parts {
            Some((front, back)) => split_at_first(text@, separator) == Some((front@, back@)),
            None => split_at_first(text@, separator) is None,
        },
{
    let list = characters(text);
    let mut index: usize = 0;
    while index < list.len()
        invariant
            index <= list@.len(),
            list@ == text@,
            forall|i: int| 0 <= i < index ==> list@[i] != separator,
        decreases list@.len() - index,
    {
        if list[index] == separator {
            let front = string_of(&list, 0, index);
            let back = string_of(&list, index + 1, list.len());
            proof {
                lemma_first_of(text@, separator, index as int);
                assert(front@ =~= text@.take(index as int));
                assert(back@ =~= text@.skip(index + 1));
            }
            return Some((front, back));
        }
        index = index + 1;
    }
    proof {
        lemma_first_of(text@, separator, text@.len() as int);
    }
    None
}

/// The value of a run of decimal digits.
pub open spec fn digits_value(text: Seq<char>) -> Option<nat>
    decreases text.len(),
{
    if text.len() == 0 {
        Some(0)
    } else {
        match digits_value(text.drop_last()) {
            Some(n) => if '0' <= text.last() && text.last() <= '9' {
                Some((n * 10 + (text.last() as nat - '0' as nat)) as nat)
            } else {
                None
            },
            None => None,
        }
    }
}

/// The number that a text states: decimal digits, after one plus sign at most.
pub open spec fn number(text: Seq<char>) -> Option<u64> {
    let digits = if text.len() > 0 && text[0] == '+' {
        text.skip(1)
    } else {
        text
    };
    match digits_value(digits) {
        Some(n) => if digits.len() > 0 && n <= u64::MAX {
            Some(n as u64)
        } else {
            None
        },
        None => None,
    }
}

/// More digits never make a number smaller, nor a text a number.
proof fn lemma_digits_grow(text: Seq<char>, size: int)
    requires
        0 <= size <= text.len(),
        digits_value(text) is Some,
    ensures
        digits_value(text.take(size)) is Some,
        digits_value(text.take(size))->0 <= digits_value(text)->0,
    decreases text.len(),
{
    if size < text.len() {
        lemma_digits_grow(text.drop_last(), size);
        assert(text.drop_last().take(size) =~= text.take(size));
    } else {
        assert(text.take(size) =~= text);
    }
}

/// The number that a text states, if it states one that fits.
pub fn parse_number(text: &str) -> (n: Option<u64>)
    ensures
        n == number(text@),
{
    let list = characters(text);
    let start: usize = if list.len() > 0 && list[0] == '+' {
        1
    } else {
        0
    };
    let ghost digits = list@.skip(start as int);
    assert(list@.skip(0) =~= list@);
    let mut value: u64 = 0;
    let mut index: usize = start;
    assert(digits.take(0) =~= Seq::<char>::empty());
    while index < list.len()
        invariant
            start <= index <= list@.len(),
            start <= 1,
            digits == list@.skip(start as int),
            number(text@) == (match digits_value(digits) {
                Some(n) => if digits.len() > 0 && n <= u64::MAX {
                    Some(n as u64)
                } else {
                    None
                },
                None => None,
            }),
            digits_value(digits.take(index - start)) == Some(value as nat),
        decreases list@.len() - index,
    {
        let c = list[index];
        proof {
            let front = digits.take(index - start + 1);
            assert(front.drop_last() =~= digits.take(index - start));
            assert(front.last() == c);
            if digits_value(digits) is Some {
                lemma_digits_grow(digits, index - start + 1);
            }
        }
        if c < '0' || c > '9' {
            return None;
        }
        let step: u64 = (c as u32 - '0' as u32) as u64;
        let next: u128 = value as u128 * 10 + step as u128;
        if next > u64::MAX as u128 {
            return None;
        }
        value = next as u64;
        index = index + 1;
    }
    assert(digits.take(digits.len() as int) =~= digits);
    if list.len() == start {
        None
    } else {
        Some(value)
    }
}

/// A text ends with another.
pub open spec fn ends_in(text: Seq<char>, suffix: Seq<char>) -> bool {
    text.len() >= suffix.len() && text.skip(text.len() - suffix.len()) == suffix
}

/// Tests whether a text ends with another.
pub fn ends_with(text: &str, suffix: &str) -> (ends: bool)
    ensures
        ends == ends_in(text@, suffix@),
{
    let list = characters(text);
    let tail = characters(suffix);
    if list.len() < tail.len() {
        return false;
    }
    let rest = string_of(&list, list.len() - tail.len(), list.len());
    assert(rest@ =~= text@.skip(text@.len() - suffix@.len()));
    same(rest.as_str(), suffix)
}

} // verus!
