//! The byte encodings that both sides of the protocol share: base64url text, SHA-256,
//! network-order integers and length-prefixed fields.

use base64::Engine;
use sha2::Digest;
use vstd::prelude::*;
use vstd::utf8::*;

verus! {

/// The base64url character of a number below sixty-four.
pub open spec fn base64url_char(n: int) -> char
    recommends
        0 <= n < 64,
{
    if n < 26 {
        (65 + n) as char
    } else if n < 52 {
        (71 + n) as char
    } else if n < 62 {
        (n - 4) as char
    } else if n == 62 {
        '-'
    } else {
        '_'
    }
}

/// The four base64url characters of three bytes, each for six bits.
pub open spec fn base64url_group(a: int, b: int, c: int) -> Seq<char> {
    seq![
        base64url_char(a / 4),
        base64url_char(a % 4 * 16 + b / 16),
        base64url_char(b % 16 * 4 + c / 64),
        base64url_char(c % 64),
    ]
}

/// The unpadded base64url text of a byte string: four characters for every three bytes.
/// One or two bytes at the end are filled up with zeros, and have only the characters
/// that they reach into.
#[verifier::opaque]
pub open spec fn base64url(bytes: Seq<u8>) -> Seq<char>
    decreases bytes.len(),
{
    if bytes.len() == 0 {
        Seq::empty()
    } else if bytes.len() == 1 {
        base64url_group(bytes[0] as int, 0, 0).take(2)
    } else if bytes.len() == 2 {
        base64url_group(bytes[0] as int, bytes[1] as int, 0).take(3)
    } else {
        base64url_group(bytes[0] as int, bytes[1] as int, bytes[2] as int) + base64url(
            bytes.skip(3),
        )
    }
}

/// The bytes that an unpadded base64url text stands for, if it is one.
pub open spec fn base64url_value(text: Seq<char>) -> Option<Seq<u8>> {
    if exists|bytes: Seq<u8>| #[trigger] base64url(bytes) == text {
        Some(choose|bytes: Seq<u8>| #[trigger] base64url(bytes) == text)
    } else {
        None
    }
}

/// The base64url text of a byte string, filled up with `=` to a multiple of four
/// characters.
pub open spec fn padded_base64url(bytes: Seq<u8>) -> Seq<char> {
    base64url(bytes) + Seq::new(((3 - bytes.len() % 3) % 3) as nat, |i: int| '=')
}

/// The bytes that a padded base64url text stands for, if it is one.
pub open spec fn padded_base64url_value(text: Seq<char>) -> Option<Seq<u8>> {
    if exists|bytes: Seq<u8>| #[trigger] padded_base64url(bytes) == text {
        Some(choose|bytes: Seq<u8>| #[trigger] padded_base64url(bytes) == text)
    } else {
        None
    }
}

/// The SHA-256 digest of a byte string.
pub uninterp spec fn sha256_digest(bytes: Seq<u8>) -> Seq<u8>;

/// The sixty-four characters of base64url: letters, digits, `-` and `_`.
pub open spec fn is_base64url_char(c: char) -> bool {
    ||| 'A' <= c <= 'Z'
    ||| 'a' <= c <= 'z'
    ||| '0' <= c <= '9'
    ||| c == '-'
    ||| c == '_'
}

/// Whether a text holds base64url characters only, and so no padding.
pub open spec fn is_base64url(text: Seq<char>) -> bool {
    forall|i: int| 0 <= i < text.len() ==> is_base64url_char(#[trigger] text[i])
}

proof fn lemma_base64url_char(m: int, n: int)
    requires
        0 <= m < 64,
        0 <= n < 64,
    ensures
        is_base64url_char(base64url_char(m)),
        base64url_char(m) == base64url_char(n) ==> m == n,
{
}

/// The text of `n` bytes has `(4n + 2) / 3` characters, rounded down, and all of them are
/// base64url characters.
pub proof fn law_base64url_is_compact(bytes: Seq<u8>)
    ensures
        base64url(bytes).len() == (4 * bytes.len() + 2) / 3,
        is_base64url(base64url(bytes)),
    decreases bytes.len(),
{
    reveal(base64url);
    assert forall|n: int| 0 <= n < 64 implies is_base64url_char(#[trigger] base64url_char(n)) by {
        lemma_base64url_char(n, n);
    }
    if bytes.len() >= 3 {
        let rest = base64url(bytes.skip(3));
        law_base64url_is_compact(bytes.skip(3));
        let text = base64url(bytes);
        assert forall|i: int| 0 <= i < text.len() implies is_base64url_char(#[trigger] text[i]) by {
            if i >= 4 {
                assert(text[i] == rest[i - 4]);
            }
        }
    }
}

/// Different bytes have different texts.
pub proof fn law_base64url_is_unambiguous(x: Seq<u8>, y: Seq<u8>)
    requires
        base64url(x) == base64url(y),
    ensures
        x == y,
    decreases x.len(),
{
    reveal(base64url);
    law_base64url_is_compact(x);
    law_base64url_is_compact(y);
    assert(x.len() == y.len());
    let a = x[0] as int;
    let d = y[0] as int;
    if x.len() == 1 {
        lemma_group(a, 0, 0, d, 0, 0, 2);
    } else if x.len() == 2 {
        lemma_group(a, x[1] as int, 0, d, y[1] as int, 0, 3);
    } else if x.len() >= 3 {
        let one = base64url_group(a, x[1] as int, x[2] as int);
        let other = base64url_group(d, y[1] as int, y[2] as int);
        assert(one =~= base64url(x).take(4));
        assert(other =~= base64url(y).take(4));
        assert(one.take(4) =~= one && other.take(4) =~= other);
        lemma_group(a, x[1] as int, x[2] as int, d, y[1] as int, y[2] as int, 4);
        assert(base64url(x.skip(3)) =~= base64url(x).skip(4));
        assert(base64url(y.skip(3)) =~= base64url(y).skip(4));
        law_base64url_is_unambiguous(x.skip(3), y.skip(3));
        assert(x =~= x.take(3) + x.skip(3));
        assert(y =~= y.take(3) + y.skip(3));
    }
    assert(x =~= y);
}

proof fn lemma_group(a: int, b: int, c: int, d: int, e: int, f: int, size: int)
    requires
        0 <= a < 256 && 0 <= b < 256 && 0 <= c < 256,
        0 <= d < 256 && 0 <= e < 256 && 0 <= f < 256,
        2 <= size <= 4,
        size == 2 ==> b == 0 && e == 0,
        size < 4 ==> c == 0 && f == 0,
        base64url_group(a, b, c).take(size) == base64url_group(d, e, f).take(size),
    ensures
        a == d,
        b == e,
        c == f,
{
    let one = base64url_group(a, b, c);
    let other = base64url_group(d, e, f);
    assert forall|i: int| 0 <= i < size implies one[i] == other[i] by {
        assert(one.take(size)[i] == other.take(size)[i]);
    }
    assert(one[0] == other[0] && one[1] == other[1]);
    lemma_base64url_char(a / 4, d / 4);
    lemma_base64url_char(a % 4 * 16 + b / 16, d % 4 * 16 + e / 16);
    if size > 2 {
        assert(one[2] == other[2]);
        lemma_base64url_char(b % 16 * 4 + c / 64, e % 16 * 4 + f / 64);
    }
    if size > 3 {
        assert(one[3] == other[3]);
        lemma_base64url_char(c % 64, f % 64);
    }
}

/// Different bytes have different padded texts.
pub proof fn law_padded_base64url_is_unambiguous(x: Seq<u8>, y: Seq<u8>)
    requires
        padded_base64url(x) == padded_base64url(y),
    ensures
        x == y,
{
    law_base64url_is_compact(x);
    law_base64url_is_compact(y);
    let one = base64url(x);
    let other = base64url(y);
    let whole = padded_base64url(x);
    if one.len() < other.len() {
        assert(whole[one.len() as int] == '=');
        assert(is_base64url_char(other[one.len() as int]));
    }
    if other.len() < one.len() {
        assert(padded_base64url(y)[other.len() as int] == '=');
        assert(is_base64url_char(one[other.len() as int]));
    }
    assert(one =~= whole.take(one.len() as int));
    assert(other =~= whole.take(other.len() as int));
    law_base64url_is_unambiguous(x, y);
}

/// A text stands for the bytes that it is the text of.
pub proof fn law_texts_stand_for_their_bytes(bytes: Seq<u8>)
    ensures
        base64url_value(base64url(bytes)) == Some(bytes),
        padded_base64url_value(padded_base64url(bytes)) == Some(bytes),
{
    let found = base64url_value(base64url(bytes))->0;
    assert(base64url(found) == base64url(bytes));
    law_base64url_is_unambiguous(found, bytes);
    let padded = padded_base64url_value(padded_base64url(bytes))->0;
    assert(padded_base64url(padded) == padded_base64url(bytes));
    law_padded_base64url_is_unambiguous(padded, bytes);
}

/// Whether a text can be the base64url text of thirty-two bytes, such as a digest: it has
/// forty-three base64url characters.
pub open spec fn is_digest_text(text: Seq<char>) -> bool {
    text.len() == 43 && is_base64url(text)
}

/// What [`b64_decode`] makes of a text.
pub open spec fn decoded(text: Seq<char>) -> Option<Seq<u8>> {
    match base64url_value(text) {
        Some(bytes) => Some(bytes),
        None => padded_base64url_value(text),
    }
}

/// Unpadded base64url, by `Engine::encode` of the `base64` crate's `URL_SAFE_NO_PAD`.
///
/// The text is the base64url text of the bytes.
#[verifier::external_body]
fn encode_unpadded(bytes: &[u8]) -> (text: String)
    ensures
        text@ == base64url(bytes@),
{
    base64::engine::general_purpose::URL_SAFE_NO_PAD.encode(bytes)
}

/// Encodes unpadded base64url. The text decodes back to the same bytes.
pub fn b64_encode(bytes: &[u8]) -> (text: String)
    ensures
        text@ == base64url(bytes@),
        text@.len() == (4 * bytes@.len() + 2) / 3,
        is_base64url(text@),
        base64url_value(text@) == Some(bytes@),
        decoded(text@) == Some(bytes@),
{
    proof {
        law_base64url_is_compact(bytes@);
        law_texts_stand_for_their_bytes(bytes@);
    }
    encode_unpadded(bytes)
}

/// `Engine::decode` of the `base64` crate's `URL_SAFE_NO_PAD`, which refuses padding and
/// bits that are left over.
///
/// It gives the bytes that the text is the unpadded base64url text of; a text that is that
/// of no bytes is a decoding error, which is `None`.
#[verifier::external_body]
fn decode_unpadded(text: &str) -> (bytes: Option<Vec<u8>>)
    ensures
        bytes is Some ==> base64url(bytes->0@) == text@,
        bytes is None ==> forall|other: Seq<u8>| #[trigger] base64url(other) != text@,
{
    base64::engine::general_purpose::URL_SAFE_NO_PAD.decode(text.as_bytes()).ok()
}

/// `Engine::decode` of the `base64` crate's `URL_SAFE`, which requires canonical padding
/// and refuses bits that are left over.
///
/// It gives the bytes that the text is the padded base64url text of; a text that is that
/// of no bytes is a decoding error, which is `None`.
#[verifier::external_body]
fn decode_padded(text: &str) -> (bytes: Option<Vec<u8>>)
    ensures
        bytes is Some ==> padded_base64url(bytes->0@) == text@,
        bytes is None ==> forall|other: Seq<u8>| #[trigger] padded_base64url(other) != text@,
{
    base64::engine::general_purpose::URL_SAFE.decode(text.as_bytes()).ok()
}

/// Decodes base64url. The relay emits unpadded text but tolerates padding, and so does
/// this.
pub fn b64_decode(s: &str) -> (bytes: Option<Vec<u8>>)
    ensures
        bytes is Some <==> decoded(s@) is Some,
        bytes is Some ==> decoded(s@) == Some(bytes->0@),
{
    match decode_unpadded(s) {
        Some(bytes) => {
            proof {
                law_texts_stand_for_their_bytes(bytes@);
            }
            Some(bytes)
        },
        None => match decode_padded(s) {
            Some(bytes) => {
                proof {
                    law_texts_stand_for_their_bytes(bytes@);
                }
                Some(bytes)
            },
            None => None,
        },
    }
}

/// SHA-256, by the `sha2` crate's `Sha256` through `Digest::digest`.
///
/// The digest is a function of the bytes alone. Nothing is said of collisions.
#[verifier::external_body]
pub fn sha256(bytes: &[u8]) -> (digest: [u8; 32])
    ensures
        digest@ == sha256_digest(bytes@),
{
    sha2::Sha256::digest(bytes).into()
}

/// The four bytes of `n` in network order.
#[verifier::opaque]
pub open spec fn be32(n: nat) -> Seq<u8> {
    seq![
        (n / 0x1000000 % 0x100) as u8,
        (n / 0x10000 % 0x100) as u8,
        (n / 0x100 % 0x100) as u8,
        (n % 0x100) as u8,
    ]
}

/// The number that four bytes in network order stand for.
#[verifier::opaque]
pub open spec fn be32_value(bytes: Seq<u8>) -> nat {
    (bytes[0] * 0x1000000 + bytes[1] * 0x10000 + bytes[2] * 0x100 + bytes[3]) as nat
}

/// The eight bytes of `n` in network order.
pub open spec fn be64(n: nat) -> Seq<u8> {
    be32(n / 0x1_0000_0000) + be32(n % 0x1_0000_0000)
}

/// The number that eight bytes in network order stand for.
pub open spec fn be64_value(bytes: Seq<u8>) -> nat {
    be32_value(bytes.subrange(0, 4)) * 0x1_0000_0000 + be32_value(bytes.subrange(4, 8))
}

/// Four base-256 digits and the number they stand for determine each other.
#[verifier::spinoff_prover]
proof fn lemma_digits(n: int, b0: int, b1: int, b2: int, b3: int)
    requires
        0 <= b0 < 0x100,
        0 <= b1 < 0x100,
        0 <= b2 < 0x100,
        0 <= b3 < 0x100,
        0 <= n < 0x1_0000_0000,
    ensures
        n == (b0 * 0x1000000 + b1 * 0x10000 + b2 * 0x100 + b3) <==> {
            &&& b0 == n / 0x1000000 % 0x100
            &&& b1 == n / 0x10000 % 0x100
            &&& b2 == n / 0x100 % 0x100
            &&& b3 == n % 0x100
        },
{
    let q1 = n / 0x100;
    let q2 = q1 / 0x100;
    let q3 = q2 / 0x100;
    assert(n == 0x100 * q1 + n % 0x100);
    assert(q1 == 0x100 * q2 + q1 % 0x100);
    assert(q2 == 0x100 * q3 + q2 % 0x100);
    assert(q2 == n / 0x10000);
    assert(q3 == n / 0x1000000);
    assert(q3 < 0x100);
}

/// Network order loses nothing: four bytes and the number they stand for determine each
/// other.
pub proof fn lemma_be32(n: nat, bytes: Seq<u8>)
    ensures
        n < 0x1_0000_0000 ==> be32_value(be32(n)) == n,
        bytes.len() == 4 ==> be32(be32_value(bytes)) == bytes,
        be32_value(bytes) < 0x1_0000_0000,
        be32(n).len() == 4,
{
    reveal(be32);
    reveal(be32_value);
    let m = n as int;
    if n < 0x1_0000_0000 {
        lemma_digits(m, m / 0x1000000 % 0x100, m / 0x10000 % 0x100, m / 0x100 % 0x100, m % 0x100);
    }
    let value = be32_value(bytes) as int;
    lemma_digits(value, bytes[0] as int, bytes[1] as int, bytes[2] as int, bytes[3] as int);
    if bytes.len() == 4 {
        assert(be32(be32_value(bytes)) =~= bytes);
    }
}

/// Network order loses nothing: eight bytes and the number they stand for determine
/// each other.
pub proof fn lemma_be64(n: nat, bytes: Seq<u8>)
    ensures
        n < 0x1_0000_0000_0000_0000 ==> be64_value(be64(n)) == n,
        bytes.len() == 8 ==> be64(be64_value(bytes)) == bytes,
        be64_value(bytes) < 0x1_0000_0000_0000_0000,
        be64(n).len() == 8,
{
    let high = n / 0x1_0000_0000;
    let low = n % 0x1_0000_0000;
    assert(n < 0x1_0000_0000_0000_0000 ==> high < 0x1_0000_0000);
    lemma_be32(high, bytes.subrange(0, 4));
    lemma_be32(low, bytes.subrange(4, 8));
    assert(be64(n).subrange(0, 4) =~= be32(high));
    assert(be64(n).subrange(4, 8) =~= be32(low));
    if bytes.len() == 8 {
        let front = bytes.subrange(0, 4);
        let back = bytes.subrange(4, 8);
        lemma_be32(be32_value(front), front);
        lemma_be32(be32_value(back), back);
        assert(be64_value(bytes) / 0x1_0000_0000 == be32_value(front));
        assert(be64_value(bytes) % 0x1_0000_0000 == be32_value(back));
        assert(front + back =~= bytes);
    }
}

/// Appends `n` to `buf` in network order.
pub fn put_u32(buf: &mut Vec<u8>, n: u32)
    ensures
        final(buf)@ == old(buf)@ + be32(n as nat),
{
    proof {
        reveal(be32);
    }
    buf.push((n / 0x1000000 % 0x100) as u8);
    buf.push((n / 0x10000 % 0x100) as u8);
    buf.push((n / 0x100 % 0x100) as u8);
    buf.push((n % 0x100) as u8);
    assert(buf@ =~= old(buf)@ + be32(n as nat));
}

/// Appends `n` to `buf` in network order.
pub fn put_u64(buf: &mut Vec<u8>, n: u64)
    ensures
        final(buf)@ == old(buf)@ + be64(n as nat),
{
    put_u32(buf, (n / 0x1_0000_0000) as u32);
    put_u32(buf, (n % 0x1_0000_0000) as u32);
    assert(buf@ =~= old(buf)@ + be64(n as nat));
}

/// Reads a number in network order from `bytes[at..at + 4]`.
pub fn get_u32(bytes: &[u8], at: usize) -> (n: u32)
    requires
        at + 4 <= bytes@.len(),
    ensures
        n == be32_value(bytes@.subrange(at as int, at + 4)),
{
    proof {
        reveal(be32_value);
    }
    bytes[at] as u32 * 0x1000000 + bytes[at + 1] as u32 * 0x10000 + bytes[at + 2] as u32 * 0x100
        + bytes[at + 3] as u32
}

/// Reads a number in network order from `bytes[at..at + 8]`.
pub fn get_u64(bytes: &[u8], at: usize) -> (n: u64)
    requires
        at + 8 <= bytes@.len(),
    ensures
        n == be64_value(bytes@.subrange(at as int, at + 8)),
{
    assert(bytes@.len() == bytes.len());
    let high: u32 = get_u32(bytes, at);
    let low: u32 = get_u32(bytes, at + 4);
    proof {
        let whole = bytes@.subrange(at as int, at + 8);
        assert(whole.subrange(0, 4) =~= bytes@.subrange(at as int, at + 4));
        assert(whole.subrange(4, 8) =~= bytes@.subrange(at + 4, at + 8));
    }
    high as u64 * 0x1_0000_0000 + low as u64
}

/// A copy of `bytes[from..to]`.
pub fn copy_of(bytes: &[u8], from: usize, to: usize) -> (copy: Vec<u8>)
    requires
        from <= to <= bytes@.len(),
    ensures
        copy@ == bytes@.subrange(from as int, to as int),
{
    let mut copy: Vec<u8> = Vec::new();
    let mut index: usize = from;
    while index < to
        invariant
            from <= index <= to <= bytes@.len(),
            copy@ =~= bytes@.subrange(from as int, index as int),
        decreases to - index,
    {
        copy.push(bytes[index]);
        index = index + 1;
    }
    copy
}

/// Appends `bytes` to `buf`.
pub fn put_bytes(buf: &mut Vec<u8>, bytes: &[u8])
    ensures
        final(buf)@ == old(buf)@ + bytes@,
{
    let ghost before = buf@;
    let mut index: usize = 0;
    while index < bytes.len()
        invariant
            index <= bytes@.len(),
            buf@ =~= before + bytes@.subrange(0, index as int),
        decreases bytes@.len() - index,
    {
        buf.push(bytes[index]);
        index = index + 1;
    }
    assert(bytes@.subrange(0, index as int) =~= bytes@);
}

/// One field with its length in front. A length is four bytes wide, so it is written
/// modulo 2^32.
pub open spec fn prefixed(field: Seq<u8>) -> Seq<u8> {
    be32(field.len() % 0x1_0000_0000) + field
}

/// The length-prefixed concatenation of some fields.
pub open spec fn concatenated(fields: Seq<Seq<u8>>) -> Seq<u8>
    decreases fields.len(),
{
    if fields.len() == 0 {
        Seq::empty()
    } else {
        prefixed(fields[0]) + concatenated(fields.drop_first())
    }
}

/// Every field is short enough for its length to be written in full.
pub open spec fn lengths_fit(fields: Seq<Seq<u8>>) -> bool {
    forall|i: int| 0 <= i < fields.len() ==> (#[trigger] fields[i]).len() < 0x1_0000_0000
}

/// The byte strings that a list of byte vectors holds.
pub open spec fn contents(list: Seq<Vec<u8>>) -> Seq<Seq<u8>> {
    Seq::new(list.len(), |i: int| list[i]@)
}

/// Adding a field at the end of the list adds its encoding at the end.
pub proof fn lemma_concatenated_push(fields: Seq<Seq<u8>>, field: Seq<u8>)
    ensures
        concatenated(fields.push(field)) == concatenated(fields) + prefixed(field),
    decreases fields.len(),
{
    let longer = fields.push(field);
    if fields.len() == 0 {
        assert(longer.drop_first() =~= Seq::<Seq<u8>>::empty());
        assert(concatenated(longer.drop_first()) =~= Seq::<u8>::empty());
        assert(concatenated(longer) =~= concatenated(fields) + prefixed(field));
    } else {
        assert(longer.drop_first() =~= fields.drop_first().push(field));
        lemma_concatenated_push(fields.drop_first(), field);
        assert(concatenated(longer) =~= concatenated(fields) + prefixed(field));
    }
}

/// The first field of an encoding can be read off its front.
proof fn lemma_first_field(fields: Seq<Seq<u8>>)
    requires
        lengths_fit(fields),
        fields.len() > 0,
    ensures
        concatenated(fields).len() >= 4 + fields[0].len(),
        be32_value(concatenated(fields).subrange(0, 4)) == fields[0].len(),
        concatenated(fields).subrange(4, 4 + fields[0].len() as int) == fields[0],
        concatenated(fields).subrange(4 + fields[0].len() as int, concatenated(fields).len() as int)
            == concatenated(fields.drop_first()),
{
    let whole = concatenated(fields);
    let first = fields[0];
    let rest = concatenated(fields.drop_first());
    lemma_be32(first.len(), Seq::empty());
    assert(whole.subrange(0, 4) =~= be32(first.len()));
    assert(whole.subrange(4, 4 + first.len() as int) =~= first);
    assert(whole.subrange(4 + first.len() as int, whole.len() as int) =~= rest);
}

/// The encoding is unambiguous: no field boundary can be confused with content, so two
/// lists of fields with the same encoding are the same list.
pub proof fn law_concatenation_is_unambiguous(a: Seq<Seq<u8>>, b: Seq<Seq<u8>>)
    requires
        lengths_fit(a),
        lengths_fit(b),
        concatenated(a) == concatenated(b),
    ensures
        a == b,
    decreases a.len(),
{
    if a.len() == 0 || b.len() == 0 {
        if a.len() > 0 {
            lemma_first_field(a);
        }
        if b.len() > 0 {
            lemma_first_field(b);
        }
        assert(a =~= b);
    } else {
        lemma_first_field(a);
        lemma_first_field(b);
        assert(lengths_fit(a.drop_first())) by {
            assert forall|i: int| 0 <= i < a.drop_first().len() implies (
            #[trigger] a.drop_first()[i]).len() < 0x1_0000_0000 by {
                assert(a.drop_first()[i] == a[i + 1]);
            }
        }
        assert(lengths_fit(b.drop_first())) by {
            assert forall|i: int| 0 <= i < b.drop_first().len() implies (
            #[trigger] b.drop_first()[i]).len() < 0x1_0000_0000 by {
                assert(b.drop_first()[i] == b[i + 1]);
            }
        }
        law_concatenation_is_unambiguous(a.drop_first(), b.drop_first());
        assert(a =~= seq![a[0]] + a.drop_first());
        assert(b =~= seq![b[0]] + b.drop_first());
    }
}

/// Unambiguous length-prefixed concatenation: each field carries its length as an
/// unsigned 32-bit network-order integer, so no field boundary can be confused with
/// content.
pub struct LengthPrefixed {
    buf: Vec<u8>,
}

impl View for LengthPrefixed {
    type V = Seq<u8>;

    closed spec fn view(&self) -> Seq<u8> {
        self.buf@
    }
}

impl Default for LengthPrefixed {
    fn default() -> (empty: Self)
        ensures
            empty@ == concatenated(Seq::empty()),
    {
        Self::new()
    }
}

impl LengthPrefixed {
    pub fn new() -> (empty: Self)
        ensures
            empty@ == concatenated(Seq::empty()),
    {
        Self { buf: Vec::new() }
    }

    pub fn field(self, bytes: &[u8]) -> (longer: Self)
        ensures
            longer@ == self@ + prefixed(bytes@),
            forall|fields: Seq<Seq<u8>>|
                self@ == concatenated(fields) ==> longer@ == #[trigger] concatenated(
                    fields.push(bytes@),
                ),
    {
        let ghost before = self@;
        let mut buf = self.buf;
        put_u32(&mut buf, (bytes.len() as u64 % 0x1_0000_0000) as u32);
        put_bytes(&mut buf, bytes);
        assert(buf@ =~= before + prefixed(bytes@));
        assert forall|fields: Seq<Seq<u8>>| before == concatenated(fields) implies buf@
            == #[trigger] concatenated(fields.push(bytes@)) by {
            lemma_concatenated_push(fields, bytes@);
        }
        Self { buf }
    }

    pub fn field_str(self, s: &str) -> (longer: Self)
        ensures
            longer@ == self@ + prefixed(encode_utf8(s@)),
            forall|fields: Seq<Seq<u8>>|
                self@ == concatenated(fields) ==> longer@ == #[trigger] concatenated(
                    fields.push(encode_utf8(s@)),
                ),
    {
        self.field(s.as_bytes())
    }

    pub fn field_u64(self, value: u64) -> (longer: Self)
        ensures
            longer@ == self@ + prefixed(be64(value as nat)),
            forall|fields: Seq<Seq<u8>>|
                self@ == concatenated(fields) ==> longer@ == #[trigger] concatenated(
                    fields.push(be64(value as nat)),
                ),
    {
        let mut bytes: Vec<u8> = Vec::new();
        put_u64(&mut bytes, value);
        assert(bytes@ =~= be64(value as nat));
        self.field(bytes.as_slice())
    }

    pub fn finish(self) -> (bytes: Vec<u8>)
        ensures
            bytes@ == self@,
    {
        self.buf
    }
}

/// The most fields that [`parse_length_prefixed`] takes apart.
pub const MAX_FIELDS: usize = 64;

/// `fields` is a way to read `bytes` as length-prefixed fields, and not too long.
pub open spec fn reads_as(bytes: Seq<u8>, fields: Seq<Seq<u8>>) -> bool {
    &&& fields.len() <= MAX_FIELDS
    &&& lengths_fit(fields)
    &&& concatenated(fields) == bytes
}

/// The fields that some bytes read as, if they do. There is never more than one way.
pub open spec fn split_fields(bytes: Seq<u8>) -> Option<Seq<Seq<u8>>> {
    if exists|fields: Seq<Seq<u8>>| reads_as(bytes, fields) {
        Some(choose|fields: Seq<Seq<u8>>| reads_as(bytes, fields))
    } else {
        None
    }
}

/// However some bytes are read as fields, those are the fields.
pub proof fn lemma_split_fields(bytes: Seq<u8>, fields: Seq<Seq<u8>>)
    requires
        reads_as(bytes, fields),
    ensures
        split_fields(bytes) == Some(fields),
{
    law_concatenation_is_unambiguous(split_fields(bytes)->0, fields);
}

/// Splits a length-prefixed encoding back into its fields: `None` when the bytes are
/// not the encoding of any list of at most [`MAX_FIELDS`] fields, and that list
/// otherwise. There is never more than one.
///
/// Used to look at what the relay asks to have signed before signing it.
pub fn parse_length_prefixed(bytes: &[u8]) -> (parsed: Option<Vec<Vec<u8>>>)
    ensures
        parsed is Some ==> reads_as(bytes@, contents(parsed->0@)),
        parsed is None ==> forall|fields: Seq<Seq<u8>>| !reads_as(bytes@, fields),
        split_fields(bytes@) == (match parsed {
            Some(fields) => Some(contents(fields@)),
            None => None,
        }),
{
    let mut fields: Vec<Vec<u8>> = Vec::new();
    let mut cursor: usize = 0;
    proof {
        assert(contents(fields@) =~= Seq::<Seq<u8>>::empty());
        assert(bytes@.subrange(0, bytes@.len() as int) =~= bytes@);
        assert forall|whole: Seq<Seq<u8>>| reads_as(bytes@, whole) implies #[trigger] goes_on(
            bytes@,
            whole,
            contents(fields@),
            0,
        ) by {
            assert(whole.skip(0) =~= whole);
            assert(whole.take(0) =~= Seq::<Seq<u8>>::empty());
        }
    }
    while cursor < bytes.len()
        invariant
            cursor <= bytes@.len(),
            fields@.len() <= MAX_FIELDS,
            lengths_fit(contents(fields@)),
            concatenated(contents(fields@)) == bytes@.subrange(0, cursor as int),
            forall|whole: Seq<Seq<u8>>|
                reads_as(bytes@, whole) ==> #[trigger] goes_on(
                    bytes@,
                    whole,
                    contents(fields@),
                    cursor as int,
                ),
        decreases bytes@.len() - cursor,
    {
        let ghost before = contents(fields@);
        let ghost left = bytes@.subrange(cursor as int, bytes@.len() as int);
        proof {
            assert forall|whole: Seq<Seq<u8>>| reads_as(bytes@, whole) implies ({
                &&& whole.len() > before.len()
                &&& left.len() >= 4 + whole[before.len() as int].len()
                &&& be32_value(left.subrange(0, 4)) == whole[before.len() as int].len()
            }) by {
                lemma_goes_on(bytes@, whole, before, cursor as int);
            }
        }
        if bytes.len() - cursor < 4 {
            return None;
        }
        let length: usize = get_u32(bytes, cursor) as usize;
        assert(left.subrange(0, 4) =~= bytes@.subrange(cursor as int, cursor + 4));
        if bytes.len() - cursor - 4 < length {
            return None;
        }
        let field = copy_of(bytes, cursor + 4, cursor + 4 + length);
        let ghost after = before.push(field@);
        fields.push(field);
        cursor = cursor + 4 + length;
        proof {
            assert(contents(fields@) =~= after);
            lemma_be32(0, bytes@.subrange(cursor - 4 - length, cursor - length));
            lemma_concatenated_push(before, field@);
            assert(bytes@.subrange(0, cursor as int) =~= bytes@.subrange(
                0,
                cursor - 4 - length,
            ) + prefixed(field@));
            assert forall|whole: Seq<Seq<u8>>| reads_as(bytes@, whole) implies #[trigger] goes_on(
                bytes@,
                whole,
                after,
                cursor as int,
            ) by {
                assert(goes_on(bytes@, whole, before, cursor - 4 - length));
                lemma_goes_on(bytes@, whole, before, cursor - 4 - length);
                assert(whole[before.len() as int] =~= field@);
                assert(whole.take(after.len() as int) =~= whole.take(before.len() as int).push(
                    field@,
                ));
                assert(whole.skip(after.len() as int) =~= whole.skip(
                    before.len() as int,
                ).drop_first());
                assert(left.subrange(4 + length, left.len() as int) =~= bytes@.subrange(
                    cursor as int,
                    bytes@.len() as int,
                ));
                assert(concatenated(whole.skip(after.len() as int)) == bytes@.subrange(cursor as int, bytes@.len() as int));
                assert(whole.take(after.len() as int) == after);
                assert(whole.len() >= after.len());
            }
        }
        // A malformed input could otherwise describe an unbounded number of fields.
        if fields.len() > MAX_FIELDS {
            return None;
        }
    }
    proof {
        assert(bytes@.subrange(0, cursor as int) =~= bytes@);
        lemma_split_fields(bytes@, contents(fields@));
    }
    Some(fields)
}

/// The list `whole` begins with `fields`, and its other fields are encoded from
/// `cursor` on.
spec fn goes_on(bytes: Seq<u8>, whole: Seq<Seq<u8>>, fields: Seq<Seq<u8>>, cursor: int) -> bool {
    &&& whole.len() >= fields.len()
    &&& whole.take(fields.len() as int) == fields
    &&& concatenated(whole.skip(fields.len() as int)) == bytes.subrange(cursor, bytes.len() as int)
}

/// The field at `cursor` can be read off the bytes there.
proof fn lemma_goes_on(bytes: Seq<u8>, whole: Seq<Seq<u8>>, fields: Seq<Seq<u8>>, cursor: int)
    requires
        lengths_fit(whole),
        goes_on(bytes, whole, fields, cursor),
        0 <= cursor < bytes.len(),
    ensures
        whole.len() > fields.len(),
        ({
            let left = bytes.subrange(cursor, bytes.len() as int);
            let next = whole[fields.len() as int];
            &&& left.len() >= 4 + next.len()
            &&& be32_value(left.subrange(0, 4)) == next.len()
            &&& left.subrange(4, 4 + next.len() as int) == next
            &&& left.subrange(4 + next.len() as int, left.len() as int) == concatenated(
                whole.skip(fields.len() as int).drop_first(),
            )
        }),
{
    let tail = whole.skip(fields.len() as int);
    assert(bytes.subrange(cursor, bytes.len() as int).len() > 0);
    assert(tail[0] == whole[fields.len() as int]);
    assert(lengths_fit(tail)) by {
        assert forall|i: int| 0 <= i < tail.len() implies (#[trigger] tail[i]).len()
            < 0x1_0000_0000 by {
            assert(tail[i] == whole[i + fields.len()]);
        }
    }
    lemma_first_field(tail);
}

/// Splitting undoes joining: whatever at most [`MAX_FIELDS`] fields were joined, the
/// only list that the joined bytes read as is that list.
pub proof fn law_splitting_undoes_joining(fields: Seq<Seq<u8>>, read: Seq<Seq<u8>>)
    requires
        fields.len() <= MAX_FIELDS,
        lengths_fit(fields),
    ensures
        reads_as(concatenated(fields), fields),
        reads_as(concatenated(fields), read) ==> read == fields,
{
    if reads_as(concatenated(fields), read) {
        law_concatenation_is_unambiguous(read, fields);
    }
}

} // verus!
