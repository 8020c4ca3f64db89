//! Identifiers of terminals and requests.

use crate::encoding::{be64, be64_value, get_u64, lemma_be64, put_u64};
use crate::text::hex;
use vstd::prelude::*;

verus! {

/// The hyphenated text of an identifier: its thirty-two hexadecimal digits, in groups of
/// eight, four, four, four and twelve.
#[verifier::opaque]
pub open spec fn uuid_text(value: u128) -> Seq<char> {
    let digits = hex(be128(value as nat));
    digits.take(8).push('-') + digits.subrange(8, 12).push('-') + digits.subrange(12, 16).push('-')
        + digits.subrange(16, 20).push('-') + digits.skip(20)
}

/// The identifier that a text stands for, if it is one.
pub uninterp spec fn uuid_value(text: Seq<char>) -> Option<u128>;

/// `uuid::Uuid::to_string`, the hyphenated form in lower case.
///
/// The text is the identifier's digits in their groups, and `uuid::Uuid::parse_str` reads
/// it back.
#[verifier::external_body]
fn hyphenated(value: u128) -> (text: String)
    ensures
        text@ == uuid_text(value),
        uuid_value(text@) == Some(value),
{
    uuid::Uuid::from_u128(value).to_string()
}

/// `uuid::Uuid::parse_str`, which accepts several spellings.
///
/// The outcome is a function of the text alone; any error is `None`.
#[verifier::external_body]
fn parsed(text: &str) -> (value: Option<u128>)
    ensures
        value == uuid_value(text@),
{
    uuid::Uuid::parse_str(text).ok().map(|id| id.as_u128())
}

/// `uuid::Uuid::new_v4`: a random identifier, of which nothing is claimed.
#[verifier::external_body]
fn fresh() -> (value: u128) {
    uuid::Uuid::new_v4().as_u128()
}

/// A 128-bit identifier.
#[derive(Debug, Clone, Copy, PartialEq, Eq, Structural)]
pub struct Uuid {
    pub value: u128,
}

/// The sixteen bytes of an identifier in network order.
pub open spec fn be128(value: nat) -> Seq<u8> {
    be64(value / 0x1_0000_0000_0000_0000) + be64(value % 0x1_0000_0000_0000_0000)
}

/// The identifier that sixteen bytes in network order stand for.
pub open spec fn be128_value(bytes: Seq<u8>) -> nat {
    be64_value(bytes.subrange(0, 8)) * 0x1_0000_0000_0000_0000 + be64_value(
        bytes.subrange(8, 16),
    )
}

/// Sixteen bytes and the identifier they stand for determine each other.
pub proof fn lemma_be128(value: u128, bytes: Seq<u8>)
    ensures
        be128_value(be128(value as nat)) == value,
        be128(value as nat).len() == 16,
        bytes.len() == 16 ==> be128(be128_value(bytes)) == bytes,
        be128_value(bytes) <= u128::MAX,
{
    let high = value as nat / 0x1_0000_0000_0000_0000;
    let low = value as nat % 0x1_0000_0000_0000_0000;
    lemma_be64(high, bytes.subrange(0, 8));
    lemma_be64(low, bytes.subrange(8, 16));
    assert(be128(value as nat).subrange(0, 8) =~= be64(high));
    assert(be128(value as nat).subrange(8, 16) =~= be64(low));
    if bytes.len() == 16 {
        let front = bytes.subrange(0, 8);
        let back = bytes.subrange(8, 16);
        lemma_be64(be64_value(front), front);
        lemma_be64(be64_value(back), back);
        assert(be128_value(bytes) / 0x1_0000_0000_0000_0000 == be64_value(front));
        assert(be128_value(bytes) % 0x1_0000_0000_0000_0000 == be64_value(back));
        assert(front + back =~= bytes);
    }
}

impl Uuid {
    pub fn from_u128(value: u128) -> (id: Self)
        ensures
            id.value == value,
    {
        Self { value }
    }

    /// A random identifier.
    pub fn new_v4() -> Self {
        Self { value: fresh() }
    }

    /// The identifier that a text stands for.
    pub fn parse_str(text: &str) -> (id: Option<Self>)
        ensures
            id is Some <==> uuid_value(text@) is Some,
            id is Some ==> uuid_value(text@) == Some(id->0.value),
    {
        match parsed(text) {
            Some(value) => Some(Self { value }),
            None => None,
        }
    }

    /// The hyphenated text of the identifier, which reads back as the identifier.
    pub fn to_text(&self) -> (text: String)
        ensures
            text@ == uuid_text(self.value),
            uuid_value(text@) == Some(self.value),
    {
        hyphenated(self.value)
    }

    /// The sixteen bytes of the identifier.
    pub fn as_bytes(&self) -> (bytes: Vec<u8>)
        ensures
            bytes@ == be128(self.value as nat),
    {
        let mut bytes: Vec<u8> = Vec::new();
        put_u64(&mut bytes, (self.value / 0x1_0000_0000_0000_0000) as u64);
        put_u64(&mut bytes, (self.value % 0x1_0000_0000_0000_0000) as u64);
        assert(bytes@ =~= be128(self.value as nat));
        bytes
    }

    /// The identifier that `bytes[at..at + 16]` stand for.
    pub fn from_bytes_at(bytes: &[u8], at: usize) -> (id: Self)
        requires
            at + 16 <= bytes@.len(),
        ensures
            id.value == be128_value(bytes@.subrange(at as int, at + 16)),
    {
        assert(bytes@.len() == bytes.len());
        let high: u64 = get_u64(bytes, at);
        let low: u64 = get_u64(bytes, at + 8);
        proof {
            let whole = bytes@.subrange(at as int, at + 16);
            assert(whole.subrange(0, 8) =~= bytes@.subrange(at as int, at + 8));
            assert(whole.subrange(8, 16) =~= bytes@.subrange(at + 8, at + 16));
        }
        Self { value: high as u128 * 0x1_0000_0000_0000_0000 + low as u128 }
    }
}

} // verus!
