//! SHA-1 checksums: twenty bytes, written as forty lower-case hexadecimal
//! characters.

use vstd::prelude::*;
use vstd::string::StringSliceAdditionalSpecFns;
use sha1::Digest;
use crate::text::digit_char;

verus! {

/// The SHA-1 digest of a sequence of bytes, as the `sha1` crate computes it.
pub uninterp spec fn sha1_digest(data: Seq<u8>) -> Seq<u8>;

/// The value of a hexadecimal digit given as a byte, in either case.
pub open spec fn hex_digit_value(b: u8) -> Option<int> {
    if 48 <= b <= 57 {
        Some(b - 48)
    } else if 97 <= b <= 102 {
        Some(b - 87)
    } else if 65 <= b <= 70 {
        Some(b - 55)
    } else {
        None
    }
}

/// Whether `data` is made of exactly `2 * n` hexadecimal digits.
pub open spec fn is_hex_text(data: Seq<u8>, n: nat) -> bool {
    &&& data.len() == 2 * n
    &&& forall|i: int| 0 <= i < data.len() ==> hex_digit_value(#[trigger] data[i]) is Some
}

/// The bytes that pairs of hexadecimal digits denote, high digit first.
pub open spec fn hex_decoded(data: Seq<u8>) -> Seq<u8> {
    Seq::new(
        data.len() / 2,
        |i: int| (16 * hex_digit_value(data[2 * i])->0 + hex_digit_value(data[2 * i + 1])->0) as u8,
    )
}

/// The lower-case hexadecimal digit of a value below sixteen.
pub open spec fn hex_digit(v: int) -> char {
    if v < 10 {
        digit_char(v)
    } else if v == 10 {
        'a'
    } else if v == 11 {
        'b'
    } else if v == 12 {
        'c'
    } else if v == 13 {
        'd'
    } else if v == 14 {
        'e'
    } else {
        'f'
    }
}

/// Two lower-case hexadecimal digits for each byte, high digit first.
pub open spec fn hex_encoded(bytes: Seq<u8>) -> Seq<char> {
    Seq::new(
        2 * bytes.len(),
        |i: int|
            hex_digit(
                if i % 2 == 0 {
                    bytes[i / 2] as int / 16
                } else {
                    bytes[i / 2] as int % 16
                },
            ),
    )
}

/// The bytes of the hexadecimal form of `bytes`.
pub open spec fn hex_bytes(bytes: Seq<u8>) -> Seq<u8> {
    Seq::new(hex_encoded(bytes).len(), |i: int| hex_encoded(bytes)[i] as u8)
}

/// Reading what was written gives what was written from: the hexadecimal
/// form of any bytes is made of digits only, and decodes to those bytes.
pub proof fn lemma_hex_round_trip(bytes: Seq<u8>)
    ensures
        is_hex_text(hex_bytes(bytes), bytes.len()),
        hex_decoded(hex_bytes(bytes)) == bytes,
{
    let text = hex_bytes(bytes);
    assert forall|i: int| 0 <= i < text.len() implies hex_digit_value(#[trigger] text[i]) is Some
        && hex_digit_value(text[i])->0 == (if i % 2 == 0 {
        bytes[i / 2] as int / 16
    } else {
        bytes[i / 2] as int % 16
    }) by {
        let v = if i % 2 == 0 {
            bytes[i / 2] as int / 16
        } else {
            bytes[i / 2] as int % 16
        };
        assert(0 <= v < 16);
        assert(text[i] == hex_digit(v) as u8);
    }
    assert forall|k: int| 0 <= k < bytes.len() implies hex_decoded(text)[k] == bytes[k] by {
        assert(hex_digit_value(text[2 * k])->0 == bytes[k] as int / 16);
        assert(hex_digit_value(text[2 * k + 1])->0 == bytes[k] as int % 16);
    }
    assert(hex_decoded(text) =~= bytes);
}

/// Different bytes have different hexadecimal forms.
pub proof fn lemma_hex_is_injective(a: Seq<u8>, b: Seq<u8>)
    requires
        hex_encoded(a) == hex_encoded(b),
    ensures
        a == b,
{
    lemma_hex_round_trip(a);
    lemma_hex_round_trip(b);
    assert(hex_bytes(a) =~= hex_bytes(b));
}

/// `sha1::Sha1`: the digest of `data`, through `new`, `update` and
/// `finalize`. The result is named, not computed here: it is a function of
/// the bytes alone.
#[verifier::external_body]
fn sha1_of(data: &[u8]) -> (digest: [u8; 20])
    ensures
        digest@ == sha1_digest(data@),
{
    let mut hasher = sha1::Sha1::new();
    hasher.update(data);
    hasher.finalize().into()
}

/// `hex::encode`: each byte becomes its two lower-case hexadecimal digits,
/// the high one first.
#[verifier::external_body]
pub(crate) fn hex_encode(bytes: &[u8]) -> (text: String)
    ensures
        text@ == hex_encoded(bytes@),
{
    hex::encode(bytes)
}

/// Why a text is not the hexadecimal form of twenty bytes.
#[derive(Debug, Clone, Copy, PartialEq, Eq, Structural)]
pub enum HexError {
    /// The byte `c` at `index` is no hexadecimal digit.
    InvalidHexCharacter { c: char, index: usize },
    /// The number of digits is odd.
    OddLength,
    /// The number of digits is even, but not forty.
    InvalidStringLength,
}

/// The index of the first byte that is no hexadecimal digit, or the length
/// of `data` where all bytes are.
pub open spec fn first_non_hex(data: Seq<u8>) -> int
    decreases data.len(),
{
    if data.len() == 0 || hex_digit_value(data[0]) is None {
        0
    } else {
        1 + first_non_hex(data.skip(1))
    }
}

/// Why `data` is not the hexadecimal form of twenty bytes, if it is not:
/// its length is odd, or not forty, or one of its bytes is no digit, of
/// which the first is named.
pub open spec fn hex_failure(data: Seq<u8>) -> Option<HexError> {
    if data.len() % 2 != 0 {
        Some(HexError::OddLength)
    } else if data.len() != 40 {
        Some(HexError::InvalidStringLength)
    } else if first_non_hex(data) < data.len() {
        Some(
            HexError::InvalidHexCharacter {
                c: data[first_non_hex(data)] as char,
                index: first_non_hex(data) as usize,
            },
        )
    } else {
        None
    }
}

/// The first byte that is no digit is no digit, and all before it are.
pub proof fn lemma_first_non_hex(data: Seq<u8>)
    ensures
        0 <= first_non_hex(data) <= data.len(),
        first_non_hex(data) < data.len() ==> hex_digit_value(data[first_non_hex(data)]) is None,
        forall|i: int| 0 <= i < first_non_hex(data) ==> hex_digit_value(#[trigger] data[i]) is Some,
    decreases data.len(),
{
    if data.len() == 0 || hex_digit_value(data[0]) is None {
    } else {
        let rest = data.skip(1);
        lemma_first_non_hex(rest);
        assert forall|i: int| 0 <= i < first_non_hex(data) implies hex_digit_value(
            #[trigger] data[i],
        ) is Some by {
            if i > 0 {
                assert(data[i] == rest[i - 1]);
            }
        }
    }
}

/// A text fails to be the hexadecimal form of twenty bytes exactly where it
/// is not forty hexadecimal digits.
pub proof fn lemma_hex_failure(data: Seq<u8>)
    ensures
        hex_failure(data) is None <==> is_hex_text(data, 20),
{
    lemma_first_non_hex(data);
    if is_hex_text(data, 20) && first_non_hex(data) < data.len() {
        assert(hex_digit_value(data[first_non_hex(data)]) is Some);
    }
}

/// `hex::decode_to_slice` into twenty bytes. As its source has it: a text
/// of odd length is refused as such; then one whose length is not forty;
/// then the pairs of digits are decoded in order, high digit first, and the
/// first byte that is no digit of either case is refused, with its index.
#[verifier::external_body]
fn hex_decode_20(data: &[u8]) -> (decoded: Result<[u8; 20], HexError>)
    ensures
        decoded is Ok <==> hex_failure(data@) is None,
        decoded is Ok ==> decoded->Ok_0@ == hex_decoded(data@),
        decoded is Err ==> Some(decoded->Err_0) == hex_failure(data@),
{
    let mut buf = [0u8; 20];
    match hex::decode_to_slice(data, &mut buf) {
        Ok(()) => Ok(buf),
        Err(hex::FromHexError::InvalidHexCharacter { c, index }) => Err(
            HexError::InvalidHexCharacter { c, index },
        ),
        Err(hex::FromHexError::OddLength) => Err(HexError::OddLength),
        Err(hex::FromHexError::InvalidStringLength) => Err(HexError::InvalidStringLength),
    }
}

/// Why a checksum could not be read.
#[derive(Debug, Clone, Copy, PartialEq, Eq, Structural)]
pub enum Sha1SumError {
    /// The text is not forty hexadecimal digits.
    HexError(HexError),
}

/// A SHA-1 checksum.
#[derive(Debug, Clone, Copy, Hash)]
pub struct Sha1Sum(pub [u8; 20]);

impl View for Sha1Sum {
    type V = Seq<u8>;

    open spec fn view(&self) -> Seq<u8> {
        self.0@
    }
}

impl Sha1Sum {
    /// The checksum made of the given bytes.
    pub fn new(value: [u8; 20]) -> (sum: Self)
        ensures
            sum@ == value@,
    {
        Sha1Sum(value)
    }

    /// The checksum of twenty zero bytes, which stands for "unknown".
    pub fn null() -> (sum: Self)
        ensures
            sum@ == Seq::new(20, |i: int| 0u8),
            sum.is_null(),
    {
        let sum = Sha1Sum([0u8; 20]);
        assert(sum@ =~= Seq::new(20, |i: int| 0u8));
        sum
    }

    /// Whether every byte is zero.
    pub open spec fn is_null(&self) -> bool {
        forall|i: int| 0 <= i < 20 ==> self@[i] == 0
    }

    /// Whether this is the checksum that stands for "unknown".
    pub fn is_unknown(&self) -> (unknown: bool)
        ensures
            unknown == self.is_null(),
    {
        let mut i: usize = 0;
        while i < 20
            invariant
                i <= 20,
                forall|j: int| 0 <= j < i ==> self@[j] == 0,
            decreases 20 - i,
        {
            if self.0[i] != 0 {
                assert(self@[i as int] != 0);
                return false;
            }
            i += 1;
        }
        true
    }

    /// The checksum of everything that `value` holds.
    pub fn from_reader(value: &[u8]) -> (sum: Self)
        ensures
            sum@ == sha1_digest(value@),
    {
        Sha1Sum(sha1_of(value))
    }

    /// Reads a checksum from the bytes of forty hexadecimal digits of
    /// either case.
    pub fn from_hex(data: &[u8]) -> (parsed: Result<Sha1Sum, Sha1SumError>)
        ensures
            parsed is Ok <==> is_hex_text(data@, 20),
            parsed is Ok ==> parsed->Ok_0@ == hex_decoded(data@),
            parsed is Err ==> Some(parsed->Err_0->HexError_0) == hex_failure(data@),
    {
        proof {
            lemma_hex_failure(data@);
        }
        match hex_decode_20(data) {
            Ok(bytes) => Ok(Sha1Sum(bytes)),
            Err(error) => Err(Sha1SumError::HexError(error)),
        }
    }

    /// Reads a checksum from forty hexadecimal digits of either case.
    pub fn try_from(value: &str) -> (parsed: Result<Sha1Sum, Sha1SumError>)
        ensures
            parsed is Ok <==> is_hex_text(value.spec_bytes(), 20),
            parsed is Ok ==> parsed->Ok_0@ == hex_decoded(value.spec_bytes()),
            parsed is Err ==> Some(parsed->Err_0->HexError_0) == hex_failure(value.spec_bytes()),
    {
        Sha1Sum::from_hex(value.as_bytes())
    }

    /// The forty lower-case hexadecimal digits of the checksum.
    pub fn to_string(&self) -> (text: String)
        ensures
            text@ == hex_encoded(self@),
            text@.len() == 40,
    {
        hex_encode(self.0.as_slice())
    }
}

impl PartialEq for Sha1Sum {
    fn eq(&self, other: &Sha1Sum) -> (equal: bool) {
        let mut i: usize = 0;
        while i < 20
            invariant
                i <= 20,
                forall|j: int| 0 <= j < i ==> self@[j] == other@[j],
            decreases 20 - i,
        {
            if self.0[i] != other.0[i] {
                return false;
            }
            i += 1;
        }
        assert(self@ =~= other@);
        true
    }
}

impl vstd::std_specs::cmp::PartialEqSpecImpl for Sha1Sum {
    open spec fn obeys_eq_spec() -> bool {
        true
    }

    open spec fn eq_spec(&self, other: &Sha1Sum) -> bool {
        self@ == other@
    }
}

impl Eq for Sha1Sum {

}

} // verus!
