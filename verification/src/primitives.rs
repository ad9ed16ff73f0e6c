//! Addresses and hashes, and their hexadecimal text.

use vstd::prelude::*;
use crate::error::ErrorKind;

verus! {

/// The number that bytes stand for, most significant byte first.
pub open spec fn be_value(bytes: Seq<u8>) -> nat
    decreases bytes.len(),
{
    if bytes.len() == 0 {
        0
    } else {
        be_value(bytes.drop_last()) * 256 + bytes.last() as nat
    }
}

/// The value of one hexadecimal digit, of either case.
pub open spec fn hex_digit(c: u8) -> Option<nat> {
    if 0x30 <= c <= 0x39 {
        Some((c - 0x30) as nat)
    } else if 0x61 <= c <= 0x66 {
        Some((c - 0x61 + 10) as nat)
    } else if 0x41 <= c <= 0x46 {
        Some((c - 0x41 + 10) as nat)
    } else {
        None
    }
}

/// Whether the text begins with `0x`.
pub open spec fn has_hex_prefix(text: Seq<u8>) -> bool {
    text.len() >= 2 && text[0] == 0x30 && text[1] == 0x78
}

/// Whether every byte of the text is a hexadecimal digit.
pub open spec fn all_hex_digits(text: Seq<u8>) -> bool {
    forall|i: int| 0 <= i < text.len() ==> (#[trigger] hex_digit(text[i])).is_some()
}

/// The bytes that pairs of digits stand for, the first digit of a pair
/// being the high half of its byte.
pub open spec fn hex_bytes(digits: Seq<u8>) -> Seq<u8> {
    Seq::new(
        digits.len() / 2,
        |i: int| (hex_digit(digits[2 * i]).unwrap() * 16 + hex_digit(digits[2 * i + 1]).unwrap()) as u8,
    )
}

/// Whether the text is `0x` and then exactly `len` bytes as pairs of
/// digits.
pub open spec fn is_fixed_hex(text: Seq<u8>, len: nat) -> bool {
    has_hex_prefix(text) && text.len() == 2 + 2 * len && all_hex_digits(text.skip(2))
}

/// The sixteen lower-case digits, in order.
pub open spec fn lower_digits() -> Seq<char> {
    seq!['0', '1', '2', '3', '4', '5', '6', '7', '8', '9', 'a', 'b', 'c', 'd', 'e', 'f']
}

/// Bytes as lower-case hexadecimal text, two digits to a byte, high half
/// first.
pub open spec fn hex_lower(bytes: Seq<u8>) -> Seq<char> {
    Seq::new(
        2 * bytes.len(),
        |i: int|
            if i % 2 == 0 {
                lower_digits()[bytes[i / 2] as int / 16]
            } else {
                lower_digits()[bytes[i / 2] as int % 16]
            },
    )
}

/// The lower-case digit of a half byte, as a byte of text.
pub open spec fn lower_digit(half: u8) -> u8 {
    if half < 10 {
        (0x30 + half) as u8
    } else {
        (0x57 + half) as u8
    }
}

/// Half byte `i` of bytes, the high half of a byte before its low half.
pub open spec fn half_byte(bytes: Seq<u8>, i: int) -> u8 {
    if i % 2 == 0 {
        bytes[i / 2] / 16
    } else {
        bytes[i / 2] % 16
    }
}

/// Bytes as lower-case hexadecimal text, held as bytes of text.
pub open spec fn lower_hex_text(bytes: Seq<u8>) -> Seq<u8> {
    Seq::new(2 * bytes.len(), |i: int| lower_digit(half_byte(bytes, i)))
}

/// The checksummed text of an address: `0x`, and the forty lower-case
/// digits with each letter raised to upper case where the matching half
/// byte of the Keccak-256 hash of those forty digits is eight or more.
pub open spec fn checksum_text(address: Seq<u8>) -> Seq<u8> {
    let digits = lower_hex_text(address);
    let hash = keccak256(digits);
    seq![0x30u8, 0x78u8] + Seq::new(
        40,
        |i: int|
            if digits[i] >= 0x61 && half_byte(hash, i) >= 8 {
                (digits[i] - 0x20) as u8
            } else {
                digits[i]
            },
    )
}

/// `hex::encode`: two lower-case digits for every byte, in order.
#[verifier::external_body]
fn hex_encode(bytes: &[u8]) -> (r: String)
    ensures
        r@ == hex_lower(bytes@),
{
    hex::encode(bytes)
}

/// The value of a digit, or `None` for a byte that is no digit.
pub fn digit_value(c: u8) -> (r: Option<u8>)
    ensures
        r.is_some() == hex_digit(c).is_some(),
        r.is_some() ==> r.unwrap() == hex_digit(c).unwrap() && r.unwrap() < 16,
{
    if 0x30 <= c && c <= 0x39 {
        Some(c - 0x30)
    } else if 0x61 <= c && c <= 0x66 {
        Some(c - 0x61 + 10)
    } else if 0x41 <= c && c <= 0x46 {
        Some(c - 0x41 + 10)
    } else {
        None
    }
}

/// Reads `0x` and `len` bytes as pairs of digits, or `None` where the
/// text is anything else.
pub fn decode_fixed_hex(text: &[u8], len: usize) -> (r: Option<Vec<u8>>)
    ensures
        r.is_some() == is_fixed_hex(text@, len as nat),
        r.is_some() ==> r.unwrap()@ == hex_bytes(text@.skip(2)),
{
    let total = text.len();
    if len > (usize::MAX - 2) / 2 {
        return None;
    }
    if total != 2 + 2 * len || text[0] != 0x30 || text[1] != 0x78 {
        return None;
    }
    let ghost digits = text@.skip(2);
    let mut out: Vec<u8> = Vec::new();
    let mut i: usize = 0;
    while i < len
        invariant
            i <= len,
            text@.len() == 2 + 2 * len <= usize::MAX,
            digits == text@.skip(2),
            out@.len() == i,
            forall|j: int| 0 <= j < 2 * i ==> (#[trigger] hex_digit(digits[j])).is_some(),
            forall|k: int| 0 <= k < i ==> #[trigger] out@[k] == hex_bytes(digits)[k],
        decreases len - i,
    {
        let high = digit_value(text[2 + 2 * i]);
        let low = digit_value(text[3 + 2 * i]);
        assert(digits[2 * i as int] == text@[2 + 2 * i as int]);
        assert(digits[2 * i as int + 1] == text@[3 + 2 * i as int]);
        match (high, low) {
            (Some(h), Some(l)) => {
                out.push(h * 16 + l);
            },
            _ => {
                assert(!all_hex_digits(digits));
                return None;
            },
        }
        i += 1;
    }
    assert(out@ =~= hex_bytes(digits));
    Some(out)
}

/// The account or contract that twenty bytes name.
#[derive(Clone, Copy, Debug, PartialEq, Eq)]
pub struct Address {
    pub bytes: [u8; 20],
}

impl View for Address {
    type V = Seq<u8>;

    open spec fn view(&self) -> Seq<u8> {
        self.bytes@
    }
}

impl Address {
    /// The address that `0x` and forty digits of either case stand for;
    /// `DecodeError` for any other text.
    pub fn from_hex(text: &[u8]) -> (r: Result<Address, ErrorKind>)
        ensures
            r.is_ok() == is_fixed_hex(text@, 20),
            r.is_ok() ==> r.unwrap()@ == hex_bytes(text@.skip(2)),
            r.is_err() ==> r == Err::<Address, ErrorKind>(ErrorKind::DecodeError),
    {
        match decode_fixed_hex(text, 20) {
            None => Err(ErrorKind::DecodeError),
            Some(v) => {
                let mut bytes = [0u8; 20];
                let mut i: usize = 0;
                while i < 20
                    invariant
                        i <= 20,
                        v@.len() == 20,
                        forall|k: int| 0 <= k < i ==> bytes@[k] == v@[k],
                    decreases 20 - i,
                {
                    bytes[i] = v[i];
                    i += 1;
                }
                assert(bytes@ =~= v@);
                Ok(Address { bytes })
            },
        }
    }

    /// Whether two addresses hold the same bytes.
    pub fn same_as(&self, other: &Address) -> (r: bool)
        ensures
            r == (self@ == other@),
    {
        let mut i: usize = 0;
        while i < 20
            invariant
                i <= 20,
                forall|k: int| 0 <= k < i ==> self.bytes@[k] == other.bytes@[k],
            decreases 20 - i,
        {
            if self.bytes[i] != other.bytes[i] {
                return false;
            }
            i += 1;
        }
        assert(self.bytes@ =~= other.bytes@);
        true
    }

    /// The forty lower-case digits of the address, without a prefix.
    pub fn to_hex(&self) -> (r: String)
        ensures
            r@ == hex_lower(self@),
    {
        hex_encode(self.bytes.as_slice())
    }

    /// The checksummed text of the address: `0x` and forty digits whose
    /// case carries a checksum.
    pub fn to_checksum(&self) -> (r: Vec<u8>)
        ensures
            r@ == checksum_text(self@),
    {
        let mut digits: Vec<u8> = Vec::new();
        let mut i: usize = 0;
        while i < 20
            invariant
                i <= 20,
                digits@.len() == 2 * i,
                forall|k: int| 0 <= k < 2 * i ==> digits@[k] == lower_hex_text(self@)[k],
            decreases 20 - i,
        {
            let byte = self.bytes[i];
            digits.push(lower_digit_of(byte / 16));
            digits.push(lower_digit_of(byte % 16));
            i += 1;
        }
        assert(digits@ =~= lower_hex_text(self@));
        let hash = keccak256_of(digits.as_slice());
        let mut out: Vec<u8> = Vec::new();
        out.push(0x30);
        out.push(0x78);
        let mut j: usize = 0;
        while j < 40
            invariant
                j <= 40,
                digits@ == lower_hex_text(self@),
                hash@ == keccak256(digits@),
                out@.len() == 2 + j,
                out@[0] == 0x30u8,
                out@[1] == 0x78u8,
                forall|k: int| 2 <= k < 2 + j ==> out@[k] == checksum_text(self@)[k],
            decreases 40 - j,
        {
            let byte = hash.bytes[j / 2];
            let half = if j % 2 == 0 {
                byte / 16
            } else {
                byte % 16
            };
            let digit = digits[j];
            if digit >= 0x61 && half >= 8 {
                out.push(digit - 0x20);
            } else {
                out.push(digit);
            }
            j += 1;
        }
        assert(out@ =~= checksum_text(self@));
        out
    }

    /// The address that a checksummed text stands for; `DecodeError`
    /// where the text is no address or the case of a letter is not what
    /// the checksum asks for.
    pub fn from_checksum(text: &[u8]) -> (r: Result<Address, ErrorKind>)
        ensures
            r.is_ok() == (is_fixed_hex(text@, 20) && text@ == checksum_text(
                hex_bytes(text@.skip(2)),
            )),
            r.is_ok() ==> r.unwrap()@ == hex_bytes(text@.skip(2)),
            r.is_err() ==> r == Err::<Address, ErrorKind>(ErrorKind::DecodeError),
    {
        let address = match Address::from_hex(text) {
            Ok(a) => a,
            Err(e) => {
                return Err(e);
            },
        };
        let expected = address.to_checksum();
        let mut i: usize = 0;
        while i < 42
            invariant
                i <= 42,
                text@.len() == 42,
                expected@ == checksum_text(hex_bytes(text@.skip(2))),
                expected@.len() == 42,
                forall|k: int| 0 <= k < i ==> text@[k] == expected@[k],
            decreases 42 - i,
        {
            if text[i] != expected[i] {
                assert(text@[i as int] != checksum_text(hex_bytes(text@.skip(2)))[i as int]);
                return Err(ErrorKind::DecodeError);
            }
            i += 1;
        }
        assert(text@ =~= expected@);
        Ok(address)
    }
}

/// The lower-case digit of a half byte.
fn lower_digit_of(half: u8) -> (r: u8)
    requires
        half < 16,
    ensures
        r == lower_digit(half),
        hex_digit(r) == Some(half as nat),
{
    if half < 10 {
        0x30 + half
    } else {
        0x57 + half
    }
}

/// A 32-byte hash: of a block, or of a transaction.
#[derive(Clone, Copy, Debug, PartialEq, Eq)]
pub struct Hash32 {
    pub bytes: [u8; 32],
}

impl View for Hash32 {
    type V = Seq<u8>;

    open spec fn view(&self) -> Seq<u8> {
        self.bytes@
    }
}

impl Hash32 {
    /// The hash that `0x` and sixty-four digits of either case stand for;
    /// `DecodeError` for any other text.
    pub fn from_hex(text: &[u8]) -> (r: Result<Hash32, ErrorKind>)
        ensures
            r.is_ok() == is_fixed_hex(text@, 32),
            r.is_ok() ==> r.unwrap()@ == hex_bytes(text@.skip(2)),
            r.is_err() ==> r == Err::<Hash32, ErrorKind>(ErrorKind::DecodeError),
    {
        match decode_fixed_hex(text, 32) {
            None => Err(ErrorKind::DecodeError),
            Some(v) => {
                let mut bytes = [0u8; 32];
                let mut i: usize = 0;
                while i < 32
                    invariant
                        i <= 32,
                        v@.len() == 32,
                        forall|k: int| 0 <= k < i ==> bytes@[k] == v@[k],
                    decreases 32 - i,
                {
                    bytes[i] = v[i];
                    i += 1;
                }
                assert(bytes@ =~= v@);
                Ok(Hash32 { bytes })
            },
        }
    }

    /// Whether two hashes hold the same bytes.
    pub fn same_as(&self, other: &Hash32) -> (r: bool)
        ensures
            r == (self@ == other@),
    {
        let mut i: usize = 0;
        while i < 32
            invariant
                i <= 32,
                forall|k: int| 0 <= k < i ==> self.bytes@[k] == other.bytes@[k],
            decreases 32 - i,
        {
            if self.bytes[i] != other.bytes[i] {
                return false;
            }
            i += 1;
        }
        assert(self.bytes@ =~= other.bytes@);
        true
    }

    /// The sixty-four lower-case digits of the hash, without a prefix.
    pub fn to_hex(&self) -> (r: String)
        ensures
            r@ == hex_lower(self@),
    {
        hex_encode(self.bytes.as_slice())
    }
}

/// The Keccak-256 hash of bytes.
pub uninterp spec fn keccak256(bytes: Seq<u8>) -> Seq<u8>;

/// `ethers_core::utils::keccak256`: the Keccak-256 hash of bytes. The
/// contract only gives the result its name.
#[verifier::external_body]
pub(crate) fn keccak256_of(bytes: &[u8]) -> (r: Hash32)
    ensures
        r@ == keccak256(bytes@),
{
    Hash32 { bytes: ethers_core::utils::keccak256(bytes) }
}

} // verus!
