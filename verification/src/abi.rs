//! The contract ABI as far as the client speaks it: 32-byte words, the
//! calls of the aggregation contract, and the decoding of what a call
//! returns.

use vstd::prelude::*;
use crate::amount::{u256_from_big_endian, Wei};
use crate::error::ErrorKind;
use crate::primitives::{be_value, keccak256, keccak256_of, Address, Hash32};

verus! {

/// Byte `k` of a 64-bit number, byte zero being the least significant.
pub open spec fn byte_of(x: u64, k: int) -> u8 {
    ((x >> ((8 * k) as u64)) & 0xff) as u8
}

/// A 64-bit number as a word: thirty-two bytes, most significant first.
pub open spec fn word_u64(x: u64) -> Seq<u8> {
    Seq::new(
        32,
        |i: int|
            if i < 24 {
                0u8
            } else {
                byte_of(x, 31 - i)
            },
    )
}

/// The word that starts at a position of the data.
pub open spec fn word_at(data: Seq<u8>, pos: int) -> Seq<u8> {
    data.subrange(pos, pos + 32)
}

/// A length rounded up to whole words.
pub open spec fn padded(len: int) -> int {
    (len + 31) / 32 * 32
}

/// Two numbers with the same word are the same number.
pub proof fn lemma_word_injective(a: u64, b: u64)
    requires
        word_u64(a) == word_u64(b),
    ensures
        a == b,
{
    assert forall|k: int| 0 <= k < 8 implies byte_of(a, k) == byte_of(b, k) by {
        assert(word_u64(a)[31 - k] == byte_of(a, k));
        assert(word_u64(b)[31 - k] == byte_of(b, k));
    }
    assert(byte_of(a, 0) == byte_of(b, 0) && byte_of(a, 1) == byte_of(b, 1) && byte_of(a, 2)
        == byte_of(b, 2) && byte_of(a, 3) == byte_of(b, 3) && byte_of(a, 4) == byte_of(b, 4)
        && byte_of(a, 5) == byte_of(b, 5) && byte_of(a, 6) == byte_of(b, 6) && byte_of(a, 7)
        == byte_of(b, 7));
    assert(a == b) by (bit_vector)
        requires
            ((a >> 0u64) & 0xff) as u8 == ((b >> 0u64) & 0xff) as u8,
            ((a >> 8u64) & 0xff) as u8 == ((b >> 8u64) & 0xff) as u8,
            ((a >> 16u64) & 0xff) as u8 == ((b >> 16u64) & 0xff) as u8,
            ((a >> 24u64) & 0xff) as u8 == ((b >> 24u64) & 0xff) as u8,
            ((a >> 32u64) & 0xff) as u8 == ((b >> 32u64) & 0xff) as u8,
            ((a >> 40u64) & 0xff) as u8 == ((b >> 40u64) & 0xff) as u8,
            ((a >> 48u64) & 0xff) as u8 == ((b >> 48u64) & 0xff) as u8,
            ((a >> 56u64) & 0xff) as u8 == ((b >> 56u64) & 0xff) as u8,
    ;
}

/// Appends the word of a 64-bit number.
pub fn push_word(out: &mut Vec<u8>, x: u64)
    ensures
        final(out)@ == old(out)@ + word_u64(x),
{
    let ghost before = out@;
    let ghost word = word_u64(x);
    let mut i: usize = 0;
    while i < 24
        invariant
            i <= 24,
            word == word_u64(x),
            out@ == before + word.take(i as int),
        decreases 24 - i,
    {
        out.push(0u8);
        assert(out@ =~= before + word.take(i + 1));
        i += 1;
    }
    let mut j: usize = 0;
    while j < 8
        invariant
            j <= 8,
            word == word_u64(x),
            out@ == before + word.take(24 + j),
        decreases 8 - j,
    {
        let shift: u64 = 8 * (7 - j as u64);
        let byte: u64 = (x >> shift) & 0xff;
        assert(byte <= 0xff) by (bit_vector)
            requires
                byte == (x >> shift) & 0xff,
        ;
        out.push(byte as u8);
        assert(word[24 + j] == byte_of(x, 7 - j));
        assert(out@ =~= before + word.take(24 + j + 1));
        j += 1;
    }
    assert(word.take(32) =~= word);
    assert(out@ =~= before + word_u64(x));
}

/// Reads the word at a position as a 64-bit number: `None` where the
/// data ends before the word does, or where the word is that of no 64-bit
/// number.
pub fn read_word(data: &[u8], pos: usize) -> (r: Option<u64>)
    ensures
        r.is_some() ==> pos + 32 <= data@.len() && word_at(data@, pos as int) == word_u64(r.unwrap()),
        r.is_none() ==> pos + 32 > data@.len() || forall|x: u64|
            word_at(data@, pos as int) != #[trigger] word_u64(x),
{
    if data.len() < 32 || pos > data.len() - 32 {
        return None;
    }
    let ghost word = word_at(data@, pos as int);
    let mut i: usize = 0;
    while i < 24
        invariant
            i <= 24,
            pos + 32 <= data@.len() <= usize::MAX,
            word == word_at(data@, pos as int),
            forall|k: int| 0 <= k < i ==> word[k] == 0u8,
        decreases 24 - i,
    {
        if data[pos + i] != 0 {
            assert(word[i as int] != 0u8);
            assert forall|x: u64| word != #[trigger] word_u64(x) by {
                assert(word_u64(x)[i as int] == 0u8);
            }
            return None;
        }
        i += 1;
    }
    let b0: u64 = data[pos + 24] as u64;
    let b1: u64 = data[pos + 25] as u64;
    let b2: u64 = data[pos + 26] as u64;
    let b3: u64 = data[pos + 27] as u64;
    let b4: u64 = data[pos + 28] as u64;
    let b5: u64 = data[pos + 29] as u64;
    let b6: u64 = data[pos + 30] as u64;
    let b7: u64 = data[pos + 31] as u64;
    let x: u64 = (b0 << 56) | (b1 << 48) | (b2 << 40) | (b3 << 32) | (b4 << 24) | (b5 << 16) | (b6
        << 8) | b7;
    proof {
        assert(((x >> 56u64) & 0xff) == b0 && ((x >> 48u64) & 0xff) == b1 && ((x >> 40u64) & 0xff)
            == b2 && ((x >> 32u64) & 0xff) == b3 && ((x >> 24u64) & 0xff) == b4 && ((x >> 16u64)
            & 0xff) == b5 && ((x >> 8u64) & 0xff) == b6 && ((x >> 0u64) & 0xff) == b7)
            by (bit_vector)
            requires
                x == (b0 << 56) | (b1 << 48) | (b2 << 40) | (b3 << 32) | (b4 << 24) | (b5 << 16)
                    | (b6 << 8) | b7,
                b0 <= 0xff,
                b1 <= 0xff,
                b2 <= 0xff,
                b3 <= 0xff,
                b4 <= 0xff,
                b5 <= 0xff,
                b6 <= 0xff,
                b7 <= 0xff,
        ;
        assert(word =~= word_u64(x));
    }
    Some(x)
}

/// An address as a word: twelve zero bytes, then the twenty of the
/// address.
pub open spec fn word_address(address: Seq<u8>) -> Seq<u8> {
    Seq::new(
        32,
        |i: int|
            if i < 12 {
                0u8
            } else {
                address[i - 12]
            },
    )
}

/// The four bytes of a selector, most significant first.
pub open spec fn selector_bytes(selector: u32) -> Seq<u8> {
    seq![
        ((selector >> 24) & 0xff) as u8,
        ((selector >> 16) & 0xff) as u8,
        ((selector >> 8) & 0xff) as u8,
        (selector & 0xff) as u8,
    ]
}

/// Selector of `aggregate((address,bytes)[])`.
pub const AGGREGATE: u32 = 0x252dba42;

/// Selector of `getBlockNumber()`.
pub const GET_BLOCK_NUMBER: u32 = 0x42cbb15c;

/// Selector of `getBlockHash(uint256)`.
pub const GET_BLOCK_HASH: u32 = 0xee82ac5e;

/// Selector of `getCurrentBlockCoinbase()`.
pub const GET_CURRENT_BLOCK_COINBASE: u32 = 0xa8b0574e;

/// Selector of `getEthBalance(address)`.
pub const GET_ETH_BALANCE: u32 = 0x4d2301cc;

/// Selector of `getLastBlockHash()`.
pub const GET_LAST_BLOCK_HASH: u32 = 0x27e86d6e;

/// Appends the four bytes of a selector.
pub fn push_selector(out: &mut Vec<u8>, selector: u32)
    ensures
        final(out)@ == old(out)@ + selector_bytes(selector),
{
    let b0: u32 = (selector >> 24) & 0xff;
    let b1: u32 = (selector >> 16) & 0xff;
    let b2: u32 = (selector >> 8) & 0xff;
    let b3: u32 = selector & 0xff;
    assert(b0 <= 0xff && b1 <= 0xff && b2 <= 0xff && b3 <= 0xff) by (bit_vector)
        requires
            b0 == (selector >> 24) & 0xff,
            b1 == (selector >> 16) & 0xff,
            b2 == (selector >> 8) & 0xff,
            b3 == selector & 0xff,
    ;
    out.push(b0 as u8);
    out.push(b1 as u8);
    out.push(b2 as u8);
    out.push(b3 as u8);
    assert(out@ =~= old(out)@ + selector_bytes(selector));
}

/// Appends an address as a word.
pub fn push_address(out: &mut Vec<u8>, address: &Address)
    ensures
        final(out)@ == old(out)@ + word_address(address@),
{
    let ghost before = out@;
    let ghost word = word_address(address@);
    let mut i: usize = 0;
    while i < 12
        invariant
            i <= 12,
            word == word_address(address@),
            out@ == before + word.take(i as int),
        decreases 12 - i,
    {
        out.push(0u8);
        assert(out@ =~= before + word.take(i + 1));
        i += 1;
    }
    let mut j: usize = 0;
    while j < 20
        invariant
            j <= 20,
            word == word_address(address@),
            out@ == before + word.take(12 + j),
        decreases 20 - j,
    {
        out.push(address.bytes[j]);
        assert(out@ =~= before + word.take(12 + j + 1));
        j += 1;
    }
    assert(word.take(32) =~= word);
}

/// Appends the bytes of a slice.
pub fn push_bytes(out: &mut Vec<u8>, bytes: &[u8])
    ensures
        final(out)@ == old(out)@ + bytes@,
{
    let ghost before = out@;
    let mut i: usize = 0;
    while i < bytes.len()
        invariant
            i <= bytes@.len(),
            out@ == before + bytes@.take(i as int),
        decreases bytes@.len() - i,
    {
        out.push(bytes[i]);
        assert(out@ =~= before + bytes@.take(i + 1));
        i += 1;
    }
    assert(bytes@.take(bytes@.len() as int) =~= bytes@);
}

/// The bytes of the data from a position on, `len` of them.
pub(crate) fn copy_range(data: &[u8], start: usize, len: usize) -> (r: Vec<u8>)
    requires
        start + len <= data@.len(),
    ensures
        r@ == data@.subrange(start as int, start + len),
{
    let total = data.len();
    let mut out: Vec<u8> = Vec::new();
    let mut i: usize = 0;
    while i < len
        invariant
            i <= len,
            start + len <= data@.len() == total,
            out@ == data@.subrange(start as int, start + i),
        decreases len - i,
    {
        out.push(data[start + i]);
        assert(out@ =~= data@.subrange(start as int, start + i + 1));
        i += 1;
    }
    out
}

/// Whether every byte of a range of the data is zero.
pub(crate) fn all_zero(data: &[u8], start: usize, end: usize) -> (r: bool)
    requires
        start <= end <= data@.len(),
    ensures
        r == (forall|k: int| start <= k < end ==> data@[k] == 0u8),
{
    let mut i: usize = start;
    while i < end
        invariant
            start <= i <= end <= data@.len(),
            forall|k: int| start <= k < i ==> data@[k] == 0u8,
        decreases end - i,
    {
        if data[i] != 0 {
            return false;
        }
        i += 1;
    }
    true
}

/// A read-only call that the aggregation contract answers itself.
#[derive(Clone, Copy, Debug, PartialEq, Eq)]
pub enum ReadCall {
    /// The number of the current block.
    BlockNumber,
    /// The hash of the block with a number.
    BlockHash { number: u64 },
    /// The address that the current block pays.
    Coinbase,
    /// The balance of an account.
    EthBalance { account: Address },
    /// The hash of the block before the current one.
    LastBlockHash,
}

/// How the bytes that a call returns are read.
#[derive(Clone, Copy, Debug, PartialEq, Eq, Structural)]
pub enum Decoder {
    Uint256,
    Address,
    Bytes32,
}

/// A value that a call returned.
#[derive(Clone, Copy, Debug, PartialEq, Eq)]
pub enum Decoded {
    Uint256(Wei),
    Address(Address),
    Bytes32(Hash32),
}

/// The bytes to send for a read call: the selector, and the argument as
/// one word where the call takes one.
pub open spec fn call_data_of(call: ReadCall) -> Seq<u8> {
    match call {
        ReadCall::BlockNumber => selector_bytes(GET_BLOCK_NUMBER),
        ReadCall::BlockHash { number } => selector_bytes(GET_BLOCK_HASH) + word_u64(number),
        ReadCall::Coinbase => selector_bytes(GET_CURRENT_BLOCK_COINBASE),
        ReadCall::EthBalance { account } => selector_bytes(GET_ETH_BALANCE) + word_address(account@),
        ReadCall::LastBlockHash => selector_bytes(GET_LAST_BLOCK_HASH),
    }
}

/// How the answer to a read call is read.
pub open spec fn decoder_of(call: ReadCall) -> Decoder {
    match call {
        ReadCall::BlockNumber => Decoder::Uint256,
        ReadCall::BlockHash { .. } => Decoder::Bytes32,
        ReadCall::Coinbase => Decoder::Address,
        ReadCall::EthBalance { .. } => Decoder::Uint256,
        ReadCall::LastBlockHash => Decoder::Bytes32,
    }
}

impl ReadCall {
    /// The bytes to send for this call.
    pub fn call_data(&self) -> (r: Vec<u8>)
        ensures
            r@ == call_data_of(*self),
    {
        let mut out: Vec<u8> = Vec::new();
        match self {
            ReadCall::BlockNumber => {
                push_selector(&mut out, GET_BLOCK_NUMBER);
            },
            ReadCall::BlockHash { number } => {
                push_selector(&mut out, GET_BLOCK_HASH);
                push_word(&mut out, *number);
            },
            ReadCall::Coinbase => {
                push_selector(&mut out, GET_CURRENT_BLOCK_COINBASE);
            },
            ReadCall::EthBalance { account } => {
                push_selector(&mut out, GET_ETH_BALANCE);
                push_address(&mut out, account);
            },
            ReadCall::LastBlockHash => {
                push_selector(&mut out, GET_LAST_BLOCK_HASH);
            },
        }
        assert(out@ =~= call_data_of(*self));
        out
    }

    /// How the answer to this call is read.
    pub fn decoder(&self) -> (r: Decoder)
        ensures
            r == decoder_of(*self),
    {
        match self {
            ReadCall::BlockNumber => Decoder::Uint256,
            ReadCall::BlockHash { .. } => Decoder::Bytes32,
            ReadCall::Coinbase => Decoder::Address,
            ReadCall::EthBalance { .. } => Decoder::Uint256,
            ReadCall::LastBlockHash => Decoder::Bytes32,
        }
    }
}

/// Whether bytes are a value of the kind that a decoder reads: one word,
/// and for an address one whose first twelve bytes are zero.
pub open spec fn decodable(decoder: Decoder, raw: Seq<u8>) -> bool {
    raw.len() == 32 && (decoder == Decoder::Address ==> forall|k: int| 0 <= k < 12 ==> raw[k] == 0u8)
}

/// Whether a value is what a decoder reads from a word.
pub open spec fn decoded_from(decoder: Decoder, raw: Seq<u8>, value: Decoded) -> bool {
    match decoder {
        Decoder::Uint256 => value matches Decoded::Uint256(v) && v@ == be_value(raw),
        Decoder::Address => value matches Decoded::Address(a) && a@ == raw.subrange(12, 32),
        Decoder::Bytes32 => value matches Decoded::Bytes32(h) && h@ == raw,
    }
}

/// Reads the bytes that a call returned as a value of one kind;
/// `DecodeError` where they are no such value.
pub fn decode_value(decoder: Decoder, raw: &[u8]) -> (r: Result<Decoded, ErrorKind>)
    ensures
        r.is_ok() == decodable(decoder, raw@),
        r.is_ok() ==> decoded_from(decoder, raw@, r.unwrap()),
        r.is_err() ==> r == Err::<Decoded, ErrorKind>(ErrorKind::DecodeError),
{
    if raw.len() != 32 {
        return Err(ErrorKind::DecodeError);
    }
    match decoder {
        Decoder::Uint256 => {
            let word = word_array(raw, 0);
            assert(raw@.subrange(0, 32) =~= raw@);
            Ok(Decoded::Uint256(u256_from_big_endian(&word)))
        },
        Decoder::Bytes32 => {
            let word = word_array(raw, 0);
            assert(raw@.subrange(0, 32) =~= raw@);
            Ok(Decoded::Bytes32(Hash32 { bytes: word }))
        },
        Decoder::Address => {
            if !all_zero(raw, 0, 12) {
                return Err(ErrorKind::DecodeError);
            }
            let mut bytes = [0u8; 20];
            let mut i: usize = 0;
            while i < 20
                invariant
                    i <= 20,
                    raw@.len() == 32,
                    forall|k: int| 0 <= k < i ==> bytes@[k] == raw@[12 + k],
                decreases 20 - i,
            {
                bytes[i] = raw[12 + i];
                i += 1;
            }
            assert(bytes@ =~= raw@.subrange(12, 32));
            Ok(Decoded::Address(Address { bytes }))
        },
    }
}

/// The word at a position of the data, as an array.
pub(crate) fn word_array(data: &[u8], pos: usize) -> (r: [u8; 32])
    requires
        pos + 32 <= data@.len(),
    ensures
        r@ == word_at(data@, pos as int),
{
    let total = data.len();
    let mut word = [0u8; 32];
    let mut i: usize = 0;
    while i < 32
        invariant
            i <= 32,
            pos + 32 <= data@.len() == total,
            forall|k: int| 0 <= k < i ==> word@[k] == data@[pos + k],
        decreases 32 - i,
    {
        word[i] = data[pos + i];
        i += 1;
    }
    assert(word@ =~= word_at(data@, pos as int));
    word
}

/// The selector of a function: the first four bytes of the Keccak-256
/// hash of its signature, such as `transfer(address,uint256)`.
pub fn function_selector(signature: &[u8]) -> (r: [u8; 4])
    ensures
        r@ == keccak256(signature@).subrange(0, 4),
{
    let hash = keccak256_of(signature);
    let r = [hash.bytes[0], hash.bytes[1], hash.bytes[2], hash.bytes[3]];
    assert(r@ =~= keccak256(signature@).subrange(0, 4));
    r
}

/// Whether the data is what a call returns for one string or one run of
/// bytes: the place of the bytes, their length, the bytes, zeros up to
/// a whole word, and nothing more.
pub open spec fn is_bytes_return(data: Seq<u8>, bytes: Seq<u8>) -> bool {
    let len = bytes.len() as int;
    &&& len <= u64::MAX
    &&& data.len() == 64 + padded(len)
    &&& word_at(data, 0) == word_u64(32)
    &&& word_at(data, 32) == word_u64(len as u64)
    &&& data.subrange(64, 64 + len) == bytes
    &&& forall|k: int| 64 + len <= k < 64 + padded(len) ==> data[k] == 0u8
}

/// Whether the data is the return of no string and of no run of bytes.
pub open spec fn no_bytes_return(data: Seq<u8>) -> bool {
    forall|bytes: Seq<u8>| !#[trigger] is_bytes_return(data, bytes)
}

/// Unpacks what a call returned for one string or one run of bytes;
/// `DecodeError` where the data is not laid out so.
pub fn decode_bytes_return(data: &[u8]) -> (r: Result<Vec<u8>, ErrorKind>)
    ensures
        r.is_ok() ==> is_bytes_return(data@, r.unwrap()@),
        r.is_err() ==> r == Err::<Vec<u8>, ErrorKind>(ErrorKind::DecodeError) && no_bytes_return(
            data@,
        ),
{
    let total = data.len();
    let place = read_word(data, 0);
    if place != Some(32) {
        proof {
            assert forall|bytes: Seq<u8>| !#[trigger] is_bytes_return(data@, bytes) by {
                if is_bytes_return(data@, bytes) && place.is_some() {
                    lemma_word_injective(place.unwrap(), 32);
                }
            }
        }
        return Err(ErrorKind::DecodeError);
    }
    let len64 = match read_word(data, 32) {
        Some(l) => l,
        None => {
            return Err(ErrorKind::DecodeError);
        },
    };
    proof {
        assert forall|bytes: Seq<u8>| #[trigger] is_bytes_return(data@, bytes) implies bytes.len()
            == len64 by {
            lemma_word_injective(len64, bytes.len() as u64);
        }
    }
    let room: usize = total - 64;
    if len64 > room as u64 {
        return Err(ErrorKind::DecodeError);
    }
    let len: usize = len64 as usize;
    let pad: usize = (32 - len % 32) % 32;
    assert(len + pad == padded(len as int));
    if pad != room - len {
        return Err(ErrorKind::DecodeError);
    }
    if !all_zero(data, 64 + len, 64 + len + pad) {
        return Err(ErrorKind::DecodeError);
    }
    Ok(copy_range(data, 64, len))
}

} // verus!
