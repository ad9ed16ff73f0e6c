//! The chain reader: what to ask the node, and how to read its answer.
//! The caller sends the question and hands over the text that came back.

use vstd::prelude::*;
use crate::amount::{u256_checked_add, u256_checked_mul, wei_bound, Wei};
use crate::error::ErrorKind;
use crate::primitives::{all_hex_digits, digit_value, has_hex_prefix, hex_bytes, hex_digit, is_fixed_hex, Address, Hash32};

verus! {

/// One question to the node.
#[derive(Clone, Copy, Debug, PartialEq, Eq)]
pub enum ChainQuery {
    /// The number of the latest block.
    LatestBlockNumber,
    /// The gas price that the node suggests.
    GasPrice,
    /// The id of the chain.
    ChainId,
    /// The balance of an account.
    BalanceOf { account: Address },
    /// The hash of the block with a number.
    BlockHash { number: u64 },
}

/// The answer to a question.
#[derive(Clone, Copy, Debug, PartialEq, Eq)]
pub enum ChainAnswer {
    BlockNumber { number: u64 },
    GasPrice { price: Wei },
    ChainId { id: u64 },
    Balance { balance: Wei },
    BlockHash { hash: Hash32 },
}

/// The number that hexadecimal digits stand for, most significant digit
/// first.
pub open spec fn hex_value(digits: Seq<u8>) -> nat
    decreases digits.len(),
{
    if digits.len() == 0 {
        0
    } else {
        hex_value(digits.drop_last()) * 16 + hex_digit(digits.last()).unwrap()
    }
}

/// Whether the text is a quantity as the node writes it: `0x`, and then
/// one hexadecimal digit or more.
pub open spec fn is_quantity(text: Seq<u8>) -> bool {
    has_hex_prefix(text) && text.len() > 2 && all_hex_digits(text.skip(2))
}

/// The digits up to a point stand for no more than all the digits do.
pub proof fn lemma_hex_value_grows(digits: Seq<u8>, i: int)
    requires
        0 <= i <= digits.len(),
    ensures
        hex_value(digits.take(i)) <= hex_value(digits),
    decreases digits.len(),
{
    if i == digits.len() {
        assert(digits.take(i) =~= digits);
    } else {
        assert(digits.drop_last().take(i) =~= digits.take(i));
        lemma_hex_value_grows(digits.drop_last(), i);
        assert(hex_value(digits.drop_last()) * 16 >= hex_value(digits.drop_last()));
    }
}

/// Reads a quantity as an amount. `DecodeError` where the text is no
/// quantity, or stands for a number that needs more than 256 bits.
pub fn decode_quantity(text: &[u8]) -> (r: Result<Wei, ErrorKind>)
    ensures
        r.is_ok() == (is_quantity(text@) && hex_value(text@.skip(2)) < wei_bound()),
        r.is_ok() ==> r.unwrap()@ == hex_value(text@.skip(2)),
        r.is_err() ==> r == Err::<Wei, ErrorKind>(ErrorKind::DecodeError),
{
    let total = text.len();
    if total <= 2 || text[0] != 0x30 || text[1] != 0x78 {
        return Err(ErrorKind::DecodeError);
    }
    let ghost digits = text@.skip(2);
    let count = total - 2;
    let mut k: usize = 0;
    while k < count
        invariant
            k <= count,
            total == text@.len(),
            count == total - 2,
            digits == text@.skip(2),
            forall|j: int| 0 <= j < k ==> (#[trigger] hex_digit(digits[j])).is_some(),
        decreases count - k,
    {
        if digit_value(text[2 + k]).is_none() {
            assert(digits[k as int] == text@[2 + k]);
            assert(!all_hex_digits(digits));
            return Err(ErrorKind::DecodeError);
        }
        assert(digits[k as int] == text@[2 + k]);
        k += 1;
    }
    assert(all_hex_digits(digits));
    let sixteen = Wei::from_u64(16);
    let mut acc = Wei::zero();
    let mut i: usize = 0;
    assert(digits.take(0) =~= Seq::<u8>::empty());
    while i < count
        invariant
            i <= count,
            total == text@.len(),
            count == total - 2,
            digits == text@.skip(2),
            all_hex_digits(digits),
            sixteen@ == 16,
            acc@ == hex_value(digits.take(i as int)),
        decreases count - i,
    {
        proof {
            assert(digits.take(i + 1).drop_last() =~= digits.take(i as int));
            assert(digits.take(i + 1).last() == digits[i as int]);
            assert(digits[i as int] == text@[2 + i]);
            assert(hex_digit(digits[i as int]).is_some());
            lemma_hex_value_grows(digits, i + 1);
            crate::amount::lemma_wei_in_range(acc);
        }
        let digit = match digit_value(text[2 + i]) {
            Some(d) => d,
            None => 0,
        };
        let shifted = match u256_checked_mul(&acc, &sixteen) {
            Some(s) => s,
            None => {
                return Err(ErrorKind::DecodeError);
            },
        };
        acc = match u256_checked_add(&shifted, &Wei::from_u64(digit as u64)) {
            Some(s) => s,
            None => {
                return Err(ErrorKind::DecodeError);
            },
        };
        i += 1;
    }
    assert(digits.take(count as int) =~= digits);
    Ok(acc)
}

/// Reads a quantity as a 64-bit number. `DecodeError` where the text is
/// no quantity, or stands for a number that needs more than 64 bits.
pub fn decode_quantity_u64(text: &[u8]) -> (r: Result<u64, ErrorKind>)
    ensures
        r.is_ok() == (is_quantity(text@) && hex_value(text@.skip(2)) <= u64::MAX),
        r.is_ok() ==> r.unwrap() == hex_value(text@.skip(2)),
        r.is_err() ==> r == Err::<u64, ErrorKind>(ErrorKind::DecodeError),
{
    match decode_quantity(text) {
        Err(e) => Err(e),
        Ok(amount) => match amount.to_u64() {
            Some(v) => Ok(v),
            None => Err(ErrorKind::DecodeError),
        },
    }
}

/// Whether the text is an answer to a question at all.
pub open spec fn well_formed_answer(query: ChainQuery, text: Seq<u8>) -> bool {
    let value = hex_value(text.skip(2));
    match query {
        ChainQuery::LatestBlockNumber => is_quantity(text) && value <= u64::MAX,
        ChainQuery::GasPrice => is_quantity(text) && value < wei_bound(),
        ChainQuery::ChainId => is_quantity(text) && value <= u64::MAX,
        ChainQuery::BalanceOf { .. } => is_quantity(text) && value < wei_bound(),
        ChainQuery::BlockHash { .. } => is_fixed_hex(text, 32),
    }
}

/// Whether the text answers a question, and with what: a number for the
/// latest block and the chain id, an amount for the gas price and a
/// balance, thirty-two bytes for a block hash.
pub open spec fn answers(query: ChainQuery, text: Seq<u8>, answer: ChainAnswer) -> bool {
    let value = hex_value(text.skip(2));
    well_formed_answer(query, text) && match query {
        ChainQuery::LatestBlockNumber => (answer matches ChainAnswer::BlockNumber { number }
            && number == value),
        ChainQuery::GasPrice => (answer matches ChainAnswer::GasPrice { price } && price@ == value),
        ChainQuery::ChainId => (answer matches ChainAnswer::ChainId { id } && id == value),
        ChainQuery::BalanceOf { .. } => (answer matches ChainAnswer::Balance { balance } && balance@
            == value),
        ChainQuery::BlockHash { .. } => (answer matches ChainAnswer::BlockHash { hash } && hash@
            == hex_bytes(text.skip(2))),
    }
}

impl ChainQuery {
    /// The JSON-RPC method that puts this question.
    pub fn method(&self) -> (r: &'static str)
        ensures
            r@ == (match *self {
                ChainQuery::LatestBlockNumber => "eth_blockNumber"@,
                ChainQuery::GasPrice => "eth_gasPrice"@,
                ChainQuery::ChainId => "eth_chainId"@,
                ChainQuery::BalanceOf { .. } => "eth_getBalance"@,
                ChainQuery::BlockHash { .. } => "eth_getBlockByNumber"@,
            }),
    {
        match self {
            ChainQuery::LatestBlockNumber => "eth_blockNumber",
            ChainQuery::GasPrice => "eth_gasPrice",
            ChainQuery::ChainId => "eth_chainId",
            ChainQuery::BalanceOf { .. } => "eth_getBalance",
            ChainQuery::BlockHash { .. } => "eth_getBlockByNumber",
        }
    }

    /// Reads what the node sent back for this question: the result as
    /// text, and for a block hash the `hash` field of the block that came
    /// back. `TransportError` where nothing came back, `DecodeError` where
    /// the text is no answer to the question.
    pub fn read_reply(&self, reply: Option<&[u8]>) -> (r: Result<ChainAnswer, ErrorKind>)
        ensures
            reply.is_none() ==> r == Err::<ChainAnswer, ErrorKind>(ErrorKind::TransportError),
            reply.is_some() ==> {
                &&& r.is_ok() == well_formed_answer(*self, reply.unwrap()@)
                &&& r.is_ok() ==> answers(*self, reply.unwrap()@, r.unwrap())
                &&& r.is_err() ==> r == Err::<ChainAnswer, ErrorKind>(ErrorKind::DecodeError)
            },
    {
        let text = match reply {
            Some(t) => t,
            None => {
                return Err(ErrorKind::TransportError);
            },
        };
        match self {
            ChainQuery::LatestBlockNumber => match decode_quantity_u64(text) {
                Ok(number) => Ok(ChainAnswer::BlockNumber { number }),
                Err(e) => Err(e),
            },
            ChainQuery::GasPrice => match decode_quantity(text) {
                Ok(price) => Ok(ChainAnswer::GasPrice { price }),
                Err(e) => Err(e),
            },
            ChainQuery::ChainId => match decode_quantity_u64(text) {
                Ok(id) => Ok(ChainAnswer::ChainId { id }),
                Err(e) => Err(e),
            },
            ChainQuery::BalanceOf { .. } => match decode_quantity(text) {
                Ok(balance) => Ok(ChainAnswer::Balance { balance }),
                Err(e) => Err(e),
            },
            ChainQuery::BlockHash { .. } => match Hash32::from_hex(text) {
                Ok(hash) => Ok(ChainAnswer::BlockHash { hash }),
                Err(e) => Err(e),
            },
        }
    }
}

} // verus!
