//! Batched reads: many calls packed into one call of the aggregation
//! contract, and what it returns unpacked into one result per call.

use vstd::prelude::*;
use crate::abi::{
    all_zero, copy_range, decode_value, decodable, decoded_from, padded, push_address, push_bytes,
    push_selector, push_word, read_word, selector_bytes, word_address, word_array, word_at, word_u64,
    Decoded, Decoder, AGGREGATE,
};
use crate::amount::{u256_from_big_endian, Wei};
use crate::error::ErrorKind;
use crate::primitives::{be_value, Address};

verus! {

/// One read-only call of a batch: the contract to call, the bytes to
/// call it with, and how to read what it returns.
#[derive(Clone, Debug, PartialEq, Eq)]
pub struct BatchCall {
    pub target: Address,
    pub call_data: Vec<u8>,
    pub decoder: Decoder,
}

/// So many zero bytes.
pub open spec fn zeros(n: int) -> Seq<u8> {
    Seq::new(n as nat, |i: int| 0u8)
}

/// One call as the aggregation contract takes it: the target as a word,
/// the place of the bytes within the entry, their length, and the bytes
/// filled up with zeros to whole words.
pub open spec fn call_body(call: BatchCall) -> Seq<u8> {
    let len = call.call_data@.len() as int;
    word_address(call.target@) + word_u64(64) + word_u64(len as u64) + call.call_data@ + zeros(
        padded(len) - len,
    )
}

/// The entries of the calls, one after the other.
pub open spec fn call_bodies(calls: Seq<BatchCall>) -> Seq<u8>
    decreases calls.len(),
{
    if calls.len() == 0 {
        Seq::<u8>::empty()
    } else {
        call_bodies(calls.drop_last()) + call_body(calls.last())
    }
}

/// The words that say where each entry starts, counted from the first of
/// these words; `count` is the number of calls in the whole batch.
pub open spec fn call_offsets(calls: Seq<BatchCall>, count: int) -> Seq<u8>
    decreases calls.len(),
{
    if calls.len() == 0 {
        Seq::<u8>::empty()
    } else {
        call_offsets(calls.drop_last(), count) + word_u64(
            (32 * count + call_bodies(calls.drop_last()).len()) as u64,
        )
    }
}

/// The bytes that call `aggregate` of the aggregation contract with a
/// batch: the selector, the place of the array, the number of calls, the
/// places of the entries, and the entries.
pub open spec fn aggregate_call_data(calls: Seq<BatchCall>) -> Seq<u8> {
    selector_bytes(AGGREGATE) + word_u64(32) + word_u64(calls.len() as u64) + call_offsets(
        calls,
        calls.len() as int,
    ) + call_bodies(calls)
}

/// The length of the bytes that call `aggregate` with a batch.
pub open spec fn aggregate_len(calls: Seq<BatchCall>) -> nat {
    68 + 32 * calls.len() + call_bodies(calls).len()
}

/// The entries of the first calls of a batch are no longer than those of
/// the whole batch.
pub proof fn lemma_call_bodies_grow(calls: Seq<BatchCall>, i: int)
    requires
        0 <= i <= calls.len(),
    ensures
        call_bodies(calls.take(i)).len() <= call_bodies(calls).len(),
    decreases calls.len(),
{
    if i == calls.len() {
        assert(calls.take(i) =~= calls);
    } else {
        assert(calls.drop_last().take(i) =~= calls.take(i));
        lemma_call_bodies_grow(calls.drop_last(), i);
    }
}

/// The entries of the calls up to and with call `i` are those before it
/// and its own.
pub proof fn lemma_call_bodies_step(calls: Seq<BatchCall>, i: int)
    requires
        0 <= i < calls.len(),
    ensures
        call_bodies(calls.take(i + 1)) == call_bodies(calls.take(i)) + call_body(calls[i]),
        call_offsets(calls.take(i + 1), calls.len() as int) == call_offsets(
            calls.take(i),
            calls.len() as int,
        ) + word_u64((32 * calls.len() + call_bodies(calls.take(i)).len()) as u64),
        call_body(calls[i]).len() == 96 + padded(calls[i].call_data@.len() as int),
{
    assert(calls.take(i + 1).drop_last() =~= calls.take(i));
    assert(calls.take(i + 1).last() == calls[i]);
}

/// The length of the entry of a call, or `None` where it is above the
/// largest `usize`.
fn body_len(call: &BatchCall) -> (r: Option<usize>)
    ensures
        r.is_some() == (call_body(*call).len() <= usize::MAX),
        r.is_some() ==> r.unwrap() == call_body(*call).len(),
        call_body(*call).len() == 96 + padded(call.call_data@.len() as int),
{
    let len = call.call_data.len();
    if len > usize::MAX - 127 {
        None
    } else {
        Some(96 + (len + 31) / 32 * 32)
    }
}

/// The bytes that call `aggregate` of the aggregation contract with a
/// batch, or `None` where they would be more than `usize::MAX`.
pub fn encode_aggregate(calls: &Vec<BatchCall>) -> (r: Option<Vec<u8>>)
    ensures
        r.is_some() == (aggregate_len(calls@) <= usize::MAX),
        r.is_some() ==> r.unwrap()@ == aggregate_call_data(calls@),
{
    let n = calls.len();
    if n > (usize::MAX - 68) / 32 {
        return None;
    }
    let mut out: Vec<u8> = Vec::new();
    push_selector(&mut out, AGGREGATE);
    push_word(&mut out, 32);
    push_word(&mut out, n as u64);
    let ghost head = out@;
    let mut cursor: usize = 32 * n;
    let mut i: usize = 0;
    while i < n
        invariant
            i <= n == calls@.len(),
            68 + 32 * n <= usize::MAX,
            cursor == 32 * n + call_bodies(calls@.take(i as int)).len(),
            68 + cursor <= usize::MAX,
            out@ == head + call_offsets(calls@.take(i as int), n as int),
        decreases n - i,
    {
        proof {
            lemma_call_bodies_step(calls@, i as int);
            lemma_call_bodies_grow(calls@, i + 1);
        }
        push_word(&mut out, cursor as u64);
        let step = match body_len(&calls[i]) {
            Some(s) => s,
            None => {
                return None;
            },
        };
        if step > usize::MAX - 68 - cursor {
            return None;
        }
        cursor = cursor + step;
        i += 1;
    }
    assert(calls@.take(n as int) =~= calls@);
    let ghost tables = out@;
    let mut j: usize = 0;
    while j < n
        invariant
            j <= n == calls@.len(),
            out@ == tables + call_bodies(calls@.take(j as int)),
        decreases n - j,
    {
        proof {
            lemma_call_bodies_step(calls@, j as int);
        }
        let call = &calls[j];
        let len = call.call_data.len();
        let ghost before = out@;
        push_address(&mut out, &call.target);
        push_word(&mut out, 64);
        push_word(&mut out, len as u64);
        push_bytes(&mut out, call.call_data.as_slice());
        let pad: usize = (32 - len % 32) % 32;
        assert(pad == padded(len as int) - len);
        let mut k: usize = 0;
        while k < pad
            invariant
                k <= pad,
                out@ == before + word_address(call.target@) + word_u64(64) + word_u64(len as u64)
                    + call.call_data@ + zeros(k as int),
            decreases pad - k,
        {
            out.push(0u8);
            assert(out@ =~= before + word_address(call.target@) + word_u64(64) + word_u64(len as u64)
                + call.call_data@ + zeros(k + 1));
            k += 1;
        }
        assert(out@ =~= before + call_body(*call));
        assert(out@ =~= tables + call_bodies(calls@.take(j + 1)));
        j += 1;
    }
    assert(out@ =~= aggregate_call_data(calls@));
    Some(out)
}

/// The byte strings that vectors hold.
pub open spec fn views(items: Seq<Vec<u8>>) -> Seq<Seq<u8>> {
    Seq::new(items.len(), |i: int| items[i]@)
}

/// The length of the entries of results: for each a word with its length,
/// and its bytes filled up to whole words.
pub open spec fn results_len(items: Seq<Seq<u8>>) -> int
    decreases items.len(),
{
    if items.len() == 0 {
        0
    } else {
        results_len(items.drop_last()) + 32 + padded(items.last().len() as int)
    }
}

/// Whether the data holds result `i` of `count` where the results before
/// it put it: the word that says where its entry starts, and the entry
/// with its length, its bytes and zeros up to a whole word.
pub open spec fn result_at(data: Seq<u8>, count: int, items: Seq<Seq<u8>>, i: int) -> bool {
    let start = 32 * count + results_len(items.take(i));
    let len = items[i].len() as int;
    &&& 0 <= start <= u64::MAX
    &&& len <= u64::MAX
    &&& 96 + start + 32 + padded(len) <= data.len()
    &&& word_at(data, 96 + 32 * i) == word_u64(start as u64)
    &&& word_at(data, 96 + start) == word_u64(len as u64)
    &&& data.subrange(96 + start + 32, 96 + start + 32 + len) == items[i]
    &&& forall|k: int| 96 + start + 32 + len <= k < 96 + start + 32 + padded(len) ==> data[k] == 0u8
}

/// Whether the data is what `aggregate` returns for a block height and
/// results: the height, the place of the array, the number of results,
/// the places of the entries, the entries, and nothing more.
pub open spec fn is_aggregate_return(data: Seq<u8>, height: nat, items: Seq<Seq<u8>>) -> bool {
    &&& data.len() == 96 + 32 * items.len() + results_len(items)
    &&& items.len() <= u64::MAX
    &&& be_value(word_at(data, 0)) == height
    &&& word_at(data, 32) == word_u64(64)
    &&& word_at(data, 64) == word_u64(items.len() as u64)
    &&& forall|i: int| 0 <= i < items.len() ==> #[trigger] result_at(data, items.len() as int, items, i)
}

/// The entries of results have a length that is not negative.
pub proof fn lemma_results_len_nonneg(items: Seq<Seq<u8>>)
    ensures
        results_len(items) >= 0,
    decreases items.len(),
{
    if items.len() > 0 {
        lemma_results_len_nonneg(items.drop_last());
    }
}

/// Whether the first `i` results of every reading of the data are the
/// ones given, and every reading has `count` results.
pub open spec fn readings_agree(data: Seq<u8>, count: int, i: int, prefix: Seq<Seq<u8>>) -> bool {
    forall|h: nat, items: Seq<Seq<u8>>| #[trigger]
        is_aggregate_return(data, h, items) ==> items.len() == count && items.take(i) == prefix
}

/// Whether the data can be read as the return of `aggregate` in one way
/// at most: with this height and these results.
pub open spec fn only_reading(data: Seq<u8>, height: nat, results: Seq<Seq<u8>>) -> bool {
    forall|h: nat, items: Seq<Seq<u8>>| #[trigger]
        is_aggregate_return(data, h, items) ==> h == height && items == results
}

/// Whether the data is no return of `aggregate` at all.
pub open spec fn no_reading(data: Seq<u8>) -> bool {
    forall|h: nat, items: Seq<Seq<u8>>| !#[trigger] is_aggregate_return(data, h, items)
}

/// Unpacks what `aggregate` returned: the height of the block that every
/// call of the batch saw, and the bytes that each call returned, in the
/// order of the calls. `DecodeError` where the data is not laid out as
/// the aggregation contract lays it out.
pub fn decode_aggregate_return(data: &[u8]) -> (r: Result<(Wei, Vec<Vec<u8>>), ErrorKind>)
    ensures
        r.is_ok() ==> is_aggregate_return(data@, r.unwrap().0@, views(r.unwrap().1@)),
        r.is_ok() ==> only_reading(data@, r.unwrap().0@, views(r.unwrap().1@)),
        r.is_err() ==> r == Err::<(Wei, Vec<Vec<u8>>), ErrorKind>(ErrorKind::DecodeError)
            && no_reading(data@),
{
    let total = data.len();
    if total < 96 {
        proof {
            assert forall|h: nat, items: Seq<Seq<u8>>| !#[trigger] is_aggregate_return(data@, h, items) by {
                lemma_results_len_nonneg(items);
            }
        }
        return Err(ErrorKind::DecodeError);
    }
    let head = word_array(data, 0);
    let height = u256_from_big_endian(&head);
    let place = read_word(data, 32);
    if place != Some(64) {
        proof {
            assert forall|h: nat, items: Seq<Seq<u8>>| !#[trigger] is_aggregate_return(data@, h, items) by {
                if is_aggregate_return(data@, h, items) {
                    if place.is_some() {
                        crate::abi::lemma_word_injective(place.unwrap(), 64);
                    }
                }
            }
        }
        return Err(ErrorKind::DecodeError);
    }
    let count = match read_word(data, 64) {
        Some(c) => c,
        None => {
            return Err(ErrorKind::DecodeError);
        },
    };
    proof {
        assert forall|h: nat, items: Seq<Seq<u8>>| #[trigger]
            is_aggregate_return(data@, h, items) implies items.len() == count by {
            crate::abi::lemma_word_injective(count, items.len() as u64);
        }
    }
    if count > ((total - 96) / 32) as u64 {
        proof {
            assert forall|h: nat, items: Seq<Seq<u8>>| !#[trigger] is_aggregate_return(data@, h, items) by {
                lemma_results_len_nonneg(items);
            }
        }
        return Err(ErrorKind::DecodeError);
    }
    let n: usize = count as usize;
    let mut out: Vec<Vec<u8>> = Vec::new();
    let mut cursor: usize = 32 * n;
    let mut i: usize = 0;
    proof {
        assert(views(out@) =~= Seq::<Seq<u8>>::empty());
        assert forall|h: nat, items: Seq<Seq<u8>>| #[trigger]
            is_aggregate_return(data@, h, items) implies items.take(0) == views(out@) by {
            assert(items.take(0) =~= views(out@));
        }
    }
    while i < n
        invariant
            i <= n,
            total == data@.len(),
            96 + 32 * n <= total,
            out@.len() == i,
            cursor == 32 * n + results_len(views(out@)),
            96 + cursor <= total,
            forall|j: int| 0 <= j < i ==> #[trigger] result_at(data@, n as int, views(out@), j),
            readings_agree(data@, n as int, i as int, views(out@)),
        decreases n - i,
    {
        let ghost prefix = views(out@);
        let offset = read_word(data, 96 + 32 * i);
        if offset != Some(cursor as u64) {
            proof {
                assert forall|h: nat, items: Seq<Seq<u8>>| !#[trigger] is_aggregate_return(data@, h, items) by {
                    if is_aggregate_return(data@, h, items) {
                        assert(result_at(data@, n as int, items, i as int));
                        if offset.is_some() {
                            crate::abi::lemma_word_injective(offset.unwrap(), cursor as u64);
                        }
                    }
                }
            }
            return Err(ErrorKind::DecodeError);
        }
        let length = read_word(data, 96 + cursor);
        let len64 = match length {
            Some(l) => l,
            None => {
                proof {
                    assert forall|h: nat, items: Seq<Seq<u8>>| !#[trigger] is_aggregate_return(data@, h, items) by {
                        if is_aggregate_return(data@, h, items) {
                            assert(result_at(data@, n as int, items, i as int));
                        }
                    }
                }
                return Err(ErrorKind::DecodeError);
            },
        };
        proof {
            assert forall|h: nat, items: Seq<Seq<u8>>| #[trigger]
                is_aggregate_return(data@, h, items) implies items[i as int].len() == len64 by {
                assert(result_at(data@, n as int, items, i as int));
                crate::abi::lemma_word_injective(len64, items[i as int].len() as u64);
            }
        }
        let room: usize = total - (96 + cursor + 32);
        if len64 > room as u64 {
            proof {
                assert forall|h: nat, items: Seq<Seq<u8>>| !#[trigger] is_aggregate_return(data@, h, items) by {
                    if is_aggregate_return(data@, h, items) {
                        assert(result_at(data@, n as int, items, i as int));
                    }
                }
            }
            return Err(ErrorKind::DecodeError);
        }
        let len: usize = len64 as usize;
        let pad: usize = (32 - len % 32) % 32;
        assert(len + pad == padded(len as int));
        if pad > room - len {
            proof {
                assert forall|h: nat, items: Seq<Seq<u8>>| !#[trigger] is_aggregate_return(data@, h, items) by {
                    if is_aggregate_return(data@, h, items) {
                        assert(result_at(data@, n as int, items, i as int));
                    }
                }
            }
            return Err(ErrorKind::DecodeError);
        }
        let from: usize = 96 + cursor + 32;
        if !all_zero(data, from + len, from + len + pad) {
            proof {
                assert forall|h: nat, items: Seq<Seq<u8>>| !#[trigger] is_aggregate_return(data@, h, items) by {
                    if is_aggregate_return(data@, h, items) {
                        assert(result_at(data@, n as int, items, i as int));
                    }
                }
            }
            return Err(ErrorKind::DecodeError);
        }
        let item = copy_range(data, from, len);
        out.push(item);
        proof {
            let grown = views(out@);
            assert(grown.take(i as int) =~= prefix);
            assert(grown.drop_last() =~= prefix);
            assert(grown[i as int] == data@.subrange(from as int, from + len));
            assert forall|j: int| 0 <= j < i + 1 implies #[trigger] result_at(
                data@,
                n as int,
                grown,
                j,
            ) by {
                if j < i {
                    assert(result_at(data@, n as int, prefix, j));
                    assert(grown.take(j) =~= prefix.take(j));
                    assert(grown[j] == prefix[j]);
                }
            }
            assert forall|h: nat, items: Seq<Seq<u8>>| #[trigger]
                is_aggregate_return(data@, h, items) implies items.take(i + 1) == grown by {
                assert(result_at(data@, n as int, items, i as int));
                assert(items.take(i as int) == prefix);
                assert(items.take(i + 1) =~= grown);
            }
        }
        cursor = cursor + 32 + len + pad;
        i += 1;
    }
    if 96 + cursor != total {
        proof {
            assert forall|h: nat, items: Seq<Seq<u8>>| !#[trigger] is_aggregate_return(data@, h, items) by {
                if is_aggregate_return(data@, h, items) {
                    assert(items.take(n as int) =~= items);
                }
            }
        }
        return Err(ErrorKind::DecodeError);
    }
    proof {
        assert forall|h: nat, items: Seq<Seq<u8>>| #[trigger]
            is_aggregate_return(data@, h, items) implies h == height@ && items == views(out@) by {
            assert(items.take(n as int) =~= items);
        }
    }
    Ok((height, out))
}

/// The failure to read one result of a batch: a `DecodeError` with the
/// place of the call in the batch.
#[derive(Clone, Copy, Debug, PartialEq, Eq, Structural)]
pub struct EntryError {
    pub index: usize,
}

/// What a batch returned: the height of the block that every call saw,
/// the bytes that each call returned, and each of them read as a value,
/// all in the order of the calls.
#[derive(Clone, Debug, PartialEq, Eq)]
pub struct BatchResult {
    pub block_height: Wei,
    pub raw: Vec<Vec<u8>>,
    pub values: Vec<Result<Decoded, EntryError>>,
}

/// Whether entry `i` is what the decoder of call `i` makes of result `i`:
/// the value where the bytes are one, else the failure with `i` in it.
pub open spec fn entry_read(decoder: Decoder, raw: Seq<u8>, i: int, entry: Result<Decoded, EntryError>) -> bool {
    &&& entry.is_ok() == decodable(decoder, raw)
    &&& entry.is_ok() ==> decoded_from(decoder, raw, entry.unwrap())
    &&& entry.is_err() ==> entry.unwrap_err().index == i
}

/// Whether a result is what a batch of calls makes of the data that
/// `aggregate` returned: one result for each call, in the order of the
/// calls, each read by the decoder of its own call.
pub open spec fn batch_read(calls: Seq<BatchCall>, data: Seq<u8>, result: BatchResult) -> bool {
    &&& is_aggregate_return(data, result.block_height@, views(result.raw@))
    &&& result.raw@.len() == calls.len()
    &&& result.values@.len() == calls.len()
    &&& forall|i: int|
        0 <= i < calls.len() ==> #[trigger] entry_read(
            calls[i].decoder,
            result.raw@[i]@,
            i,
            result.values@[i],
        )
}

/// Reads each result of a batch by the decoder of its call. A result
/// that is no value of its kind fails alone, with its place; the others
/// are read as if it were not there. A call for which there is no result
/// fails in the same way.
pub fn decode_entries(calls: &Vec<BatchCall>, raw: &Vec<Vec<u8>>) -> (r: Vec<Result<Decoded, EntryError>>)
    ensures
        r@.len() == calls@.len(),
        forall|i: int|
            0 <= i < calls@.len() && i < raw@.len() ==> #[trigger] entry_read(
                calls@[i].decoder,
                raw@[i]@,
                i,
                r@[i],
            ),
        forall|i: int|
            raw@.len() <= i < calls@.len() ==> #[trigger] r@[i] == Err::<Decoded, EntryError>(
                EntryError { index: i as usize },
            ),
{
    let n = calls.len();
    let mut values: Vec<Result<Decoded, EntryError>> = Vec::new();
    let mut i: usize = 0;
    while i < n
        invariant
            i <= n == calls@.len(),
            values@.len() == i,
            forall|j: int|
                0 <= j < i && j < raw@.len() ==> #[trigger] entry_read(
                    calls@[j].decoder,
                    raw@[j]@,
                    j,
                    values@[j],
                ),
            forall|j: int|
                raw@.len() <= j < i ==> #[trigger] values@[j] == Err::<Decoded, EntryError>(
                    EntryError { index: j as usize },
                ),
        decreases n - i,
    {
        let entry = if i < raw.len() {
            match decode_value(calls[i].decoder, raw[i].as_slice()) {
                Ok(value) => Ok(value),
                Err(_) => Err(EntryError { index: i }),
            }
        } else {
            Err(EntryError { index: i })
        };
        values.push(entry);
        i += 1;
    }
    values
}

/// Unpacks and reads what `aggregate` returned for a batch of calls.
/// `DecodeError` where the data is not a return of `aggregate`, or holds
/// another number of results than the batch has calls. A single result
/// that cannot be read does not fail the batch: see `decode_entries`.
pub fn read_batch(calls: &Vec<BatchCall>, data: &[u8]) -> (r: Result<BatchResult, ErrorKind>)
    ensures
        r.is_ok() == (exists|h: nat, items: Seq<Seq<u8>>| #[trigger]
            is_aggregate_return(data@, h, items) && items.len() == calls@.len()),
        r.is_ok() ==> batch_read(calls@, data@, r.unwrap()),
        r.is_err() ==> r == Err::<BatchResult, ErrorKind>(ErrorKind::DecodeError),
{
    match decode_aggregate_return(data) {
        Err(e) => Err(e),
        Ok((block_height, raw)) => {
            if raw.len() != calls.len() {
                return Err(ErrorKind::DecodeError);
            }
            let values = decode_entries(calls, &raw);
            assert(views(raw@).len() == calls@.len());
            Ok(BatchResult { block_height, raw, values })
        },
    }
}

impl BatchResult {
    /// Whether entry `index` is a number and is the height of the block
    /// that the whole batch saw: what a call for the current block number
    /// returns when it ran on the same block as the rest.
    pub fn reports_block_height(&self, index: usize) -> (r: bool)
        ensures
            r == (index < self.values@.len() && (self.values@[index as int] matches Ok(
                Decoded::Uint256(v),
            ) && v@ == self.block_height@)),
    {
        if index >= self.values.len() {
            return false;
        }
        match &self.values[index] {
            Ok(Decoded::Uint256(v)) => v.eq_amount(&self.block_height),
            _ => false,
        }
    }
}

} // verus!
