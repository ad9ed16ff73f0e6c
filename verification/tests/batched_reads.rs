use ethers_core::abi::{encode, Token};
use ethers_core::types::{H160, U256};
use evm_client::abi::{
    decode_bytes_return, decode_value, function_selector, push_address, push_bytes, push_selector,
    push_word, read_word, Decoded, Decoder, ReadCall, AGGREGATE, GET_BLOCK_HASH, GET_BLOCK_NUMBER,
    GET_CURRENT_BLOCK_COINBASE, GET_ETH_BALANCE, GET_LAST_BLOCK_HASH,
};
use evm_client::amount::Wei;
use evm_client::batch::{
    decode_aggregate_return, decode_entries, encode_aggregate, read_batch, BatchCall, EntryError,
};
use evm_client::error::ErrorKind;
use evm_client::primitives::{Address, Hash32};

fn word(x: u64) -> Vec<u8> {
    let mut out = Vec::new();
    push_word(&mut out, x);
    out
}

fn selector(s: u32) -> [u8; 4] {
    let mut out = Vec::new();
    push_selector(&mut out, s);
    [out[0], out[1], out[2], out[3]]
}

fn aggregate_return(height: u64, items: &[Vec<u8>]) -> Vec<u8> {
    encode(&[
        Token::Uint(U256::from(height)),
        Token::Array(items.iter().map(|i| Token::Bytes(i.clone())).collect()),
    ])
}

fn number_call(target: u8) -> BatchCall {
    BatchCall {
        target: Address { bytes: [target; 20] },
        call_data: ReadCall::BlockNumber.call_data(),
        decoder: Decoder::Uint256,
    }
}

#[test]
fn word_of_a_number() {
    let w = word(0x0102_0304_0506_0708);
    assert_eq!(w.len(), 32);
    assert_eq!(&w[..24], &[0u8; 24]);
    assert_eq!(&w[24..], &[1, 2, 3, 4, 5, 6, 7, 8]);
    assert_eq!(word(421614), encode(&[Token::Uint(U256::from(421614u64))]));
    assert_eq!(word(u64::MAX), encode(&[Token::Uint(U256::from(u64::MAX))]));
    assert_eq!(word(0), vec![0u8; 32]);
}

#[test]
fn push_keeps_what_was_there() {
    let mut out = vec![0xaa, 0xbb];
    push_word(&mut out, 1);
    assert_eq!(out.len(), 34);
    assert_eq!(&out[..2], &[0xaa, 0xbb]);
    assert_eq!(out[33], 1);
    push_bytes(&mut out, &[7, 8, 9]);
    assert_eq!(&out[34..], &[7, 8, 9]);
    push_address(&mut out, &Address { bytes: [0x11; 20] });
    assert_eq!(out.len(), 69);
    assert_eq!(&out[37..49], &[0u8; 12]);
    assert_eq!(&out[49..], &[0x11u8; 20]);
}

#[test]
fn read_word_is_the_inverse_of_push_word() {
    for x in [0u64, 1, 255, 256, 21_000, 0x0102_0304_0506_0708, u64::MAX] {
        let mut data = vec![9u8; 5];
        push_word(&mut data, x);
        assert_eq!(read_word(&data, 5), Some(x));
    }
}

#[test]
fn read_word_refuses_what_is_no_small_number() {
    let mut big = vec![0u8; 32];
    big[23] = 1;
    assert_eq!(read_word(&big, 0), None);
    big = vec![0u8; 32];
    big[0] = 0x80;
    assert_eq!(read_word(&big, 0), None);
    assert_eq!(read_word(&[0u8; 31], 0), None);
    assert_eq!(read_word(&[0u8; 32], 1), None);
    assert_eq!(read_word(&[], 0), None);
    assert_eq!(read_word(&[0u8; 32], usize::MAX), None);
    assert_eq!(read_word(&[0u8; 32], 0), Some(0));
}

#[test]
fn selectors_are_the_hashes_of_the_signatures() {
    assert_eq!(selector(AGGREGATE), ethers_core::utils::id("aggregate((address,bytes)[])"));
    assert_eq!(selector(GET_BLOCK_NUMBER), ethers_core::utils::id("getBlockNumber()"));
    assert_eq!(selector(GET_BLOCK_HASH), ethers_core::utils::id("getBlockHash(uint256)"));
    assert_eq!(
        selector(GET_CURRENT_BLOCK_COINBASE),
        ethers_core::utils::id("getCurrentBlockCoinbase()")
    );
    assert_eq!(selector(GET_ETH_BALANCE), ethers_core::utils::id("getEthBalance(address)"));
    assert_eq!(selector(GET_LAST_BLOCK_HASH), ethers_core::utils::id("getLastBlockHash()"));
}

#[test]
fn selector_of_a_signature() {
    assert_eq!(function_selector(b"transfer(address,uint256)"), [0xa9, 0x05, 0x9c, 0xbb]);
    assert_eq!(function_selector(b"getBlockNumber()"), selector(GET_BLOCK_NUMBER));
    assert_eq!(function_selector(b"hello_web3()"), ethers_core::utils::id("hello_web3()"));
    assert_ne!(function_selector(b"hello_web3()"), function_selector(b"hello_web3"));
}

#[test]
fn call_data_of_the_read_calls() {
    assert_eq!(ReadCall::BlockNumber.call_data(), vec![0x42, 0xcb, 0xb1, 0x5c]);
    assert_eq!(ReadCall::Coinbase.call_data(), selector(GET_CURRENT_BLOCK_COINBASE).to_vec());
    assert_eq!(ReadCall::LastBlockHash.call_data(), selector(GET_LAST_BLOCK_HASH).to_vec());

    let mut expected = selector(GET_BLOCK_HASH).to_vec();
    expected.extend(encode(&[Token::Uint(U256::from(1233u64))]));
    assert_eq!(ReadCall::BlockHash { number: 1233 }.call_data(), expected);

    let account = Address::from_hex(b"0x6a9270b0b307EA8BE1BD07c4C1AEb7C707faD9FA").unwrap();
    let mut expected = selector(GET_ETH_BALANCE).to_vec();
    expected.extend(encode(&[Token::Address(H160(account.bytes))]));
    assert_eq!(ReadCall::EthBalance { account }.call_data(), expected);
}

#[test]
fn decoders_of_the_read_calls() {
    assert_eq!(ReadCall::BlockNumber.decoder(), Decoder::Uint256);
    assert_eq!(ReadCall::BlockHash { number: 1 }.decoder(), Decoder::Bytes32);
    assert_eq!(ReadCall::Coinbase.decoder(), Decoder::Address);
    assert_eq!(ReadCall::EthBalance { account: Address { bytes: [0; 20] } }.decoder(), Decoder::Uint256);
    assert_eq!(ReadCall::LastBlockHash.decoder(), Decoder::Bytes32);
}

#[test]
fn values_of_each_kind() {
    assert_eq!(decode_value(Decoder::Uint256, &word(436)), Ok(Decoded::Uint256(Wei::from_u64(436))));
    assert_eq!(
        decode_value(Decoder::Uint256, &[0xffu8; 32]),
        Ok(Decoded::Uint256(Wei::max_value()))
    );
    assert_eq!(
        decode_value(Decoder::Bytes32, &[0x5au8; 32]),
        Ok(Decoded::Bytes32(Hash32 { bytes: [0x5au8; 32] }))
    );
    let address = encode(&[Token::Address(H160([0x77u8; 20]))]);
    assert_eq!(
        decode_value(Decoder::Address, &address),
        Ok(Decoded::Address(Address { bytes: [0x77u8; 20] }))
    );
}

#[test]
fn number_is_read_with_the_last_byte_as_the_least() {
    let mut bytes = [0u8; 32];
    bytes[31] = 0x2a;
    bytes[30] = 0x01;
    assert_eq!(decode_value(Decoder::Uint256, &bytes), Ok(Decoded::Uint256(Wei::from_u64(0x012a))));
    bytes = [0u8; 32];
    bytes[0] = 0x80;
    assert_eq!(
        decode_value(Decoder::Uint256, &bytes),
        Ok(Decoded::Uint256(Wei { limbs: [0, 0, 0, 1 << 63] }))
    );
}

#[test]
fn values_that_are_malformed() {
    for decoder in [Decoder::Uint256, Decoder::Address, Decoder::Bytes32] {
        assert_eq!(decode_value(decoder, &[]), Err(ErrorKind::DecodeError));
        assert_eq!(decode_value(decoder, &[0u8; 31]), Err(ErrorKind::DecodeError));
        assert_eq!(decode_value(decoder, &[0u8; 33]), Err(ErrorKind::DecodeError));
        assert_eq!(decode_value(decoder, &[0u8; 64]), Err(ErrorKind::DecodeError));
    }
    let mut dirty = encode(&[Token::Address(H160([0x77u8; 20]))]);
    dirty[11] = 1;
    assert_eq!(decode_value(Decoder::Address, &dirty), Err(ErrorKind::DecodeError));
    dirty[11] = 0;
    dirty[0] = 1;
    assert_eq!(decode_value(Decoder::Address, &dirty), Err(ErrorKind::DecodeError));
    assert!(decode_value(Decoder::Uint256, &dirty).is_ok());
}

#[test]
fn string_return_is_unpacked() {
    let data = encode(&[Token::String("Hello Web3".to_string())]);
    assert_eq!(decode_bytes_return(&data), Ok(b"Hello Web3".to_vec()));
    let empty = encode(&[Token::String(String::new())]);
    assert_eq!(decode_bytes_return(&empty), Ok(vec![]));
    let long = encode(&[Token::Bytes(vec![7u8; 32])]);
    assert_eq!(decode_bytes_return(&long), Ok(vec![7u8; 32]));
    let longer = encode(&[Token::Bytes(vec![7u8; 33])]);
    assert_eq!(longer.len(), 128);
    assert_eq!(decode_bytes_return(&longer), Ok(vec![7u8; 33]));
}

#[test]
fn string_return_that_is_malformed() {
    let good = encode(&[Token::String("Hello Web3".to_string())]);
    assert_eq!(decode_bytes_return(&[]), Err(ErrorKind::DecodeError));
    assert_eq!(decode_bytes_return(&good[..good.len() - 1]), Err(ErrorKind::DecodeError));
    let mut longer = good.clone();
    longer.extend([0u8; 32]);
    assert_eq!(decode_bytes_return(&longer), Err(ErrorKind::DecodeError));
    let mut place = good.clone();
    place[31] = 0x40;
    assert_eq!(decode_bytes_return(&place), Err(ErrorKind::DecodeError));
    let mut padding = good.clone();
    let last = padding.len() - 1;
    padding[last] = 1;
    assert_eq!(decode_bytes_return(&padding), Err(ErrorKind::DecodeError));
    let mut length = good.clone();
    length[63] = 0x21;
    assert_eq!(decode_bytes_return(&length), Err(ErrorKind::DecodeError));
}

#[test]
fn aggregate_call_is_what_the_abi_encoder_gives() {
    let calls = vec![
        BatchCall {
            target: Address { bytes: [0xca; 20] },
            call_data: ReadCall::BlockNumber.call_data(),
            decoder: Decoder::Uint256,
        },
        BatchCall {
            target: Address { bytes: [0xcb; 20] },
            call_data: ReadCall::BlockHash { number: 9 }.call_data(),
            decoder: Decoder::Bytes32,
        },
        BatchCall { target: Address { bytes: [0xcc; 20] }, call_data: vec![], decoder: Decoder::Address },
        BatchCall {
            target: Address { bytes: [0xcd; 20] },
            call_data: vec![1u8; 32],
            decoder: Decoder::Address,
        },
    ];
    let tokens = Token::Array(
        calls
            .iter()
            .map(|c| {
                Token::Tuple(vec![Token::Address(H160(c.target.bytes)), Token::Bytes(c.call_data.clone())])
            })
            .collect(),
    );
    let mut expected = selector(AGGREGATE).to_vec();
    expected.extend(encode(&[tokens]));
    assert_eq!(encode_aggregate(&calls), Some(expected));
}

#[test]
fn aggregate_call_of_an_empty_batch() {
    let mut expected = selector(AGGREGATE).to_vec();
    expected.extend(encode(&[Token::Array(vec![])]));
    assert_eq!(expected.len(), 68);
    assert_eq!(encode_aggregate(&vec![]), Some(expected));
}

#[test]
fn aggregate_return_is_unpacked_in_order() {
    let items = vec![word(1), vec![], vec![1, 2, 3], vec![9u8; 32], vec![8u8; 65]];
    let data = aggregate_return(1234, &items);
    assert_eq!(decode_aggregate_return(&data), Ok((Wei::from_u64(1234), items)));
    let none = aggregate_return(7, &[]);
    assert_eq!(decode_aggregate_return(&none), Ok((Wei::from_u64(7), vec![])));
}

#[test]
fn aggregate_return_that_is_malformed() {
    let items = vec![word(1), vec![1, 2, 3]];
    let good = aggregate_return(1234, &items);
    assert!(decode_aggregate_return(&good).is_ok());
    assert_eq!(decode_aggregate_return(&[]), Err(ErrorKind::DecodeError));
    assert_eq!(decode_aggregate_return(&good[..95]), Err(ErrorKind::DecodeError));
    assert_eq!(decode_aggregate_return(&good[..good.len() - 1]), Err(ErrorKind::DecodeError));
    assert_eq!(decode_aggregate_return(&good[..good.len() - 32]), Err(ErrorKind::DecodeError));
    let mut longer = good.clone();
    longer.push(0);
    assert_eq!(decode_aggregate_return(&longer), Err(ErrorKind::DecodeError));
    for at in [63usize, 95, 127, 159] {
        let mut bad = good.clone();
        bad[at] ^= 0x20;
        assert_eq!(decode_aggregate_return(&bad), Err(ErrorKind::DecodeError), "byte {}", at);
    }
    let mut count = good.clone();
    count[64] = 1;
    assert_eq!(decode_aggregate_return(&count), Err(ErrorKind::DecodeError));
    let mut padding = good.clone();
    let last = padding.len() - 1;
    padding[last] = 1;
    assert_eq!(decode_aggregate_return(&padding), Err(ErrorKind::DecodeError));
    // the height is any 256-bit number
    let mut high = good.clone();
    high[0] = 0xff;
    assert!(decode_aggregate_return(&high).is_ok());
}

#[test]
fn batch_of_n_calls_gives_n_results_in_order() {
    for n in [1usize, 5, 100] {
        let calls: Vec<BatchCall> = (0..n).map(|i| number_call(i as u8)).collect();
        let items: Vec<Vec<u8>> = (0..n).map(|i| word(1000 + i as u64)).collect();
        let result = read_batch(&calls, &aggregate_return(55, &items)).unwrap();
        assert_eq!(result.block_height, Wei::from_u64(55));
        assert_eq!(result.raw, items);
        assert_eq!(result.values.len(), n);
        for i in 0..n {
            assert_eq!(result.values[i], Ok(Decoded::Uint256(Wei::from_u64(1000 + i as u64))));
        }
    }
}

#[test]
fn malformed_entry_fails_alone_with_its_index() {
    for n in [1usize, 5, 100] {
        for k in [0, n / 2, n - 1] {
            let calls: Vec<BatchCall> = (0..n).map(|i| number_call(i as u8)).collect();
            let items: Vec<Vec<u8>> =
                (0..n).map(|i| if i == k { vec![1, 2, 3] } else { word(i as u64) }).collect();
            let result = read_batch(&calls, &aggregate_return(55, &items)).unwrap();
            assert_eq!(result.values.len(), n);
            for i in 0..n {
                if i == k {
                    assert_eq!(result.values[i], Err(EntryError { index: k }));
                } else {
                    assert_eq!(result.values[i], Ok(Decoded::Uint256(Wei::from_u64(i as u64))));
                }
            }
            assert_eq!(result.raw[k], vec![1, 2, 3]);
        }
    }
}

#[test]
fn batch_with_the_wrong_number_of_results() {
    let calls = vec![number_call(1), number_call(2)];
    assert_eq!(read_batch(&calls, &aggregate_return(5, &[word(1)])), Err(ErrorKind::DecodeError));
    assert_eq!(
        read_batch(&calls, &aggregate_return(5, &[word(1), word(2), word(3)])),
        Err(ErrorKind::DecodeError)
    );
    assert_eq!(read_batch(&calls, &[0u8; 7]), Err(ErrorKind::DecodeError));
    assert!(read_batch(&calls, &aggregate_return(5, &[word(1), word(2)])).is_ok());
    assert!(read_batch(&vec![], &aggregate_return(5, &[])).is_ok());
}

#[test]
fn entries_without_a_result_fail_with_their_index() {
    let calls = vec![number_call(1), number_call(2), number_call(3)];
    let values = decode_entries(&calls, &vec![word(4)]);
    assert_eq!(
        values,
        vec![
            Ok(Decoded::Uint256(Wei::from_u64(4))),
            Err(EntryError { index: 1 }),
            Err(EntryError { index: 2 }),
        ]
    );
    assert_eq!(decode_entries(&vec![], &vec![word(4)]), vec![]);
}

#[test]
fn block_number_and_previous_hash_come_from_one_snapshot() {
    let height: u64 = 4_000_123;
    let previous_hash = [0xabu8; 32];
    let target = Address::from_hex(b"0xcA11bde05977b3631167028862bE2a173976CA11").unwrap();
    let calls = vec![
        BatchCall {
            target,
            call_data: ReadCall::BlockNumber.call_data(),
            decoder: ReadCall::BlockNumber.decoder(),
        },
        BatchCall {
            target,
            call_data: ReadCall::BlockHash { number: height - 1 }.call_data(),
            decoder: ReadCall::BlockHash { number: height - 1 }.decoder(),
        },
    ];
    assert!(encode_aggregate(&calls).is_some());
    let data = aggregate_return(height, &[word(height), previous_hash.to_vec()]);
    let result = read_batch(&calls, &data).unwrap();
    assert_eq!(result.block_height.to_u64(), Some(height));
    assert_eq!(result.values[0], Ok(Decoded::Uint256(Wei::from_u64(height))));
    assert_eq!(result.values[1], Ok(Decoded::Bytes32(Hash32 { bytes: previous_hash })));
    assert!(result.reports_block_height(0));
    assert!(!result.reports_block_height(1));
    assert!(!result.reports_block_height(2));

    // a block number from a later block than the batch's own is noticed
    let later = aggregate_return(height, &[word(height + 1), previous_hash.to_vec()]);
    let drifted = read_batch(&calls, &later).unwrap();
    assert!(!drifted.reports_block_height(0));
}
