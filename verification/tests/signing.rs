use ethers_core::types::transaction::eip2718::TypedTransaction;
use ethers_core::types::{Eip1559TransactionRequest, H160, U256};
use ethers_signers::LocalWallet;
use evm_client::amount::Wei;
use evm_client::error::ErrorKind;
use evm_client::fees::GasPolicy;
use evm_client::primitives::{Address, Hash32};
use evm_client::signer::{check_signature, digest_of, replay_protected_v, Signer};
use evm_client::transaction::{Signature, TransactionRequest};

const CHAIN: u64 = 421614;

fn key(last: u8) -> [u8; 32] {
    let mut k = [0u8; 32];
    k[31] = last;
    k
}

// The order of secp256k1, most significant byte first.
const ORDER: [u8; 32] = [
    0xff, 0xff, 0xff, 0xff, 0xff, 0xff, 0xff, 0xff, 0xff, 0xff, 0xff, 0xff, 0xff, 0xff, 0xff, 0xfe,
    0xba, 0xae, 0xdc, 0xe6, 0xaf, 0x48, 0xa0, 0x3b, 0xbf, 0xd2, 0x5e, 0x8c, 0xd0, 0x36, 0x41, 0x41,
];

fn recover(digest: &Hash32, signature: &Signature) -> Option<Address> {
    let outside = ethers_core::types::Signature {
        r: U256(signature.r),
        s: U256(signature.s),
        v: signature.v,
    };
    outside.recover(ethers_core::types::H256(digest.bytes)).ok().map(|a| Address { bytes: a.0 })
}

fn market_request(signer: &Signer) -> TransactionRequest {
    TransactionRequest::transfer(
        signer.address(),
        Address { bytes: [0x22u8; 20] },
        Wei::from_u64(100_000_000_000_000),
        GasPolicy::Eip1559 {
            max_fee_per_gas: Wei::from_u64(200_000_000),
            max_priority_fee_per_gas: Wei::from_u64(2_000_000),
        },
        CHAIN,
    )
    .with_nonce(7)
}

fn legacy_request(signer: &Signer) -> TransactionRequest {
    TransactionRequest::transfer(
        signer.address(),
        Address { bytes: [0x22u8; 20] },
        Wei::from_u64(100_000_000_000_000),
        GasPolicy::Legacy { gas_price: Wei::from_u64(200_000_000) },
        CHAIN,
    )
    .with_nonce(7)
}

#[test]
fn address_of_the_key_one() {
    let signer = Signer::from_private_key(&key(1)).unwrap();
    assert_eq!(
        signer.address().to_checksum(),
        b"0x7E5F4552091A69125d5DfCb7b8C2659029395Bdf".to_vec()
    );
    assert_eq!(signer.address(), signer.address());
    let again = Signer::from_private_key(&key(1)).unwrap();
    assert_eq!(again.address(), signer.address());
}

#[test]
fn address_of_the_key_two_differs() {
    let one = Signer::from_private_key(&key(1)).unwrap();
    let two = Signer::from_private_key(&key(2)).unwrap();
    assert_eq!(two.address().to_checksum(), b"0x2B5AD5c4795c026514f8317c7a215E218DcCD6cF".to_vec());
    assert!(!one.address().same_as(&two.address()));
}

#[test]
fn key_of_the_wrong_length() {
    assert!(matches!(Signer::from_private_key(&[]), Err(ErrorKind::InvalidKey)));
    assert!(matches!(Signer::from_private_key(&[1u8; 31]), Err(ErrorKind::InvalidKey)));
    assert!(matches!(Signer::from_private_key(&[1u8; 33]), Err(ErrorKind::InvalidKey)));
}

#[test]
fn key_outside_the_curve_order() {
    assert!(matches!(Signer::from_private_key(&[0u8; 32]), Err(ErrorKind::InvalidKey)));
    assert!(matches!(Signer::from_private_key(&ORDER), Err(ErrorKind::InvalidKey)));
    assert!(matches!(Signer::from_private_key(&[0xffu8; 32]), Err(ErrorKind::InvalidKey)));
    let mut below = ORDER;
    below[31] = 0x40;
    assert!(Signer::from_private_key(&below).is_ok());
}

#[test]
fn signature_recovers_to_the_signer_address() {
    for last in [1u8, 2, 3, 77, 200] {
        let signer = Signer::from_private_key(&key(last)).unwrap();
        for request in [market_request(&signer), legacy_request(&signer)] {
            let signed = signer.sign(&request, CHAIN).unwrap();
            let recovered = recover(&signed.digest(), &signed.signature());
            assert_eq!(recovered, Some(signer.address()));
            assert_eq!(Some(signed.digest()), digest_of(&request));
        }
    }
}

#[test]
fn signing_is_deterministic() {
    let signer = Signer::from_private_key(&key(9)).unwrap();
    let request = market_request(&signer);
    let first = signer.sign(&request, CHAIN).unwrap();
    let second = signer.sign(&request, CHAIN).unwrap();
    assert_eq!(first, second);
    assert_eq!(first.payload(), second.payload());
    assert_eq!(first.hash(), second.hash());
}

#[test]
fn chain_id_changes_the_signature() {
    let signer = Signer::from_private_key(&key(9)).unwrap();
    let here = market_request(&signer);
    let there = TransactionRequest { chain_id: 1, ..here };
    let a = signer.sign(&here, CHAIN).unwrap();
    let b = signer.sign(&there, 1).unwrap();
    assert_ne!(a.digest(), b.digest());
    assert_ne!(a.payload(), b.payload());
    assert_ne!(a.hash(), b.hash());
}

#[test]
fn fee_market_payload_is_what_the_wallet_sends() {
    let signer = Signer::from_private_key(&key(5)).unwrap();
    let request = market_request(&signer);
    let signed = signer.sign(&request, CHAIN).unwrap();

    let wallet = LocalWallet::from_bytes(&key(5)).unwrap();
    let tx: TypedTransaction = Eip1559TransactionRequest::new()
        .to(H160([0x22u8; 20]))
        .value(U256::from(100_000_000_000_000u64))
        .gas(21_000u64)
        .max_fee_per_gas(U256::from(200_000_000u64))
        .max_priority_fee_per_gas(U256::from(2_000_000u64))
        .nonce(7u64)
        .chain_id(CHAIN)
        .into();
    let signature = wallet.sign_transaction_sync(&tx).unwrap();
    assert_eq!(signed.payload(), &tx.rlp_signed(&signature).to_vec());
    assert_eq!(signed.hash().bytes, tx.hash(&signature).0);
    assert_eq!(signed.digest().bytes, tx.sighash().0);
    assert_eq!(signed.payload()[0], 0x02);
    assert_eq!(signed.hash().bytes, ethers_core::utils::keccak256(signed.payload()));
}

#[test]
fn flat_price_payload_is_what_the_wallet_sends() {
    let signer = Signer::from_private_key(&key(5)).unwrap();
    let request = legacy_request(&signer);
    let signed = signer.sign(&request, CHAIN).unwrap();

    let wallet = LocalWallet::from_bytes(&key(5)).unwrap();
    let tx: TypedTransaction = ethers_core::types::TransactionRequest::new()
        .to(H160([0x22u8; 20]))
        .value(U256::from(100_000_000_000_000u64))
        .gas(21_000u64)
        .gas_price(U256::from(200_000_000u64))
        .nonce(7u64)
        .chain_id(CHAIN)
        .into();
    let signature = wallet.sign_transaction_sync(&tx).unwrap();
    assert_eq!(signed.payload(), &tx.rlp_signed(&signature).to_vec());
    assert_eq!(signed.hash().bytes, tx.hash(&signature).0);
    assert_eq!(signed.digest().bytes, tx.sighash().0);
    let v = signed.signature().v;
    assert!(v == 27 || v == 28);
}

#[test]
fn request_for_another_chain_is_not_signed() {
    let signer = Signer::from_private_key(&key(5)).unwrap();
    let request = market_request(&signer);
    assert_eq!(signer.sign(&request, 1), Err(ErrorKind::SigningFailed));
    assert_eq!(signer.sign(&request, CHAIN + 1), Err(ErrorKind::SigningFailed));
}

#[test]
fn request_without_a_nonce_is_not_signed() {
    let signer = Signer::from_private_key(&key(5)).unwrap();
    let request = TransactionRequest { nonce: None, ..market_request(&signer) };
    assert_eq!(signer.sign(&request, CHAIN), Err(ErrorKind::SigningFailed));
}

#[test]
fn fee_caps_out_of_order_are_not_signed() {
    let signer = Signer::from_private_key(&key(5)).unwrap();
    let policy = GasPolicy::Eip1559 {
        max_fee_per_gas: Wei::from_u64(1),
        max_priority_fee_per_gas: Wei::from_u64(2),
    };
    let request = TransactionRequest { gas_policy: policy, ..market_request(&signer) };
    assert_eq!(signer.sign(&request, CHAIN), Err(ErrorKind::SigningFailed));
    assert_eq!(digest_of(&TransactionRequest { nonce: None, ..request }), None);
}

#[test]
fn request_from_another_account_is_not_signed() {
    let signer = Signer::from_private_key(&key(5)).unwrap();
    let other = Signer::from_private_key(&key(6)).unwrap();
    assert_eq!(signer.sign(&market_request(&other), CHAIN), Err(ErrorKind::SigningFailed));
    assert_eq!(signer.sign(&legacy_request(&other), CHAIN), Err(ErrorKind::SigningFailed));
    assert!(other.sign(&legacy_request(&other), CHAIN).is_ok());
}

#[test]
fn chain_id_above_the_limit_is_not_signed() {
    let signer = Signer::from_private_key(&key(5)).unwrap();
    let limit: u64 = 0x7FFF_FFFF_FFFF_FFED;
    let at = TransactionRequest { chain_id: limit, ..legacy_request(&signer) };
    assert!(signer.sign(&at, limit).is_ok());
    let over = TransactionRequest { chain_id: limit + 1, ..legacy_request(&signer) };
    assert_eq!(signer.sign(&over, limit + 1), Err(ErrorKind::SigningFailed));
    let market = TransactionRequest { chain_id: u64::MAX, ..market_request(&signer) };
    assert_eq!(signer.sign(&market, u64::MAX), Err(ErrorKind::SigningFailed));
}

#[test]
fn replay_protected_recovery_value() {
    assert_eq!(replay_protected_v(0, 1), Some(37));
    assert_eq!(replay_protected_v(1, 1), Some(38));
    assert_eq!(replay_protected_v(0, CHAIN), Some(843_263));
    assert_eq!(replay_protected_v(1, 0), Some(36));
    assert_eq!(replay_protected_v(2, 1), None);
    assert_eq!(replay_protected_v(1, 0x7FFF_FFFF_FFFF_FFED), Some(u64::MAX - 1));
    assert_eq!(replay_protected_v(0, 0x7FFF_FFFF_FFFF_FFEE), None);
}

#[test]
fn signature_check_wants_the_signer_and_a_plain_recovery_value() {
    let me = Address { bytes: [1u8; 20] };
    let other = Address { bytes: [2u8; 20] };
    let sig = |v: u64| Signature { r: [1, 0, 0, 0], s: [2, 0, 0, 0], v };
    assert_eq!(check_signature(&sig(27), &Some(me), &me), Ok(0));
    assert_eq!(check_signature(&sig(28), &Some(me), &me), Ok(1));
    assert_eq!(check_signature(&sig(27), &Some(other), &me), Err(ErrorKind::SigningFailed));
    assert_eq!(check_signature(&sig(27), &None, &me), Err(ErrorKind::SigningFailed));
    assert_eq!(check_signature(&sig(29), &Some(me), &me), Err(ErrorKind::SigningFailed));
    assert_eq!(check_signature(&sig(0), &Some(me), &me), Err(ErrorKind::SigningFailed));
}

#[test]
fn recovery_of_a_foreign_signature_gives_another_address() {
    let signer = Signer::from_private_key(&key(5)).unwrap();
    let other = Signer::from_private_key(&key(6)).unwrap();
    let request = market_request(&other);
    let signed = other.sign(&request, CHAIN).unwrap();
    let recovered = recover(&signed.digest(), &signed.signature()).unwrap();
    assert_eq!(recovered, other.address());
    assert_ne!(recovered, signer.address());
    let wrong_digest = Hash32 { bytes: [3u8; 32] };
    assert_ne!(recover(&wrong_digest, &signed.signature()), Some(other.address()));
}

#[test]
fn request_builders() {
    let from = Address { bytes: [1u8; 20] };
    let to = Address { bytes: [2u8; 20] };
    let policy = GasPolicy::Legacy { gas_price: Wei::from_u64(5) };
    let request = TransactionRequest::transfer(from, to, Wei::from_u64(9), policy, CHAIN);
    assert_eq!(request.gas_limit, 21_000);
    assert_eq!(request.nonce, None);
    assert_eq!(request.chain_id, CHAIN);
    assert_eq!(request.with_gas_limit(50_000).gas_limit, 50_000);
    assert_eq!(request.with_nonce(3).nonce, Some(3));
    assert_eq!(request.fill_nonce(11).nonce, Some(11));
    assert_eq!(request.with_nonce(3).fill_nonce(11).nonce, Some(3));
    assert_eq!(request.fill_nonce(11).value, Wei::from_u64(9));
}
