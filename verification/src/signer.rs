//! The signer: one private key in memory, its address, and signatures
//! over transaction requests.

use vstd::prelude::*;
use crate::amount::Wei;
use crate::error::ErrorKind;
use crate::fees::GasPolicy;
use crate::primitives::{be_value, keccak256, keccak256_of, Address, Hash32};
use crate::transaction::{Signature, TransactionRequest};
use ethers_core::types::transaction::eip2718::TypedTransaction;
use ethers_core::types::{Eip1559TransactionRequest, H160, H256, U256};
use ethers_signers::LocalWallet;

verus! {

/// The order of the group of secp256k1.
pub open spec fn curve_order() -> nat {
    0xFFFF_FFFF_FFFF_FFFF_FFFF_FFFF_FFFF_FFFE_BAAE_DCE6_AF48_A03B_BFD2_5E8C_D036_4141nat
}

/// Whether bytes are a private key: thirty-two bytes that stand for a
/// number above zero and below the order of the curve.
pub open spec fn key_in_range(key: Seq<u8>) -> bool {
    key.len() == 32 && 0 < be_value(key) < curve_order()
}

/// The largest chain id for which the replay-protected recovery value
/// still fits in 64 bits.
pub open spec fn chain_id_limit() -> u64 {
    0x7FFF_FFFF_FFFF_FFED
}

/// The address of the account that a private key controls.
pub uninterp spec fn key_address(key: Seq<u8>) -> Seq<u8>;

/// The hash that is signed for a request with a flat gas price.
pub uninterp spec fn legacy_digest(
    chain_id: u64,
    nonce: u64,
    gas_price: nat,
    gas_limit: u64,
    to: Seq<u8>,
    value: nat,
) -> Seq<u8>;

/// The hash that is signed for a request with fee-market caps.
pub uninterp spec fn eip1559_digest(
    chain_id: u64,
    nonce: u64,
    max_priority_fee: nat,
    max_fee: nat,
    gas_limit: u64,
    to: Seq<u8>,
    value: nat,
) -> Seq<u8>;

/// The signature of a key over a hash, as `r`, `s` and `v`; `None` where
/// the wallet fails.
pub uninterp spec fn digest_signature(key: Seq<u8>, digest: Seq<u8>) -> Option<
    (Seq<u64>, Seq<u64>, u64),
>;

/// The address whose key made a signature over a hash; `None` where the
/// signature is none on the curve.
pub uninterp spec fn recovered_address(digest: Seq<u8>, r: Seq<u64>, s: Seq<u64>, v: u64) -> Option<
    Seq<u8>,
>;

/// The bytes of a signed transaction with a flat gas price.
pub uninterp spec fn legacy_payload(
    nonce: u64,
    gas_price: nat,
    gas_limit: u64,
    to: Seq<u8>,
    value: nat,
    r: Seq<u64>,
    s: Seq<u64>,
    v: u64,
) -> Seq<u8>;

/// The bytes of a signed transaction with fee-market caps.
pub uninterp spec fn eip1559_payload(
    chain_id: u64,
    nonce: u64,
    max_priority_fee: nat,
    max_fee: nat,
    gas_limit: u64,
    to: Seq<u8>,
    value: nat,
    r: Seq<u64>,
    s: Seq<u64>,
    parity: u64,
) -> Seq<u8>;

/// `LocalWallet::from_bytes` and the wallet's `address`: the wallet takes
/// thirty-two bytes as a key exactly where they stand for a number above
/// zero and below the curve's order, and derives the address from the
/// key alone.
#[verifier::external_body]
fn wallet_address(key: &[u8; 32]) -> (r: Option<Address>)
    ensures
        r.is_some() == key_in_range(key@),
        r.is_some() ==> r.unwrap()@ == key_address(key@),
{
    LocalWallet::from_bytes(key).ok().map(|w| Address { bytes: ethers_signers::Signer::address(&w).0 })
}

/// `Wallet::sign_hash`: the deterministic signature of a key over a
/// 32-byte hash. The contract only gives the result its name.
#[verifier::external_body]
fn wallet_sign_hash(key: &[u8; 32], digest: &Hash32) -> (r: Option<Signature>)
    ensures
        r.is_some() == digest_signature(key@, digest@).is_some(),
        r.is_some() ==> digest_signature(key@, digest@) == Some(
            (r.unwrap().r@, r.unwrap().s@, r.unwrap().v),
        ),
{
    let wallet = LocalWallet::from_bytes(key).ok()?;
    let sig = wallet.sign_hash(H256(digest.bytes)).ok()?;
    Some(Signature { r: sig.r.0, s: sig.s.0, v: sig.v })
}

/// `Signature::recover` of ethers on a hash: the address whose key made
/// the signature. The contract only gives the result its name.
#[verifier::external_body]
fn signature_recover(digest: &Hash32, signature: &Signature) -> (r: Option<Address>)
    ensures
        r.is_some() == recovered_address(digest@, signature.r@, signature.s@, signature.v).is_some(),
        r.is_some() ==> recovered_address(digest@, signature.r@, signature.s@, signature.v) == Some(
            r.unwrap()@,
        ),
{
    let sig = ethers_core::types::Signature { r: U256(signature.r), s: U256(signature.s), v: signature.v };
    sig.recover(H256(digest.bytes)).ok().map(|a| Address { bytes: a.0 })
}

/// `TypedTransaction::sighash` on a legacy request with every field set:
/// the hash to sign. The contract only gives the result its name.
#[verifier::external_body]
fn sighash_legacy(request: &TransactionRequest, nonce: u64, gas_price: &Wei) -> (r: Hash32)
    ensures
        r@ == legacy_digest(
            request.chain_id,
            nonce,
            gas_price@,
            request.gas_limit,
            request.to@,
            request.value@,
        ),
{
    let tx = ethers_core::types::TransactionRequest::new()
        .to(H160(request.to.bytes))
        .value(U256(request.value.limbs))
        .gas(request.gas_limit)
        .gas_price(U256(gas_price.limbs))
        .nonce(nonce)
        .chain_id(request.chain_id);
    Hash32 { bytes: TypedTransaction::Legacy(tx).sighash().0 }
}

/// `TypedTransaction::sighash` on an EIP-1559 request with every field
/// set and no access list: the hash to sign. The contract only gives the
/// result its name.
#[verifier::external_body]
fn sighash_eip1559(request: &TransactionRequest, nonce: u64, max_fee: &Wei, max_priority_fee: &Wei) -> (r:
    Hash32)
    ensures
        r@ == eip1559_digest(
            request.chain_id,
            nonce,
            max_priority_fee@,
            max_fee@,
            request.gas_limit,
            request.to@,
            request.value@,
        ),
{
    let tx = Eip1559TransactionRequest::new()
        .to(H160(request.to.bytes))
        .value(U256(request.value.limbs))
        .gas(request.gas_limit)
        .max_fee_per_gas(U256(max_fee.limbs))
        .max_priority_fee_per_gas(U256(max_priority_fee.limbs))
        .nonce(nonce)
        .chain_id(request.chain_id);
    Hash32 { bytes: TypedTransaction::Eip1559(tx).sighash().0 }
}

/// `TypedTransaction::rlp_signed` on a legacy request with every field
/// set: the bytes to broadcast. The contract only gives the result its
/// name.
#[verifier::external_body]
fn rlp_signed_legacy(request: &TransactionRequest, nonce: u64, gas_price: &Wei, signature: &Signature) -> (r:
    Vec<u8>)
    ensures
        r@ == legacy_payload(
            nonce,
            gas_price@,
            request.gas_limit,
            request.to@,
            request.value@,
            signature.r@,
            signature.s@,
            signature.v,
        ),
{
    let tx = ethers_core::types::TransactionRequest::new()
        .to(H160(request.to.bytes))
        .value(U256(request.value.limbs))
        .gas(request.gas_limit)
        .gas_price(U256(gas_price.limbs))
        .nonce(nonce);
    let sig = ethers_core::types::Signature { r: U256(signature.r), s: U256(signature.s), v: signature.v };
    TypedTransaction::Legacy(tx).rlp_signed(&sig).to_vec()
}

/// `TypedTransaction::rlp_signed` on an EIP-1559 request with every
/// field set and no access list: the bytes to broadcast. The outside
/// function subtracts from a `v` above one, so `requires` keeps `v` to
/// the parity. The contract only gives the result its name.
#[verifier::external_body]
fn rlp_signed_eip1559(
    request: &TransactionRequest,
    nonce: u64,
    max_fee: &Wei,
    max_priority_fee: &Wei,
    signature: &Signature,
) -> (r: Vec<u8>)
    requires
        signature.v <= 1,
    ensures
        r@ == eip1559_payload(
            request.chain_id,
            nonce,
            max_priority_fee@,
            max_fee@,
            request.gas_limit,
            request.to@,
            request.value@,
            signature.r@,
            signature.s@,
            signature.v,
        ),
{
    let tx = Eip1559TransactionRequest::new()
        .to(H160(request.to.bytes))
        .value(U256(request.value.limbs))
        .gas(request.gas_limit)
        .max_fee_per_gas(U256(max_fee.limbs))
        .max_priority_fee_per_gas(U256(max_priority_fee.limbs))
        .nonce(nonce)
        .chain_id(request.chain_id);
    let sig = ethers_core::types::Signature { r: U256(signature.r), s: U256(signature.s), v: signature.v };
    TypedTransaction::Eip1559(tx).rlp_signed(&sig).to_vec()
}

/// The recovery value that binds a signature to one chain: thirty-five,
/// twice the chain id, and the parity.
pub open spec fn replay_protected(parity: u64, chain_id: u64) -> nat {
    (35 + 2 * chain_id + parity) as nat
}

/// The recovery value for a chain, or `None` where the chain id is above
/// `chain_id_limit()` or the parity is neither zero nor one.
pub fn replay_protected_v(parity: u64, chain_id: u64) -> (r: Option<u64>)
    ensures
        r.is_some() == (parity <= 1 && chain_id <= chain_id_limit()),
        r.is_some() ==> r.unwrap() == replay_protected(parity, chain_id),
{
    if parity <= 1 && chain_id <= 0x7FFF_FFFF_FFFF_FFED {
        Some(35 + 2 * chain_id + parity)
    } else {
        None
    }
}

/// Whether a signature is one that this library hands on: its recovery
/// value is 27 or 28, and it recovers to the signer's own address.
pub open spec fn signature_accepted(signature: Signature, recovered: Option<Address>, signer: Address) -> bool {
    (signature.v == 27 || signature.v == 28) && recovered.is_some() && recovered.unwrap()@ == signer@
}

/// The parity of a signature that is accepted; `SigningFailed` for one
/// that is not.
pub fn check_signature(signature: &Signature, recovered: &Option<Address>, signer: &Address) -> (r:
    Result<u64, ErrorKind>)
    ensures
        r.is_ok() == signature_accepted(*signature, *recovered, *signer),
        r.is_ok() ==> r.unwrap() == signature.v - 27,
        r.is_err() ==> r == Err::<u64, ErrorKind>(ErrorKind::SigningFailed),
{
    if signature.v != 27 && signature.v != 28 {
        return Err(ErrorKind::SigningFailed);
    }
    match recovered {
        Some(address) => {
            if address.same_as(signer) {
                Ok(signature.v - 27)
            } else {
                Err(ErrorKind::SigningFailed)
            }
        },
        None => Err(ErrorKind::SigningFailed),
    }
}

/// Whether a request can be signed for a chain: it names that chain, the
/// chain id is within `chain_id_limit()`, its nonce is set, and its cap
/// on the whole fee is not below its cap on the priority fee.
pub open spec fn signable(request: TransactionRequest, chain_id: u64) -> bool {
    request.chain_id == chain_id && chain_id <= chain_id_limit() && request.nonce.is_some()
        && request.gas_policy.well_formed()
}

/// The hash that is signed for a request whose nonce is set.
pub open spec fn request_digest(request: TransactionRequest) -> Seq<u8> {
    match request.gas_policy {
        GasPolicy::Legacy { gas_price } => legacy_digest(
            request.chain_id,
            request.nonce.unwrap(),
            gas_price@,
            request.gas_limit,
            request.to@,
            request.value@,
        ),
        GasPolicy::Eip1559 { max_fee_per_gas, max_priority_fee_per_gas } => eip1559_digest(
            request.chain_id,
            request.nonce.unwrap(),
            max_priority_fee_per_gas@,
            max_fee_per_gas@,
            request.gas_limit,
            request.to@,
            request.value@,
        ),
    }
}

/// The bytes to broadcast for a request and a signature with recovery
/// value 27 or 28. A flat-price transaction carries the recovery value
/// that binds it to the chain, a fee-market transaction the parity.
pub open spec fn request_payload(request: TransactionRequest, signature: Signature) -> Seq<u8> {
    let parity = (signature.v - 27) as u64;
    match request.gas_policy {
        GasPolicy::Legacy { gas_price } => legacy_payload(
            request.nonce.unwrap(),
            gas_price@,
            request.gas_limit,
            request.to@,
            request.value@,
            signature.r@,
            signature.s@,
            replay_protected(parity, request.chain_id) as u64,
        ),
        GasPolicy::Eip1559 { max_fee_per_gas, max_priority_fee_per_gas } => eip1559_payload(
            request.chain_id,
            request.nonce.unwrap(),
            max_priority_fee_per_gas@,
            max_fee_per_gas@,
            request.gas_limit,
            request.to@,
            request.value@,
            signature.r@,
            signature.s@,
            parity,
        ),
    }
}

/// The hash that is signed for a request, or `None` for a request whose
/// nonce is not set.
pub fn digest_of(request: &TransactionRequest) -> (r: Option<Hash32>)
    ensures
        r.is_some() == request.nonce.is_some(),
        r.is_some() ==> r.unwrap()@ == request_digest(*request),
{
    let nonce = match request.nonce {
        Some(n) => n,
        None => {
            return None;
        },
    };
    match &request.gas_policy {
        GasPolicy::Legacy { gas_price } => Some(sighash_legacy(request, nonce, gas_price)),
        GasPolicy::Eip1559 { max_fee_per_gas, max_priority_fee_per_gas } => Some(
            sighash_eip1559(request, nonce, max_fee_per_gas, max_priority_fee_per_gas),
        ),
    }
}

/// A transaction that is signed: the bytes to broadcast, their hash, and
/// what was signed. Nothing changes it.
#[derive(Clone, Debug, PartialEq, Eq)]
pub struct SignedTransaction {
    payload: Vec<u8>,
    hash: Hash32,
    digest: Hash32,
    signature: Signature,
}

impl SignedTransaction {
    /// The bytes to broadcast.
    pub closed spec fn payload_bytes(self) -> Seq<u8> {
        self.payload@
    }

    /// The hash by which the chain knows the transaction.
    pub closed spec fn hash_bytes(self) -> Seq<u8> {
        self.hash@
    }

    /// The hash by which the chain knows the transaction, as a value.
    pub closed spec fn hash_value(self) -> Hash32 {
        self.hash
    }

    /// The hash that was signed.
    pub closed spec fn digest_bytes(self) -> Seq<u8> {
        self.digest@
    }

    /// The signature, with recovery value 27 or 28.
    pub closed spec fn signed_with(self) -> Signature {
        self.signature
    }

    /// Whether this is what a signer makes of a request: the hash of the
    /// request signed by the signer's key, with a signature that recovers
    /// to the signer's address, the bytes that request and signature
    /// give, and the hash of those bytes.
    pub open spec fn signs_request(self, signer: Signer, request: TransactionRequest) -> bool {
        let sig = self.signed_with();
        &&& self.digest_bytes() == request_digest(request)
        &&& digest_signature(signer.key_bytes(), request_digest(request)) == Some(
            (sig.r@, sig.s@, sig.v),
        )
        &&& recovered_address(self.digest_bytes(), sig.r@, sig.s@, sig.v) == Some(signer.account()@)
        &&& self.payload_bytes() == request_payload(request, sig)
        &&& self.hash_bytes() == keccak256(self.payload_bytes())
    }

    /// The bytes to broadcast.
    pub fn payload(&self) -> (r: &Vec<u8>)
        ensures
            r@ == self.payload_bytes(),
    {
        &self.payload
    }

    /// The hash by which the chain knows the transaction.
    pub fn hash(&self) -> (r: Hash32)
        ensures
            r == self.hash_value(),
            r@ == self.hash_bytes(),
    {
        self.hash
    }

    /// The hash that was signed.
    pub fn digest(&self) -> (r: Hash32)
        ensures
            r@ == self.digest_bytes(),
    {
        self.digest
    }

    /// The signature.
    pub fn signature(&self) -> (r: Signature)
        ensures
            r == self.signed_with(),
    {
        self.signature
    }
}

/// One private key, held in memory for as long as the signer lives, and
/// the address that belongs to it.
pub struct Signer {
    key: [u8; 32],
    address: Address,
}

impl Signer {
    /// The key is a private key, and the address is the one it gives.
    pub closed spec fn valid(self) -> bool {
        key_in_range(self.key@) && self.address@ == key_address(self.key@)
    }

    #[verifier::type_invariant]
    spec fn well_formed(self) -> bool {
        self.valid()
    }

    /// The private key.
    pub closed spec fn key_bytes(self) -> Seq<u8> {
        self.key@
    }

    /// The address of the signer's account.
    pub closed spec fn account(self) -> Address {
        self.address
    }

    /// Whether this signer returns a signed transaction for a request: the
    /// request is signable for the chain and is sent from the signer's
    /// own account, and the wallet's signature over its hash is accepted.
    pub open spec fn signs(self, request: TransactionRequest, chain_id: u64) -> bool {
        signable(request, chain_id) && request.from@ == self.account()@ && match digest_signature(self.key_bytes(), request_digest(request)) {
            Some((r, s, v)) => (v == 27 || v == 28) && recovered_address(
                request_digest(request),
                r,
                s,
                v,
            ) == Some(self.account()@),
            None => false,
        }
    }

    /// The signer for a private key. `InvalidKey` where the bytes are not
    /// thirty-two, or stand for zero or for a number that is not below
    /// the order of the curve.
    pub fn from_private_key(bytes: &[u8]) -> (r: Result<Signer, ErrorKind>)
        ensures
            r.is_ok() == key_in_range(bytes@),
            r.is_ok() ==> r.unwrap().valid() && r.unwrap().key_bytes() == bytes@
                && r.unwrap().account()@ == key_address(bytes@),
            r.is_err() ==> r == Err::<Signer, ErrorKind>(ErrorKind::InvalidKey),
    {
        if bytes.len() != 32 {
            return Err(ErrorKind::InvalidKey);
        }
        let mut key = [0u8; 32];
        let mut i: usize = 0;
        while i < 32
            invariant
                i <= 32,
                bytes@.len() == 32,
                forall|k: int| 0 <= k < i ==> key@[k] == bytes@[k],
            decreases 32 - i,
        {
            key[i] = bytes[i];
            i += 1;
        }
        assert(key@ =~= bytes@);
        match wallet_address(&key) {
            Some(address) => Ok(Signer { key, address }),
            None => Err(ErrorKind::InvalidKey),
        }
    }

    /// The address of the signer's account: the one that its key gives,
    /// at every call.
    pub fn address(&self) -> (r: Address)
        ensures
            r == self.account(),
            r@ == key_address(self.key_bytes()),
    {
        proof {
            use_type_invariant(self);
        }
        self.address
    }

    /// Signs a request for a chain. The result depends on the key, the
    /// request and the chain id alone. `SigningFailed` where the request
    /// names another chain, the chain id is above `chain_id_limit()`, the
    /// nonce is not set, the fee caps are out of order, the sender is not
    /// the signer's account, or the wallet gives no signature that
    /// recovers to the signer's address.
    pub fn sign(&self, request: &TransactionRequest, chain_id: u64) -> (r: Result<
        SignedTransaction,
        ErrorKind,
    >)
        ensures
            r.is_ok() == self.signs(*request, chain_id),
            r.is_err() ==> r == Err::<SignedTransaction, ErrorKind>(ErrorKind::SigningFailed),
            r.is_ok() ==> r.unwrap().signs_request(*self, *request),
    {
        if request.chain_id != chain_id || chain_id > 0x7FFF_FFFF_FFFF_FFED {
            return Err(ErrorKind::SigningFailed);
        }
        if !request.gas_policy.is_well_formed() || !request.from.same_as(&self.address) {
            return Err(ErrorKind::SigningFailed);
        }
        let nonce = match request.nonce {
            Some(n) => n,
            None => {
                return Err(ErrorKind::SigningFailed);
            },
        };
        let digest = match digest_of(request) {
            Some(d) => d,
            None => {
                return Err(ErrorKind::SigningFailed);
            },
        };
        let signature = match wallet_sign_hash(&self.key, &digest) {
            Some(s) => s,
            None => {
                return Err(ErrorKind::SigningFailed);
            },
        };
        let recovered = signature_recover(&digest, &signature);
        let parity = match check_signature(&signature, &recovered, &self.address) {
            Ok(p) => p,
            Err(e) => {
                return Err(e);
            },
        };
        let payload = match &request.gas_policy {
            GasPolicy::Legacy { gas_price } => {
                let v = match replay_protected_v(parity, chain_id) {
                    Some(v) => v,
                    None => {
                        return Err(ErrorKind::SigningFailed);
                    },
                };
                let bound = Signature { r: signature.r, s: signature.s, v };
                rlp_signed_legacy(request, nonce, gas_price, &bound)
            },
            GasPolicy::Eip1559 { max_fee_per_gas, max_priority_fee_per_gas } => {
                let bare = Signature { r: signature.r, s: signature.s, v: parity };
                rlp_signed_eip1559(request, nonce, max_fee_per_gas, max_priority_fee_per_gas, &bare)
            },
        };
        let hash = keccak256_of(payload.as_slice());
        Ok(SignedTransaction { payload, hash, digest, signature })
    }
}

/// The address of a signer is the one that its key gives, and every
/// signature that the signer hands out recovers to that address.
pub proof fn lemma_signature_recovers(signer: Signer, request: TransactionRequest, chain_id: u64)
    requires
        signer.valid(),
        signer.signs(request, chain_id),
    ensures
        signer.account()@ == key_address(signer.key_bytes()),
        ({
            let sig = digest_signature(signer.key_bytes(), request_digest(request)).unwrap();
            recovered_address(request_digest(request), sig.0, sig.1, sig.2) == Some(
                signer.account()@,
            )
        }),
{
}

} // verus!
