//! What is shown for a key: its address on a chosen network, its lock
//! script and the hash of that script. Each is computed from the public key
//! when asked for and never kept in the store.
use vstd::prelude::*;
use crate::store::{copy_bytes, KeyRecord};

verus! {

/// Length in bytes of a lock script's arguments (a key hash).
pub const LOCK_ARGS_LEN: usize = 20;

/// The `hash_type` byte of a script referenced by its type hash.
pub const HASH_TYPE_TYPE: u8 = 1;

/// Which network's address encoding to use.
#[derive(Debug, Clone, Copy, PartialEq, Eq, Structural)]
pub enum NetworkTag {
    Main,
    Test,
}

/// The lock script that guards what is sent to a key's address.
pub struct LockScript {
    pub code_hash: Vec<u8>,
    pub hash_type: u8,
    pub args: Vec<u8>,
}

/// The type hash of the secp256k1 signature-hash lock.
pub open spec fn sighash_type_hash() -> Seq<u8> {
    seq![
        0x9bu8, 0xd7, 0xe0, 0x6f, 0x3e, 0xcf, 0x4b, 0xe0, 0xf2, 0xfc, 0xd2, 0x18, 0x8b, 0x23, 0xf1,
        0xb9, 0xfc, 0xc8, 0x8e, 0x5d, 0x4b, 0x65, 0xa8, 0x63, 0x7b, 0x17, 0x72, 0x3b, 0xbd, 0xa3,
        0xcc, 0xe8,
    ]
}

/// The first 20 bytes of the blake2b-256 digest (with CKB's personalisation).
pub uninterp spec fn blake160_of(data: Seq<u8>) -> Seq<u8>;

/// The short-format address of the signature-hash lock with these arguments.
pub uninterp spec fn short_address_of(mainnet: bool, args: Seq<u8>) -> Seq<char>;

/// The hash of the signature-hash lock script with these arguments.
pub uninterp spec fn sighash_lock_hash_of(args: Seq<u8>) -> Seq<u8>;

/// Relies on `ckb_sdk::util::blake160`: blake2b-256 cut to 20 bytes.
#[verifier::external_body]
fn blake160(data: &Vec<u8>) -> (r: Vec<u8>)
    ensures
        r@ == blake160_of(data@),
        r@.len() == LOCK_ARGS_LEN,
{
    ckb_sdk::util::blake160(data).as_bytes().to_vec()
}

/// Relies on `ckb_sdk::constants::SIGHASH_TYPE_HASH`.
#[verifier::external_body]
fn sighash_code_hash() -> (r: Vec<u8>)
    ensures
        r@ == sighash_type_hash(),
{
    ckb_sdk::constants::SIGHASH_TYPE_HASH.as_bytes().to_vec()
}

/// Relies on ckb-sdk's `Address` built from `AddressPayload::from_pubkey_hash`
/// in the short format, and its `Display`.
#[verifier::external_body]
fn short_address(network: NetworkTag, args: &Vec<u8>) -> (r: String)
    requires
        args@.len() == LOCK_ARGS_LEN,
    ensures
        r@ == short_address_of(network == NetworkTag::Main, args@),
{
    let hash = ckb_types::H160::from_slice(args).unwrap();
    let network = match network {
        NetworkTag::Main => ckb_sdk::NetworkType::Mainnet,
        NetworkTag::Test => ckb_sdk::NetworkType::Testnet,
    };
    ckb_sdk::Address::new(network, ckb_sdk::AddressPayload::from_pubkey_hash(hash), false).to_string()
}

/// Relies on ckb-sdk's `Script` of `AddressPayload::from_pubkey_hash` and
/// ckb-types' `calc_script_hash`.
#[verifier::external_body]
fn sighash_lock_hash(args: &Vec<u8>) -> (r: Vec<u8>)
    requires
        args@.len() == LOCK_ARGS_LEN,
    ensures
        r@ == sighash_lock_hash_of(args@),
        r@.len() == 32,
{
    let payload = ckb_sdk::AddressPayload::from_pubkey_hash(ckb_types::H160::from_slice(args).unwrap());
    ckb_types::packed::Script::from(&payload).calc_script_hash().raw_data().to_vec()
}

/// The arguments of the lock script of a public key: its key hash.
pub open spec fn lock_args_spec(public_key: Seq<u8>) -> Seq<u8> {
    blake160_of(public_key)
}

/// The address of a public key on a network.
pub open spec fn address_spec(network: NetworkTag, public_key: Seq<u8>) -> Seq<char> {
    short_address_of(network == NetworkTag::Main, lock_args_spec(public_key))
}

/// The hash of the lock script of a public key.
pub open spec fn lock_hash_spec(public_key: Seq<u8>) -> Seq<u8> {
    sighash_lock_hash_of(lock_args_spec(public_key))
}

/// The address of a public key on a network.
pub fn address(network: NetworkTag, public_key: &Vec<u8>) -> (r: String)
    ensures
        r@ == address_spec(network, public_key@),
{
    short_address(network, &blake160(public_key))
}

/// The lock script of a public key: the signature-hash lock, referenced by
/// type, over the key's hash.
pub fn lock_script(public_key: &Vec<u8>) -> (r: LockScript)
    ensures
        r.code_hash@ == sighash_type_hash(),
        r.hash_type == HASH_TYPE_TYPE,
        r.args@ == lock_args_spec(public_key@),
{
    LockScript { code_hash: sighash_code_hash(), hash_type: HASH_TYPE_TYPE, args: blake160(public_key) }
}

/// The hash of the lock script of a public key.
pub fn lock_hash(public_key: &Vec<u8>) -> (r: Vec<u8>)
    ensures
        r@ == lock_hash_spec(public_key@),
{
    sighash_lock_hash(&blake160(public_key))
}

/// Everything shown for a record: the public key, its address on the chosen
/// network, its lock script and that script's hash.
pub struct KeyInfo {
    pub public_key: Vec<u8>,
    pub address: String,
    pub lock_script: LockScript,
    pub lock_hash: Vec<u8>,
}

impl KeyRecord {
    /// The display fields of this record on a network.
    pub fn info(&self, network: NetworkTag) -> (r: KeyInfo)
        ensures
            r.public_key@ == self.public_key@,
            r.address@ == address_spec(network, self.public_key@),
            r.lock_script.code_hash@ == sighash_type_hash(),
            r.lock_script.hash_type == HASH_TYPE_TYPE,
            r.lock_script.args@ == lock_args_spec(self.public_key@),
            r.lock_hash@ == lock_hash_spec(self.public_key@),
    {
        let public_key = copy_bytes(&self.public_key);
        KeyInfo {
            address: address(network, &self.public_key),
            lock_script: lock_script(&self.public_key),
            lock_hash: lock_hash(&self.public_key),
            public_key,
        }
    }
}

} // verus!
