//! A local store of secp256k1 key pairs addressed by their compressed public
//! key, with the address and lock script derived from each key on demand.

pub mod address;
pub mod keys;
pub mod order;
pub mod store;
