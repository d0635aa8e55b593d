//! Text codecs for Solana-flavoured values: each wrapper type converts between
//! a single string token and a compact in-memory value.
pub mod b58;
pub mod b58_pubkey;
pub mod b58_signature;
pub mod b64_buffer;
pub mod b64_legacy_tx;
pub mod b64_versioned_tx;
pub mod decimal_str;
pub mod error;
pub mod schema;
pub mod u64_str;
