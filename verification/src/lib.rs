//! Protocol engine of a bridge minter: escrowed deposits are attested with a
//! threshold signature over a fixed payload, and escrow is released exactly
//! once per foreign burn event.

pub mod crypto;
pub mod endian;
pub mod hash;
pub mod memory;
pub mod error;
pub mod utils;
pub mod status;
pub mod payload;
pub mod nonces;
pub mod statuses;
pub mod signatures;
pub mod events;
pub mod guard;
pub mod types;
pub mod minter;
pub mod mint;
pub mod release;
pub mod blocks;
pub mod recovery;
