//! Decoding of Bitcoin transactions and of their standard locking scripts.
//!
//! A locking script is classified against a fixed set of standard templates
//! and rendered as a line of space-separated mnemonics. Every decoder reads
//! through a [`ByteCursor`], and its contract is stated over the grammar in
//! [`grammar`], a model of the templates on plain byte sequences.

pub mod builder;
pub mod cursor;
pub mod error;
pub mod grammar;
pub mod laws;
pub mod le;
pub mod opcode;
pub mod scripts;
pub mod text;
pub mod tx;
pub mod varint;
pub mod version;

pub use builder::ScriptBuilder;
pub use cursor::ByteCursor;
pub use error::{DecodeError, Expected};
pub use opcode::Opcode;
pub use scripts::StandardScripts;
pub use tx::{BtcTx, TxInput, TxOutput};
pub use varint::VarInt;
pub use version::TxVersion;
