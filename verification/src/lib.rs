//! A verified client-side layer over an Ergo node's wallet and UTXO-scanning
//! API: box selection, scan registration, and the transaction pipeline.
//!
//! The node itself is reached over HTTP by the embedding application; this
//! crate holds everything that can be decided locally: how requests are
//! built, how the node's JSON replies are interpreted, how boxes are chosen
//! to cover a spend, and how scans are persisted and reloaded.

use vstd::prelude::*;

pub mod boxes;
pub mod document;
pub mod local_config;
pub mod ergo;
pub mod node_interface;
pub mod scanning;
pub mod text;
pub mod transactions;
pub mod types;

pub use boxes::WalletBox;
pub use local_config::does_local_config_exist;
pub use node_interface::NodeInterface;
pub use scanning::Scan;
pub use types::ScanId;

verus! {

/// A Base58 encoded String of a Ergo P2PK address.
pub type P2PKAddressString = String;

/// A JSON String
pub type JsonString = String;

/// A Base58 encoded String of a Ergo P2S address.
pub type P2SAddressString = String;

/// The smallest unit of the Erg currency.
pub type NanoErg = u64;

/// A block height of the chain.
pub type BlockHeight = u64;

/// Duration in number of blocks.
pub type BlockDuration = u64;

/// A Base58 encoded String of a Token ID.
pub type TokenID = String;

/// Textual form of the integer which the Ergo node provides to reference a
/// given scan.
pub type ScanID = String;

} // verus!
