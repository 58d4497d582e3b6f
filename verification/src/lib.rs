//! Verified core of the verifiable-intelligence toolkit: the binary envelope
//! and binding-header codecs for verifier keys, receipts and audit openings,
//! the error taxonomy, the checks of browser proof bundles, and the pure parts
//! of the provider client, logging, key generation, the command-line boundary
//! and the terminal runtime.

pub mod audit_binding;
pub mod binding;
pub mod bundle;
pub mod checksum;
pub mod cli;
pub mod client;
pub mod compression;
pub mod envelope;
pub mod errors;
pub mod key_binding;
pub mod keygen;
pub mod log;
pub mod pins;
pub mod receipt_binding;
pub mod text;
pub mod tui;
