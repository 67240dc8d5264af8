//! Cryptographic kernel of a peer-to-peer messaging system.
//!
//! Every message key is derived on the fly from one 256-bit root state. There
//! is no state per message, no queue of keys and no chain of counters.
//!
//! * `root_state`, `init_module`, `evolution`, `anti_dos`: how the root state
//!   comes about, is replaced, and catches up with that of the peer.
//! * `message_cipher`, `tail_padding`, `constant_flow`: how a message travels.
//! * `virtual_volume`, `vault`, `disk_wipe`: the encrypted store in one file.
//! * `clock_align`: the estimated drift between the counters of the peers.
//! * `memory_protection`: bytes that are overwritten when they are let go.
//!
//! The library does no I/O. Where something is to be done to a file or a
//! packet is to be sent, a function says what, and the caller does it.
//! The cryptographic primitives come from outside crates by way of `crypto`.

pub mod crypto;
pub mod encoding;
pub mod labels;

pub mod root_state;
pub mod init_module;
pub mod message_cipher;
pub mod tail_padding;
pub mod evolution;
pub mod anti_dos;
pub mod constant_flow;

pub mod memory_protection;
pub mod disk_wipe;
pub mod clock_align;

pub mod disk;
pub mod bitmap;
pub mod virtual_volume;
pub mod volume_laws;
pub mod vault;
