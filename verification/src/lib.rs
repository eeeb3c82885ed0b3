//! A minimal TFTP server core: the wire-packet codec, the stream
//! abstraction that decouples the protocol from storage, the per-peer
//! lock-step transfer state machine, and the session table with its
//! idle-peer reaper.
//!
//! Transport (the UDP socket), the storage resolver's filesystem side and
//! the receive loop live outside this crate; they exchange plain values
//! (byte buffers, addresses, tick counts) with the functions here.

pub mod packet;
pub mod protocol;
pub mod session;
pub mod stream;
pub mod text;
pub mod tftp;
