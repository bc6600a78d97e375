//! Continuous one-way replication of a directory tree over a byte stream,
//! with an rsync-style rolling-checksum protocol: only the byte-level
//! differences of a changed file travel the wire.
//!
//! The library holds everything that can be decided without touching the
//! wire or the disk: the protocol records and their binary codec
//! ([`proto`], [`codec`]), the sender's request construction, chunking and
//! reply handling ([`sender`]), the receiver's per-request dispatcher and
//! chunk store ([`handler`], [`store`]), the delta-engine integration
//! ([`delta`], [`hash`]), and the ignore filter ([`ignore`], [`pathutil`]).
//! A caller performs the I/O: it moves frames, reads files, and applies
//! the filesystem actions the handlers return.

pub mod codec;
pub mod delta;
pub mod exchange;
pub mod handler;
pub mod hash;
pub mod ignore;
pub mod pathutil;
pub mod proto;
pub mod sender;
pub mod store;
