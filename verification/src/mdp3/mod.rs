//! CME Market Data Platform 3.0 (MDP 3.0) wire codec.
//!
//! Layout of one UDP payload (all little-endian):
//!
//! ```text
//! +-----------------------------+  CME binary packet header (12 bytes)
//! | MsgSeqNum     u32  @0       |
//! | SendingTime   u64  @4 (ns)  |
//! +-----------------------------+  then 1..N SBE messages, each:
//! | MessageSize   u16           |  size of the SBE message (incl. its 8-byte header)
//! | --- SBE message header (8) -|
//! | blockLength   u16           |
//! | templateId    u16           |
//! | schemaId      u16           |
//! | version       u16           |
//! | --- root block ------------ |
//! | --- repeating groups ------ |
//! +-----------------------------+
//! ```
//!
//! Decoder and encoder are specified over one description of these bytes, and
//! [`laws`] proves that decoding undoes encoding.

pub mod book_refresh;
pub mod encode;
pub mod enums;
pub mod header;
pub mod laws;
pub mod packet;
