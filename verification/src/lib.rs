//! Packet-header codec for a small family of file-transfer protocols.
//!
//! The crate classifies a raw buffer into a [`PacketHeader`] kind by
//! priority-ordered prefix matching against a fixed token table, and it
//! encodes and decodes the two structured header layouts the protocols use:
//! the line-oriented control header [`TCPHeader`] exchanged during discovery
//! and file-request phases, and the fixed-field data header
//! [`StopAndWaitHeader`] prepended to reliable-data-transfer segments.

pub mod error;
pub mod text;
pub mod packet_kind;
pub mod stdin_command;
pub mod control;
pub mod data;

pub use error::HeaderError;
pub use packet_kind::PacketHeader;
pub use stdin_command::StdinHeader;
pub use control::TCPHeader;
pub use data::StopAndWaitHeader;
