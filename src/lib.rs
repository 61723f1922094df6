//! Length-prefixed framing of values over byte streams, for any codec.
//!
//! A [`Format`] turns values into bytes and back. A [`TransmogWriter`]
//! serializes values into a send buffer, each preceded by its length as an
//! order-preserving varint, and hands the buffer to a sink in as many pieces
//! as the sink accepts. A [`TransmogReader`] buffers the bytes of a source
//! and cuts them into frames again. A [`TransmogStream`] pairs the two over
//! one duplex transport and can be split into independent halves. The
//! [`versions`] module wraps payloads in an optional version header.
//!
//! The reader and writer perform no I/O: their owner moves bytes between
//! them and the transport, and asks them what to do next.
pub mod buffer;
pub mod format;
pub mod reader;
pub mod stream;
pub mod varint;
pub mod versions;
pub mod writer;

pub use format::{
    Bincode, BorrowedDeserializer, Cbor, Ciborium, Endian, Format, IntegerEncoding, Json,
    OwnedDeserializer, Pot,
};
pub use reader::{FrameError, FrameStatus, ReadStep, TransmogReader};
pub use stream::{Builder, InternalTransmogWriter, TransmogStream};
pub use versions::{
    decode, unwrap_version, wrap, write_header, ConstVersioned, Error, UnknownVersion, Versioned,
};
pub use writer::{
    AsyncDestination, FlushStep, SyncDestination, TransmogWriter, TransmogWriterFor, WriteError,
};
