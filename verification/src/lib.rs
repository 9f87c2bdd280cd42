//! A codec for a binary, length-prefixed packet protocol over a byte channel.
//!
//! A packet on the wire is a 9-byte header (one flag byte, a 4-byte
//! big-endian unsigned length, a 4-byte big-endian signed id) followed by
//! exactly `length` bytes of opaque payload. A header of nine zero bytes is
//! the end-of-stream marker and carries no body.
//!
//! The two state machines here, [`CodecSink`](sink::CodecSink) and
//! [`CodecStream`](stream::CodecStream), frame packets onto and out of such a
//! channel. They never perform I/O themselves: a driver reads and writes the
//! underlying channel in chunks of any size and reports each transfer back,
//! and the machines resume at the exact byte offset where they stopped.

pub mod error;
pub mod metadata;
pub mod sink;
pub mod stream;
pub mod wire;

pub use error::CodecError;
pub use metadata::Metadata;
pub use metadata::PacketId;
pub use sink::CodecSink;
pub use sink::SinkOp;
pub use stream::CodecStream;
pub use stream::DecodeStep;

use vstd::prelude::*;

verus! {

/// The round-trip law across the two machines: a decoder that ended normally
/// after consuming exactly the bytes a cleanly shut down encoder emitted has
/// produced exactly the items that were submitted, in order.
pub proof fn lemma_codec_round_trip<W, R>(sink: CodecSink<W>, stream: CodecStream<R>)
    requires
        sink.wf(),
        sink.is_shutdown(),
        stream.wf(),
        stream.is_ended(),
        stream.consumed() == sink.emitted(),
    ensures
        stream.produced() == sink.submitted(),
{
    sink.lemma_drained_emitted();
    stream.lemma_ended_consumed();
    wire::lemma_stream_round_trip(sink.submitted(), stream.produced());
}

} // verus!
