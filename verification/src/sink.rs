//! The encoding state machine: frames `(payload, metadata)` pairs onto a
//! byte sink.
//!
//! The sink never performs I/O. A driver asks it what to do next
//! ([`CodecSink::flush_action`] or [`CodecSink::close_action`]), performs the
//! write on the underlying channel, and reports how many bytes the channel
//! accepted ([`CodecSink::note_written`]). The machine resumes at the exact
//! byte offset where the last transfer stopped, so any chunking of writes —
//! including a suspension between any two bytes — produces the same wire
//! bytes.

use vstd::prelude::*;

use crate::error::CodecError;
use crate::metadata::Metadata;
use crate::metadata::PacketId;
use crate::wire::encodable_items;
use crate::wire::eos_bytes;
use crate::wire::id_bits;
use crate::wire::id_to_bits;
use crate::wire::items_bytes;
use crate::wire::packet_bytes;
use crate::wire::stream_bytes;
use crate::wire::u32_be;
use crate::wire::u32_be_byte;
use crate::wire::encodable;

verus! {

// Which field of the in-flight packet is being written, and how far into it
// the underlying sink has accepted bytes.
#[derive(Copy, Clone)]
enum WritePhase {
    Flags(Metadata),
    Length(PacketId, u8),
    Id(PacketId, u8),
    Data(u32),
}

#[derive(Copy, Clone)]
enum SinkState {
    // initial, and again after a packet is fully written
    Idle,
    // writing the in-flight packet
    Buffering(WritePhase),
    // writing the nine-zero-byte end-of-stream marker
    EndOfStream(u8),
    // the marker is written; only the wrapped writer remains to close
    Shutdown,
}

/// The next step a driver of a [`CodecSink`] must take.
#[derive(Debug, PartialEq, Eq)]
pub enum SinkOp {
    /// Write these bytes to the wrapped writer and report the accepted count
    /// back through [`CodecSink::note_written`]. A partial write is fine.
    Write(Vec<u8>),
    /// Nothing is owed to the wire: flush the wrapped writer.
    Flush,
    /// The end-of-stream marker is fully written: close the wrapped writer.
    Close,
}

/// This sink consumes pairs of payload bytes and [`Metadata`] and encodes
/// them into packets for the wrapped writer of type `W`.
pub struct CodecSink<W> {
    /// The wrapped writer. The sink itself never touches it: the driver
    /// performs every write, flush and close on it.
    pub writer: W,
    payload: Vec<u8>,
    state: SinkState,
    emitted: Ghost<Seq<u8>>,
    submitted: Ghost<Seq<(Seq<u8>, Metadata)>>,
}

impl<W> CodecSink<W> {
    /// The wrapped writer, as specifications see it.
    pub closed spec fn spec_writer(self) -> W {
        self.writer
    }

    /// Every byte the wrapped writer has accepted so far, in order.
    pub closed spec fn emitted(self) -> Seq<u8> {
        self.emitted@
    }

    /// Every item accepted by `start_send` so far, in order.
    pub closed spec fn submitted(self) -> Seq<(Seq<u8>, Metadata)> {
        self.submitted@
    }

    /// No packet is in flight and the stream is not closing.
    pub closed spec fn is_idle(self) -> bool {
        self.state is Idle
    }

    /// A packet is in flight.
    pub closed spec fn is_buffering(self) -> bool {
        self.state is Buffering
    }

    /// The end-of-stream marker has begun to be written (or is written).
    pub closed spec fn is_closing(self) -> bool {
        self.state is EndOfStream || self.state is Shutdown
    }

    /// The end-of-stream marker is fully written.
    pub closed spec fn is_shutdown(self) -> bool {
        self.state is Shutdown
    }

    /// The bytes still owed to the wire: the unwritten tail of the in-flight
    /// packet, or of the end-of-stream marker.
    pub closed spec fn owed(self) -> Seq<u8> {
        match self.state {
            SinkState::Idle => Seq::empty(),
            SinkState::Buffering(ph) => match ph {
                WritePhase::Flags(m) => packet_bytes(self.payload@, m),
                WritePhase::Length(id, off) => u32_be(self.payload@.len() as u32).skip(off as int)
                    + u32_be(id_bits(id)) + self.payload@,
                WritePhase::Id(id, off) => u32_be(id_bits(id)).skip(off as int) + self.payload@,
                WritePhase::Data(off) => self.payload@.skip(off as int),
            },
            SinkState::EndOfStream(off) => eos_bytes().skip(off as int),
            SinkState::Shutdown => Seq::empty(),
        }
    }

    // Field offsets lie inside their fields and the in-flight payload fits
    // the length field.
    spec fn shape_ok(self) -> bool {
        match self.state {
            SinkState::Idle => true,
            SinkState::Buffering(ph) => encodable(self.payload@) && match ph {
                WritePhase::Flags(_) => true,
                WritePhase::Length(_, off) => off < 4,
                WritePhase::Id(_, off) => off < 4,
                WritePhase::Data(off) => (off as int) < self.payload@.len(),
            },
            SinkState::EndOfStream(off) => off < 9,
            SinkState::Shutdown => true,
        }
    }

    // The accepted bytes plus the owed bytes are exactly the wire encoding
    // of what was submitted (terminated once closing began).
    spec fn books_ok(self) -> bool {
        if self.is_closing() {
            self.emitted@ + self.owed() == stream_bytes(self.submitted@)
        } else {
            self.emitted@ + self.owed() == items_bytes(self.submitted@)
        }
    }

    /// The machine's invariant: every constructor establishes it and every
    /// method preserves it.
    pub closed spec fn wf(self) -> bool {
        self.shape_ok() && self.books_ok() && encodable_items(self.submitted@)
    }

    /// Once the machine is drained, the accepted bytes are exactly the wire
    /// encoding of the submitted items — terminated iff the stream closed.
    pub proof fn lemma_drained_emitted(self)
        requires
            self.wf(),
        ensures
            self.is_shutdown() ==> self.emitted() == stream_bytes(self.submitted()),
            self.is_idle() ==> self.emitted() == items_bytes(self.submitted()),
            encodable_items(self.submitted()),
    {
        assert(self.emitted@ + Seq::<u8>::empty() =~= self.emitted@);
    }

    /// Create a new `CodecSink`, wrapping the given writer.
    pub fn new(writer: W) -> (s: CodecSink<W>)
        ensures
            s.wf(),
            s.is_idle(),
            !s.is_closing(),
            s.spec_writer() == writer,
            s.emitted() == Seq::<u8>::empty(),
            s.submitted() == Seq::<(Seq<u8>, Metadata)>::empty(),
            s.owed() == Seq::<u8>::empty(),
    {
        let s = CodecSink {
            writer,
            payload: Vec::new(),
            state: SinkState::Idle,
            emitted: Ghost(Seq::empty()),
            submitted: Ghost(Seq::empty()),
        };
        proof {
            assert(s.emitted@ + s.owed() =~= items_bytes(s.submitted@));
        }
        s
    }

    /// Consume the `CodecSink` to retrieve ownership of the inner writer.
    pub fn into_inner(self) -> (w: W)
        ensures
            w == self.spec_writer(),
    {
        self.writer
    }

    /// Accept one `(payload, metadata)` item for encoding.
    ///
    /// Accepted only while idle. A payload longer than the four length bytes
    /// can describe is rejected with `InvalidInput` and the sink stays idle;
    /// otherwise the sink starts buffering the packet and owes its full wire
    /// bytes. No bytes are written here.
    pub fn start_send(&mut self, payload: Vec<u8>, metadata: Metadata) -> (r: Result<
        (),
        CodecError,
    >)
        requires
            old(self).wf(),
            old(self).is_idle(),
        ensures
            final(self).wf(),
            final(self).spec_writer() == old(self).spec_writer(),
            final(self).emitted() == old(self).emitted(),
            !final(self).is_closing(),
            payload@.len() > u32::MAX ==> r == Err::<(), CodecError>(CodecError::InvalidInput)
                && final(self).is_idle() && final(self).submitted() == old(self).submitted()
                && final(self).owed() == Seq::<u8>::empty(),
            payload@.len() <= u32::MAX ==> r == Ok::<(), CodecError>(())
                && final(self).is_buffering()
                && final(self).submitted() == old(self).submitted().push((payload@, metadata))
                && final(self).owed() == packet_bytes(payload@, metadata),
    {
        if payload.len() > u32::MAX as usize {
            return Err(CodecError::InvalidInput);
        }
        self.payload = payload;
        self.state = SinkState::Buffering(WritePhase::Flags(metadata));
        proof {
            crate::wire::lemma_items_bytes_push(self.submitted@, self.payload@, metadata);
        }
        self.submitted = Ghost(self.submitted@.push((self.payload@, metadata)));
        proof {
            assert(old(self).emitted@ + Seq::<u8>::empty() =~= old(self).emitted@);
            assert(self.emitted@ + self.owed() =~= items_bytes(self.submitted@));
        }
        Ok(())
    }

    // Builds the owed bytes as one chunk for the driver to write.
    fn owed_chunk(&self) -> (chunk: Vec<u8>)
        requires
            self.wf(),
            self.is_buffering() || (self.is_closing() && !self.is_shutdown()),
        ensures
            chunk@ == self.owed(),
            chunk@.len() > 0,
    {
        let mut chunk: Vec<u8> = Vec::new();
        match self.state {
            SinkState::Buffering(ph) => {
                match ph {
                    WritePhase::Flags(m) => {
                        chunk.push(m.flags);
                        push_u32_be_from(&mut chunk, self.payload.len() as u32, 0);
                        push_u32_be_from(&mut chunk, id_to_bits(m.id), 0);
                        push_payload_from(&mut chunk, &self.payload, 0);
                        proof {
                            assert(chunk@ =~= packet_bytes(self.payload@, m));
                        }
                    },
                    WritePhase::Length(id, off) => {
                        push_u32_be_from(&mut chunk, self.payload.len() as u32, off);
                        push_u32_be_from(&mut chunk, id_to_bits(id), 0);
                        push_payload_from(&mut chunk, &self.payload, 0);
                        proof {
                            assert(chunk@ =~= self.owed());
                        }
                    },
                    WritePhase::Id(id, off) => {
                        push_u32_be_from(&mut chunk, id_to_bits(id), off);
                        push_payload_from(&mut chunk, &self.payload, 0);
                        proof {
                            assert(chunk@ =~= self.owed());
                        }
                    },
                    WritePhase::Data(off) => {
                        push_payload_from(&mut chunk, &self.payload, off as usize);
                        proof {
                            assert(chunk@ =~= self.owed());
                        }
                    },
                }
            },
            SinkState::EndOfStream(off) => {
                push_eos_from(&mut chunk, off);
                proof {
                    assert(chunk@ =~= self.owed());
                }
            },
            SinkState::Idle => {
                proof {
                    assert(false);
                }
            },
            SinkState::Shutdown => {
                proof {
                    assert(false);
                }
            },
        }
        chunk
    }

    /// The next step for a driver that is flushing: write the owed bytes, or
    /// — once nothing is owed — flush the wrapped writer (close it instead
    /// once the stream has shut down).
    pub fn flush_action(&self) -> (op: SinkOp)
        requires
            self.wf(),
        ensures
            match op {
                SinkOp::Write(chunk) => chunk@ == self.owed() && chunk@.len() > 0,
                SinkOp::Flush => self.is_idle(),
                SinkOp::Close => self.is_shutdown(),
            },
    {
        match self.state {
            SinkState::Idle => SinkOp::Flush,
            SinkState::Shutdown => SinkOp::Close,
            SinkState::Buffering(_) => SinkOp::Write(self.owed_chunk()),
            SinkState::EndOfStream(_) => SinkOp::Write(self.owed_chunk()),
        }
    }

    /// The next step for a driver that is closing: drain the in-flight
    /// packet, then write the end-of-stream marker, then close the wrapped
    /// writer. An idle sink starts owing the marker here.
    pub fn close_action(&mut self) -> (op: SinkOp)
        requires
            old(self).wf(),
        ensures
            final(self).wf(),
            final(self).spec_writer() == old(self).spec_writer(),
            final(self).emitted() == old(self).emitted(),
            final(self).submitted() == old(self).submitted(),
            old(self).is_idle() ==> final(self).is_closing() && final(self).owed() == eos_bytes(),
            !old(self).is_idle() ==> final(self).owed() == old(self).owed()
                && final(self).is_closing() == old(self).is_closing()
                && final(self).is_buffering() == old(self).is_buffering()
                && final(self).is_shutdown() == old(self).is_shutdown(),
            match op {
                SinkOp::Write(chunk) => chunk@ == final(self).owed() && chunk@.len() > 0,
                SinkOp::Flush => false,
                SinkOp::Close => final(self).is_shutdown(),
            },
    {
        if let SinkState::Idle = self.state {
            self.state = SinkState::EndOfStream(0);
            proof {
                assert(self.owed() =~= eos_bytes());
                assert(self.emitted@ + self.owed() =~= stream_bytes(self.submitted@));
            }
        }
        match self.state {
            SinkState::Shutdown => SinkOp::Close,
            _ => SinkOp::Write(self.owed_chunk()),
        }
    }

    /// Record that the wrapped writer accepted the next `n` owed bytes.
    ///
    /// `n` may be any prefix of the owed bytes — the machine advances by
    /// exactly `n` and will hand out the rest later, so no byte is repeated
    /// or lost however the writes are chunked. Accepting zero bytes while
    /// bytes are owed means the writer is broken: `WriteZero`, and the
    /// machine is left unchanged mid-field.
    #[verifier::rlimit(60)]
    pub fn note_written(&mut self, n: usize) -> (r: Result<(), CodecError>)
        requires
            old(self).wf(),
            old(self).owed().len() > 0,
            n <= old(self).owed().len(),
        ensures
            final(self).wf(),
            final(self).spec_writer() == old(self).spec_writer(),
            final(self).submitted() == old(self).submitted(),
            final(self).is_closing() == old(self).is_closing(),
            n == 0 ==> r == Err::<(), CodecError>(CodecError::WriteZero) && final(self).owed()
                == old(self).owed() && final(self).emitted() == old(self).emitted(),
            n > 0 ==> r == Ok::<(), CodecError>(()) && final(self).emitted() == old(self).emitted()
                + old(self).owed().take(n as int) && final(self).owed() == old(self).owed().skip(
                n as int,
            ),
            n > 0 && n == old(self).owed().len() ==> (old(self).is_closing()
                ==> final(self).is_shutdown()) && (!old(self).is_closing()
                ==> final(self).is_idle()),
    {
        if n == 0 {
            return Err(CodecError::WriteZero);
        }
        let ghost old_owed = self.owed();
        let mut rem = n;
        while rem > 0
            invariant
                rem <= n,
                n - rem <= old_owed.len(),
                n <= old_owed.len(),
                self.shape_ok(),
                self.owed() == old_owed.skip(n - rem),
                self.emitted@ == old(self).emitted@,
                self.submitted@ == old(self).submitted@,
                self.writer == old(self).writer,
                self.is_closing() == old(self).is_closing(),
            decreases rem,
        {
            let ghost prev = self.owed();
            proof {
                assert(prev.len() == old_owed.len() - (n - rem));
                assert(prev.len() >= rem);
            }
            match self.state {
                SinkState::Buffering(ph) => {
                    match ph {
                        WritePhase::Flags(m) => {
                            // one flags byte
                            self.state = SinkState::Buffering(WritePhase::Length(m.id, 0));
                            proof {
                                assert(self.owed() =~= prev.skip(1));
                                assert(prev.skip(1) =~= old_owed.skip(n - rem + 1));
                            }
                            rem = rem - 1;
                        },
                        WritePhase::Length(id, off) => {
                            let fr = 4 - (off as usize);
                            let k = if rem < fr {
                                rem
                            } else {
                                fr
                            };
                            if (off as usize) + k < 4 {
                                self.state = SinkState::Buffering(
                                    WritePhase::Length(id, off + k as u8),
                                );
                            } else {
                                self.state = SinkState::Buffering(WritePhase::Id(id, 0));
                            }
                            proof {
                                assert(self.owed() =~= prev.skip(k as int));
                                assert(prev.skip(k as int) =~= old_owed.skip(n - rem + k));
                            }
                            rem = rem - k;
                        },
                        WritePhase::Id(id, off) => {
                            let fr = 4 - (off as usize);
                            let k = if rem < fr {
                                rem
                            } else {
                                fr
                            };
                            if (off as usize) + k < 4 {
                                self.state = SinkState::Buffering(
                                    WritePhase::Id(id, off + k as u8),
                                );
                            } else {
                                if self.payload.len() == 0 {
                                    self.state = SinkState::Idle;
                                } else {
                                    self.state = SinkState::Buffering(WritePhase::Data(0));
                                }
                            }
                            proof {
                                assert(self.owed() =~= prev.skip(k as int));
                                assert(prev.skip(k as int) =~= old_owed.skip(n - rem + k));
                            }
                            rem = rem - k;
                        },
                        WritePhase::Data(off) => {
                            let fr = self.payload.len() - (off as usize);
                            let k = if rem < fr {
                                rem
                            } else {
                                fr
                            };
                            if (off as usize) + k < self.payload.len() {
                                self.state = SinkState::Buffering(
                                    WritePhase::Data(off + k as u32),
                                );
                            } else {
                                self.state = SinkState::Idle;
                            }
                            proof {
                                assert(self.owed() =~= prev.skip(k as int));
                                assert(prev.skip(k as int) =~= old_owed.skip(n - rem + k));
                            }
                            rem = rem - k;
                        },
                    }
                },
                SinkState::EndOfStream(off) => {
                    let fr = 9 - (off as usize);
                    let k = if rem < fr {
                        rem
                    } else {
                        fr
                    };
                    if (off as usize) + k < 9 {
                        self.state = SinkState::EndOfStream(off + k as u8);
                    } else {
                        self.state = SinkState::Shutdown;
                    }
                    proof {
                        assert(self.owed() =~= prev.skip(k as int));
                        assert(prev.skip(k as int) =~= old_owed.skip(n - rem + k));
                    }
                    rem = rem - k;
                },
                SinkState::Idle => {
                    proof {
                        assert(false);
                    }
                },
                SinkState::Shutdown => {
                    proof {
                        assert(false);
                    }
                },
            }
        }
        self.emitted = Ghost(self.emitted@ + old_owed.take(n as int));
        proof {
            assert(self.emitted@ + self.owed() =~= old(self).emitted@ + old_owed);
        }
        Ok(())
    }
}

// Appends the big-endian bytes of `v` from byte offset `from` on.
fn push_u32_be_from(out: &mut Vec<u8>, v: u32, from: u8)
    requires
        from <= 4,
    ensures
        final(out)@ == old(out)@ + u32_be(v).skip(from as int),
{
    let mut i: usize = from as usize;
    while i < 4
        invariant
            from <= i <= 4,
            out@ == old(out)@ + u32_be(v).subrange(from as int, i as int),
        decreases 4 - i,
    {
        let b = u32_be_byte(v, i);
        out.push(b);
        proof {
            assert(old(out)@ + u32_be(v).subrange(from as int, i as int) + seq![u32_be(v)[i as int]]
                =~= old(out)@ + u32_be(v).subrange(from as int, i + 1));
        }
        i = i + 1;
    }
    proof {
        assert(old(out)@ + u32_be(v).subrange(from as int, 4) =~= old(out)@ + u32_be(v).skip(
            from as int,
        ));
        assert(out@ + Seq::<u8>::empty() =~= out@);
    }
}

// Appends the payload bytes from offset `from` on.
fn push_payload_from(out: &mut Vec<u8>, payload: &Vec<u8>, from: usize)
    requires
        from <= payload@.len(),
    ensures
        final(out)@ == old(out)@ + payload@.skip(from as int),
{
    let mut i: usize = from;
    while i < payload.len()
        invariant
            from <= i <= payload@.len(),
            out@ == old(out)@ + payload@.subrange(from as int, i as int),
        decreases payload@.len() - i,
    {
        let b = payload[i];
        out.push(b);
        proof {
            assert(old(out)@ + payload@.subrange(from as int, i as int) + seq![payload@[i as int]]
                =~= old(out)@ + payload@.subrange(from as int, i + 1));
        }
        i = i + 1;
    }
    proof {
        assert(old(out)@ + payload@.subrange(from as int, payload@.len() as int) =~= old(out)@
            + payload@.skip(from as int));
    }
}

// Appends the end-of-stream marker bytes from offset `from` on.
fn push_eos_from(out: &mut Vec<u8>, from: u8)
    requires
        from <= 9,
    ensures
        final(out)@ == old(out)@ + eos_bytes().skip(from as int),
{
    let mut i: usize = from as usize;
    while i < 9
        invariant
            from <= i <= 9,
            out@ == old(out)@ + eos_bytes().subrange(from as int, i as int),
        decreases 9 - i,
    {
        out.push(0u8);
        proof {
            assert(eos_bytes()[i as int] == 0u8);
            assert(old(out)@ + eos_bytes().subrange(from as int, i as int) + seq![0u8] =~= old(
                out,
            )@ + eos_bytes().subrange(from as int, i + 1));
        }
        i = i + 1;
    }
    proof {
        assert(old(out)@ + eos_bytes().subrange(from as int, 9) =~= old(out)@ + eos_bytes().skip(
            from as int,
        ));
    }
}

} // verus!
