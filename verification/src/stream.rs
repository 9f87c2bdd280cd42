//! The decoding state machine: reconstructs `(payload, metadata)` pairs from
//! a byte source.
//!
//! The stream never performs I/O. A driver asks how many bytes the current
//! header field or body still needs ([`CodecStream::read_request`]), reads at
//! most that many from the underlying channel, and hands them over
//! ([`CodecStream::feed`]). The machine accumulates them at the exact offset
//! where the last transfer stopped, so any chunking of reads — including a
//! suspension between any two bytes — reconstructs the same packets.

use vstd::prelude::*;

use crate::error::CodecError;
use crate::metadata::Metadata;
use crate::metadata::TYPE;
use crate::metadata::TYPE_UNUSED;
use crate::wire::be4_to_u32;
use crate::wire::bits_to_id;
use crate::wire::encodable_items;
use crate::wire::id_bits;
use crate::wire::items_bytes;
use crate::wire::lemma_id_of_bits_inverse;
use crate::wire::lemma_items_bytes_push;
use crate::wire::lemma_u32_of_be_inverse;
use crate::wire::stream_bytes;
use crate::wire::u32_be;
use crate::wire::valid_items;

verus! {

// Which part of a packet is being read. The partially read bytes of the
// current field live in the struct (`acc` for header fields, `data` for the
// body), so the machine resumes mid-field after any suspension.
#[derive(Copy, Clone)]
enum StreamPhase {
    // read the flags byte of the next packet
    Flags,
    // read the four length bytes
    Length,
    // read the four id bytes
    Id,
    // read the body
    Data,
    // the end-of-stream marker was read; the sequence is over
    Ended,
    // a fatal error was reported; the machine must not be driven further
    Failed,
}

/// One step of decoding, as reported by [`CodecStream::feed`].
#[derive(Debug, PartialEq, Eq)]
pub enum DecodeStep {
    /// The bytes were consumed; more are needed.
    Progress,
    /// A packet completed: its payload and metadata.
    Item(Vec<u8>, Metadata),
    /// The end-of-stream marker was read; the sequence ended normally.
    End,
}

/// This stream decodes pairs of payload bytes and [`Metadata`] from the
/// wrapped reader of type `R`.
pub struct CodecStream<R> {
    /// The wrapped reader. The stream itself never touches it: the driver
    /// performs every read on it.
    pub reader: R,
    state: StreamPhase,
    metadata: Metadata,
    length: u32,
    acc: Vec<u8>,
    data: Vec<u8>,
    consumed: Ghost<Seq<u8>>,
    produced: Ghost<Seq<(Seq<u8>, Metadata)>>,
}

impl<R> CodecStream<R> {
    /// The wrapped reader, as specifications see it.
    pub closed spec fn spec_reader(self) -> R {
        self.reader
    }

    /// Every byte fed to the machine so far, in order.
    pub closed spec fn consumed(self) -> Seq<u8> {
        self.consumed@
    }

    /// Every decoded item handed out so far, in order.
    pub closed spec fn produced(self) -> Seq<(Seq<u8>, Metadata)> {
        self.produced@
    }

    /// The machine sits between packets: the next byte starts a header.
    pub closed spec fn at_boundary(self) -> bool {
        self.state is Flags
    }

    /// The end-of-stream marker was read.
    pub closed spec fn is_ended(self) -> bool {
        self.state is Ended
    }

    /// A fatal error was reported.
    pub closed spec fn is_failed(self) -> bool {
        self.state is Failed
    }

    /// No further element will ever be produced.
    pub closed spec fn is_done(self) -> bool {
        self.is_ended() || self.is_failed()
    }

    /// How many bytes the current field or body still needs.
    pub closed spec fn want(self) -> int {
        match self.state {
            StreamPhase::Flags => 1,
            StreamPhase::Length => 4 - self.acc@.len(),
            StreamPhase::Id => 4 - self.acc@.len(),
            StreamPhase::Data => self.length - self.data@.len(),
            StreamPhase::Ended => 0,
            StreamPhase::Failed => 0,
        }
    }

    // The bytes of the current, partially read packet.
    spec fn partial(self) -> Seq<u8> {
        match self.state {
            StreamPhase::Flags => Seq::empty(),
            StreamPhase::Length => seq![self.metadata.flags] + self.acc@,
            StreamPhase::Id => seq![self.metadata.flags] + u32_be(self.length) + self.acc@,
            StreamPhase::Data => seq![self.metadata.flags] + u32_be(self.length) + u32_be(
                id_bits(self.metadata.id),
            ) + self.data@,
            StreamPhase::Ended => Seq::empty(),
            StreamPhase::Failed => Seq::empty(),
        }
    }

    // Field accumulators lie inside their fields, and a packet whose flags
    // carry the unused type never gets past the flags byte.
    spec fn shape_ok(self) -> bool {
        match self.state {
            StreamPhase::Flags => true,
            StreamPhase::Length => self.acc@.len() < 4 && self.metadata.flags & TYPE
                != TYPE_UNUSED,
            StreamPhase::Id => self.acc@.len() < 4 && self.metadata.flags & TYPE != TYPE_UNUSED,
            StreamPhase::Data => self.data@.len() < self.length && self.metadata.flags & TYPE
                != TYPE_UNUSED,
            StreamPhase::Ended => true,
            StreamPhase::Failed => true,
        }
    }

    // The consumed bytes are exactly the wire encoding of the items handed
    // out, followed by the current partial packet — or by the full marker
    // once the stream ended.
    spec fn books_ok(self) -> bool {
        if self.is_ended() {
            self.consumed@ == stream_bytes(self.produced@)
        } else if self.is_failed() {
            true
        } else {
            self.consumed@ == items_bytes(self.produced@) + self.partial()
        }
    }

    // Every item handed out has an in-bounds payload, is distinguishable
    // from the end-of-stream marker, and never carries the unused type.
    spec fn produced_ok(self) -> bool {
        valid_items(self.produced@) && forall|i: int|
            0 <= i < self.produced@.len() ==> (#[trigger] self.produced@[i]).1.flags & TYPE
                != TYPE_UNUSED
    }

    /// The machine's invariant: every constructor establishes it and every
    /// method preserves it.
    pub closed spec fn wf(self) -> bool {
        self.shape_ok() && self.books_ok() && self.produced_ok()
    }

    /// A stream that ended normally has consumed exactly the terminated wire
    /// encoding of the items it produced — no byte more, no byte less.
    pub proof fn lemma_ended_consumed(self)
        requires
            self.wf(),
            self.is_ended(),
        ensures
            self.consumed() == stream_bytes(self.produced()),
            valid_items(self.produced()),
            encodable_items(self.produced()),
    {
    }

    /// Create a new `CodecStream`, wrapping the given reader.
    pub fn new(reader: R) -> (s: CodecStream<R>)
        ensures
            s.wf(),
            s.spec_reader() == reader,
            s.at_boundary(),
            !s.is_done(),
            s.consumed() == Seq::<u8>::empty(),
            s.produced() == Seq::<(Seq<u8>, Metadata)>::empty(),
    {
        let s = CodecStream {
            reader,
            state: StreamPhase::Flags,
            metadata: Metadata { flags: 0, id: 0 },
            length: 0,
            acc: Vec::new(),
            data: Vec::new(),
            consumed: Ghost(Seq::empty()),
            produced: Ghost(Seq::empty()),
        };
        proof {
            assert(s.consumed@ =~= items_bytes(s.produced@) + s.partial());
        }
        s
    }

    /// Consume the `CodecStream` to retrieve ownership of the inner reader.
    pub fn into_inner(self) -> (r: R)
        ensures
            r == self.spec_reader(),
    {
        self.reader
    }

    /// How many bytes to read from the wrapped reader next.
    ///
    /// The driver may hand back fewer (a partial read), but never more.
    pub fn read_request(&self) -> (n: usize)
        requires
            self.wf(),
            !self.is_done(),
        ensures
            n as int == self.want(),
            n >= 1,
    {
        match self.state {
            StreamPhase::Flags => 1,
            StreamPhase::Length => 4 - self.acc.len(),
            StreamPhase::Id => 4 - self.acc.len(),
            StreamPhase::Data => (self.length as usize) - self.data.len(),
            StreamPhase::Ended => vstd::pervasive::unreached(),
            StreamPhase::Failed => vstd::pervasive::unreached(),
        }
    }

    /// Consume the bytes the wrapped reader produced for the last request.
    ///
    /// An empty `buf` means the source ended mid-packet: `UnexpectedEof`. A
    /// flags byte carrying the unused type is rejected with `InvalidData`
    /// before any length or id byte is consumed. Otherwise the bytes are
    /// folded into the current field; completing a body yields the packet,
    /// and an all-zero header ends the sequence normally.
    pub fn feed(&mut self, buf: &[u8]) -> (r: Result<DecodeStep, CodecError>)
        requires
            old(self).wf(),
            !old(self).is_done(),
            buf@.len() <= old(self).want(),
        ensures
            final(self).wf(),
            final(self).spec_reader() == old(self).spec_reader(),
            buf@.len() == 0 ==> final(self).consumed() == old(self).consumed()
                && final(self).produced() == old(self).produced() && final(self).is_failed(),
            buf@.len() > 0 ==> final(self).consumed() == old(self).consumed() + buf@,
            (r == Err::<DecodeStep, CodecError>(CodecError::UnexpectedEof)) <==> buf@.len() == 0,
            (r == Err::<DecodeStep, CodecError>(CodecError::InvalidData)) <==> (buf@.len() > 0
                && old(self).at_boundary() && buf@[0] & TYPE == TYPE_UNUSED),
            r is Err ==> final(self).is_failed() && final(self).produced() == old(self).produced()
                && (r == Err::<DecodeStep, CodecError>(CodecError::UnexpectedEof)
                || r == Err::<DecodeStep, CodecError>(CodecError::InvalidData)),
            match r {
                Ok(step) => match step {
                    DecodeStep::Progress => final(self).produced() == old(self).produced()
                        && !final(self).is_done(),
                    DecodeStep::Item(payload, m) => final(self).produced() == old(
                        self).produced().push((payload@, m)) && final(self).at_boundary()
                        && !final(self).is_done() && m.flags & TYPE != TYPE_UNUSED,
                    DecodeStep::End => final(self).is_ended() && final(self).produced() == old(
                        self).produced() && final(self).consumed() == stream_bytes(
                        final(self).produced()),
                },
                Err(_) => true,
            },
    {
        if buf.len() == 0 {
            self.state = StreamPhase::Failed;
            return Err(CodecError::UnexpectedEof);
        }
        self.consumed = Ghost(self.consumed@ + buf@);
        match self.state {
            StreamPhase::Flags => {
                let flags = buf[0];
                if flags & TYPE == TYPE_UNUSED {
                    self.state = StreamPhase::Failed;
                    return Err(CodecError::InvalidData);
                }
                self.metadata = Metadata { flags, id: self.metadata.id };
                self.acc = Vec::new();
                self.state = StreamPhase::Length;
                proof {
                    assert(buf@ =~= seq![flags]);
                    assert(self.consumed@ =~= items_bytes(self.produced@) + self.partial());
                }
                Ok(DecodeStep::Progress)
            },
            StreamPhase::Length => {
                append_slice(&mut self.acc, buf);
                proof {
                    assert(self.consumed@ =~= items_bytes(self.produced@) + self.partial());
                }
                if self.acc.len() == 4 {
                    let ghost full = self.acc@;
                    let len = be4_to_u32(&self.acc);
                    self.length = len;
                    self.acc = Vec::new();
                    self.state = StreamPhase::Id;
                    proof {
                        lemma_u32_of_be_inverse(full[0], full[1], full[2], full[3]);
                        assert(u32_be(len) =~= full);
                        assert(self.consumed@ =~= items_bytes(self.produced@) + self.partial());
                    }
                }
                Ok(DecodeStep::Progress)
            },
            StreamPhase::Id => {
                append_slice(&mut self.acc, buf);
                proof {
                    assert(self.consumed@ =~= items_bytes(self.produced@) + self.partial());
                }
                if self.acc.len() == 4 {
                    let ghost full = self.acc@;
                    let idb = be4_to_u32(&self.acc);
                    let id = bits_to_id(idb);
                    proof {
                        lemma_u32_of_be_inverse(full[0], full[1], full[2], full[3]);
                        lemma_id_of_bits_inverse(idb);
                        assert(u32_be(id_bits(id)) =~= full);
                    }
                    self.metadata = Metadata { flags: self.metadata.flags, id };
                    self.acc = Vec::new();
                    if self.length == 0 && self.metadata.flags == 0 && id == 0 {
                        self.state = StreamPhase::Ended;
                        proof {
                            assert(u32_be(0u32) =~= seq![0u8, 0u8, 0u8, 0u8]);
                            assert(self.consumed@ =~= stream_bytes(self.produced@));
                        }
                        return Ok(DecodeStep::End);
                    }
                    if self.length == 0 {
                        let payload: Vec<u8> = Vec::new();
                        let m = self.metadata;
                        self.state = StreamPhase::Flags;
                        proof {
                            lemma_items_bytes_push(self.produced@, payload@, m);
                        }
                        self.produced = Ghost(self.produced@.push((payload@, m)));
                        proof {
                            assert(self.consumed@ =~= items_bytes(self.produced@)
                                + self.partial());
                        }
                        return Ok(DecodeStep::Item(payload, m));
                    }
                    // pre-size the body buffer to the declared length
                    self.data = Vec::with_capacity(self.length as usize);
                    self.state = StreamPhase::Data;
                    proof {
                        assert(self.consumed@ =~= items_bytes(self.produced@) + self.partial());
                    }
                }
                Ok(DecodeStep::Progress)
            },
            StreamPhase::Data => {
                append_slice(&mut self.data, buf);
                proof {
                    assert(self.consumed@ =~= items_bytes(self.produced@) + self.partial());
                }
                if self.data.len() == self.length as usize {
                    let mut payload: Vec<u8> = Vec::new();
                    core::mem::swap(&mut payload, &mut self.data);
                    let m = self.metadata;
                    self.state = StreamPhase::Flags;
                    proof {
                        lemma_items_bytes_push(self.produced@, payload@, m);
                    }
                    self.produced = Ghost(self.produced@.push((payload@, m)));
                    proof {
                        assert(self.consumed@ =~= items_bytes(self.produced@) + self.partial());
                    }
                    return Ok(DecodeStep::Item(payload, m));
                }
                Ok(DecodeStep::Progress)
            },
            StreamPhase::Ended => vstd::pervasive::unreached(),
            StreamPhase::Failed => vstd::pervasive::unreached(),
        }
    }
}

// Appends all the bytes of `src` to `dst`.
fn append_slice(dst: &mut Vec<u8>, src: &[u8])
    ensures
        final(dst)@ == old(dst)@ + src@,
{
    let mut i: usize = 0;
    while i < src.len()
        invariant
            i <= src@.len(),
            dst@ == old(dst)@ + src@.subrange(0, i as int),
        decreases src@.len() - i,
    {
        let b = src[i];
        dst.push(b);
        proof {
            assert(old(dst)@ + src@.subrange(0, i as int) + seq![src@[i as int]] =~= old(dst)@
                + src@.subrange(0, i + 1));
        }
        i = i + 1;
    }
    proof {
        assert(old(dst)@ + src@.subrange(0, src@.len() as int) =~= old(dst)@ + src@);
    }
}

} // verus!
