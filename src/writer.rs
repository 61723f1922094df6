//! The frame writer: serializes values into a send buffer and hands the
//! buffered bytes to a sink, keeping track of how many the sink has taken.
//!
//! The writer performs no I/O itself. Its owner writes `pending()` to the
//! sink, reports the count the sink accepted with `record_written`, and once
//! `is_flushed()` holds calls `finish_flush` and flushes the sink.
use crate::format::Format;
use crate::reader::frame_bytes;
use crate::varint::write_varint;
use std::marker::PhantomData;
use vstd::prelude::*;
use vstd::slice::slice_subrange;

verus! {

/// A marker for writers whose output a frame reader can read: each value is
/// preceded by its length.
#[derive(Clone, Copy, Debug, PartialEq, Eq, Structural)]
pub struct AsyncDestination;

/// A marker for writers that send the format's bytes alone, for receivers
/// that read one bare value.
#[derive(Clone, Copy, Debug, PartialEq, Eq, Structural)]
pub struct SyncDestination;

/// Why a value could not be added to the send buffer.
#[derive(Debug, PartialEq, Eq, Structural)]
pub enum WriteError<E> {
    /// The format could not serialize the value.
    Format(E),
}

/// What a flush does after a write to the sink.
#[derive(Clone, Copy, Debug, PartialEq, Eq, Structural)]
pub enum FlushStep {
    /// Bytes are still unsent: write `pending()` again.
    Continue,
    /// The sink has taken every byte: finish the flush.
    Flushed,
    /// The sink took nothing although bytes are unsent: it is closed.
    SinkClosed,
}

/// Writes values of type `T`, encoded by `F`, to a sink `W`; `D` is
/// `AsyncDestination` or `SyncDestination`.
pub struct TransmogWriter<W, T, D, F> {
    format: F,
    writer: W,
    send: SendBuffer,
    scratch_buffer: Vec<u8>,
    from: PhantomData<T>,
    dest: PhantomData<D>,
}

/// Serialized bytes waiting for the sink, and how many of them the sink has
/// accepted.
struct SendBuffer {
    bytes: Vec<u8>,
    written: usize,
}

impl SendBuffer {
    #[verifier::type_invariant]
    spec fn inv(self) -> bool {
        self.written <= self.bytes@.len()
    }

    spec fn unsent(self) -> Seq<u8> {
        self.bytes@.skip(self.written as int)
    }

    fn empty() -> (r: Self)
        ensures
            r.bytes@ == Seq::<u8>::empty(),
            r.written == 0,
    {
        SendBuffer { bytes: Vec::new(), written: 0 }
    }

    fn from_parts(bytes: Vec<u8>, written: usize) -> (r: Self)
        requires
            written <= bytes@.len(),
        ensures
            r.bytes@ == bytes@,
            r.written == written,
    {
        SendBuffer { bytes, written }
    }

    fn into_parts(self) -> (r: (Vec<u8>, usize))
        ensures
            r.0@ == self.bytes@,
            r.1 == self.written,
            r.1 <= r.0@.len(),
    {
        proof {
            use_type_invariant(&self);
        }
        (self.bytes, self.written)
    }

    fn pending(&self) -> (r: &[u8])
        ensures
            r@ == self.unsent(),
            self.written <= self.bytes@.len(),
    {
        proof {
            use_type_invariant(self);
        }
        slice_subrange(self.bytes.as_slice(), self.written, self.bytes.len())
    }

    fn record_written(&mut self, n: usize)
        requires
            n <= old(self).unsent().len(),
        ensures
            final(self).written == old(self).written + n,
            final(self).bytes@ == old(self).bytes@,
    {
        proof {
            use_type_invariant(&*self);
        }
        let len = self.bytes.len();
        assert(self.written + n <= len);
        self.written = self.written + n;
    }

    fn finish_flush(&mut self) -> (r: bool)
        ensures
            r == (old(self).written == old(self).bytes@.len()),
            r ==> final(self).bytes@ == Seq::<u8>::empty() && final(self).written == 0,
            !r ==> *final(self) == *old(self),
    {
        if self.written == self.bytes.len() {
            *self = SendBuffer::empty();
            true
        } else {
            false
        }
    }

    /// Serializes `item` with `format` and appends its frame, length prefix
    /// first. Where the format gives a size ahead of time the value is
    /// serialized in place; otherwise, or where that size proves wrong, the
    /// frame is built by `append_frame` from the bytes the format wrote. On
    /// failure the bytes are as they were.
    fn append_framed<T, F: Format<T>>(&mut self, format: &F, item: &T, scratch: &mut Vec<u8>) -> (r:
        Result<(), WriteError<F::Error>>)
        ensures
            r is Ok ==> exists|p: Seq<u8>| final(self).bytes@ == old(self).bytes@ + frame_bytes(p),
            r is Err ==> final(self).bytes@ == old(self).bytes@,
            final(self).written == old(self).written,
    {
        proof {
            use_type_invariant(&*self);
        }
        let mut taken = SendBuffer::empty();
        std::mem::swap(self, &mut taken);
        let (mut bytes, written) = taken.into_parts();
        let old_len = bytes.len();
        let r = match format.serialized_size(item) {
            Err(e) => Err(WriteError::Format(e)),
            Ok(Some(size)) => {
                write_varint(usize_to_u64(size), &mut bytes);
                let start = bytes.len();
                let ghost framed_prefix = bytes@;
                match format.serialize_into(item, &mut bytes) {
                    Err(e) => {
                        bytes.truncate(old_len);
                        Err(WriteError::Format(e))
                    },
                    Ok(()) if bytes.len() - start == size => {
                        let ghost p = bytes@.skip(start as int);
                        assert(framed_prefix.is_prefix_of(bytes@));
                        assert(bytes@ =~= framed_prefix + p);
                        assert(bytes@ =~= old(self).bytes@ + frame_bytes(p));
                        Ok(())
                    },
                    Ok(()) => {
                        let ghost appended = bytes@;
                        let payload = bytes.split_off(start);
                        assert(payload@ =~= appended.skip(start as int));
                        bytes.truncate(old_len);
                        assert(bytes@ =~= old(self).bytes@);
                        append_frame(&mut bytes, payload.as_slice());
                        Ok(())
                    },
                }
            },
            Ok(None) => {
                scratch.clear();
                match format.serialize_into(item, scratch) {
                    Err(e) => Err(WriteError::Format(e)),
                    Ok(()) => {
                        append_frame(&mut bytes, scratch.as_slice());
                        Ok(())
                    },
                }
            },
        };
        assert(r is Err ==> bytes@ =~= old(self).bytes@);
        *self = SendBuffer::from_parts(bytes, written);
        r
    }

    /// Appends the frame of `payload`.
    fn push_frame(&mut self, payload: &[u8])
        ensures
            final(self).bytes@ == old(self).bytes@ + frame_bytes(payload@),
            final(self).written == old(self).written,
    {
        proof {
            use_type_invariant(&*self);
        }
        let mut taken = SendBuffer::empty();
        std::mem::swap(self, &mut taken);
        let (mut bytes, written) = taken.into_parts();
        append_frame(&mut bytes, payload);
        *self = SendBuffer::from_parts(bytes, written);
    }

    /// Appends `payload` as it is.
    fn push_bare(&mut self, payload: &[u8])
        ensures
            final(self).bytes@ == old(self).bytes@ + payload@,
            final(self).written == old(self).written,
    {
        proof {
            use_type_invariant(&*self);
        }
        let mut taken = SendBuffer::empty();
        std::mem::swap(self, &mut taken);
        let (mut bytes, written) = taken.into_parts();
        append_bytes(&mut bytes, payload);
        *self = SendBuffer::from_parts(bytes, written);
    }

    /// Serializes `item` with `format` and appends the format's bytes alone.
    /// On failure the bytes are as they were.
    fn append_bare<T, F: Format<T>>(&mut self, format: &F, item: &T) -> (r: Result<
        (),
        WriteError<F::Error>,
    >)
        ensures
            old(self).bytes@.is_prefix_of(final(self).bytes@),
            r is Err ==> final(self).bytes@ == old(self).bytes@,
            final(self).written == old(self).written,
    {
        proof {
            use_type_invariant(&*self);
        }
        let mut taken = SendBuffer::empty();
        std::mem::swap(self, &mut taken);
        let (mut bytes, written) = taken.into_parts();
        let old_len = bytes.len();
        let r = match format.serialize_into(item, &mut bytes) {
            Ok(()) => Ok(()),
            Err(e) => {
                bytes.truncate(old_len);
                assert(bytes@ =~= old(self).bytes@);
                Err(WriteError::Format(e))
            },
        };
        *self = SendBuffer::from_parts(bytes, written);
        r
    }
}

/// The bytes that writes of `sizes` bytes each, one after another, hand
/// to the sink from a send buffer `buffer` of which `written` bytes were
/// already sent.
pub open spec fn sent_by(buffer: Seq<u8>, written: nat, sizes: Seq<nat>) -> Seq<u8>
    decreases sizes.len(),
{
    if sizes.len() == 0 {
        Seq::empty()
    } else {
        buffer.subrange(written as int, (written + sizes[0]) as int) + sent_by(
            buffer,
            written + sizes[0],
            sizes.drop_first(),
        )
    }
}

/// The sum of `sizes`.
pub open spec fn total(sizes: Seq<nat>) -> nat
    decreases sizes.len(),
{
    if sizes.len() == 0 {
        0
    } else {
        sizes[0] + total(sizes.drop_first())
    }
}

/// Converts a length to the 64-bit integer of a length prefix. Every
/// `usize` fits.
pub fn usize_to_u64(value: usize) -> (r: u64)
    ensures
        r == value,
{
    value as u64
}

/// Appends `payload` to `bytes`.
fn append_bytes(bytes: &mut Vec<u8>, payload: &[u8])
    ensures
        final(bytes)@ == old(bytes)@ + payload@,
{
    let ghost start = bytes@;
    let mut i: usize = 0;
    while i < payload.len()
        invariant
            i <= payload@.len(),
            bytes@ == start + payload@.take(i as int),
        decreases payload@.len() - i,
    {
        bytes.push(payload[i]);
        i = i + 1;
        assert(payload@.take(i as int) =~= payload@.take(i - 1) + seq![payload@[i - 1]]);
    }
    assert(payload@.take(payload@.len() as int) =~= payload@);
}

/// Appends the frame of `payload` to `bytes`: its length as a varint, then
/// the payload.
fn append_frame(bytes: &mut Vec<u8>, payload: &[u8])
    ensures
        final(bytes)@ == old(bytes)@ + frame_bytes(payload@),
{
    let ghost start = bytes@;
    write_varint(usize_to_u64(payload.len()), bytes);
    append_bytes(bytes, payload);
    assert(bytes@ =~= start + frame_bytes(payload@));
}

impl<W, T, D, F> TransmogWriter<W, T, D, F> {
    /// The serialized bytes not yet cleared by a finished flush.
    pub closed spec fn buffered(&self) -> Seq<u8> {
        self.send.bytes@
    }

    /// How many of the buffered bytes the sink has accepted.
    pub closed spec fn written_count(&self) -> nat {
        self.send.written as nat
    }

    /// The buffered bytes that the sink has not accepted yet.
    pub open spec fn unsent(&self) -> Seq<u8> {
        self.buffered().skip(self.written_count() as int)
    }

    /// The sink.
    pub closed spec fn sink(&self) -> W {
        self.writer
    }

    /// The format.
    pub closed spec fn spec_format(&self) -> F {
        self.format
    }

    /// Gets a reference to the underlying format.
    pub fn format(&self) -> (r: &F)
        ensures
            *r == self.spec_format(),
    {
        &self.format
    }

    /// Gets a reference to the underlying writer.
    pub fn get_ref(&self) -> (r: &W)
        ensures
            *r == self.sink(),
    {
        &self.writer
    }

    /// Gets a mutable reference to the underlying writer.
    pub fn get_mut(&mut self) -> (r: &mut W)
        ensures
            *r == old(self).sink(),
            final(self).sink() == *final(r),
            final(self).buffered() == old(self).buffered(),
            final(self).written_count() == old(self).written_count(),
            final(self).spec_format() == old(self).spec_format(),
    {
        &mut self.writer
    }

    /// Unwraps the writer, returning the sink and the format; unsent bytes
    /// are lost.
    pub fn into_inner(self) -> (r: (W, F))
        ensures
            r == (self.sink(), self.spec_format()),
    {
        (self.writer, self.format)
    }

    /// The same writer, state and all, for the destination `D2`.
    pub(crate) fn make_for<D2>(self) -> (r: TransmogWriter<W, T, D2, F>)
        ensures
            r.sink() == self.sink(),
            r.spec_format() == self.spec_format(),
            r.buffered() == self.buffered(),
            r.written_count() == self.written_count(),
    {
        TransmogWriter {
            format: self.format,
            writer: self.writer,
            send: self.send,
            scratch_buffer: self.scratch_buffer,
            from: PhantomData,
            dest: PhantomData,
        }
    }

    /// A writer over `writer` that starts with `buffer`, of which `written`
    /// bytes were already sent.
    pub(crate) fn with_state(writer: W, format: F, buffer: Vec<u8>, written: usize) -> (r: Self)
        requires
            written <= buffer@.len(),
        ensures
            r.sink() == writer,
            r.spec_format() == format,
            r.buffered() == buffer@,
            r.written_count() == written,
    {
        TransmogWriter {
            format,
            writer,
            send: SendBuffer::from_parts(buffer, written),
            scratch_buffer: Vec::new(),
            from: PhantomData,
            dest: PhantomData,
        }
    }

    /// Moves the send buffer and the written count out, leaving both empty.
    pub(crate) fn take_state(&mut self) -> (r: (Vec<u8>, usize))
        ensures
            r.0@ == old(self).buffered(),
            r.1 == old(self).written_count(),
            r.1 <= r.0@.len(),
            final(self).buffered() == Seq::<u8>::empty(),
            final(self).written_count() == 0,
            final(self).sink() == old(self).sink(),
            final(self).spec_format() == old(self).spec_format(),
    {
        let mut send = SendBuffer::empty();
        std::mem::swap(&mut self.send, &mut send);
        send.into_parts()
    }

    /// The buffered bytes that the sink has not accepted yet.
    pub fn pending(&self) -> (r: &[u8])
        ensures
            r@ == self.unsent(),
            self.written_count() <= self.buffered().len(),
    {
        self.send.pending()
    }

    /// Whether the sink has accepted every buffered byte.
    pub fn is_flushed(&self) -> (r: bool)
        ensures
            r == (self.unsent().len() == 0),
    {
        let p = self.send.pending();
        p.len() == 0
    }

    /// Records that the sink accepted the first `n` bytes of `pending()`.
    pub fn record_written(&mut self, n: usize)
        requires
            n <= old(self).unsent().len(),
        ensures
            final(self).written_count() == old(self).written_count() + n,
            final(self).buffered() == old(self).buffered(),
            final(self).sink() == old(self).sink(),
            final(self).spec_format() == old(self).spec_format(),
    {
        self.send.record_written(n);
    }

    /// Once the sink has accepted every buffered byte, empties the buffer
    /// and resets the count; before that, changes nothing. Returns whether
    /// it emptied the buffer.
    pub fn finish_flush(&mut self) -> (r: bool)
        ensures
            r == (old(self).written_count() == old(self).buffered().len()),
            r ==> final(self).buffered() == Seq::<u8>::empty() && final(self).written_count() == 0,
            !r ==> final(self).buffered() == old(self).buffered() && final(self).written_count()
                == old(self).written_count(),
            final(self).sink() == old(self).sink(),
            final(self).spec_format() == old(self).spec_format(),
    {
        self.send.finish_flush()
    }

    /// Appends the frame of `payload`: its length as a varint, then the
    /// payload.
    pub fn push_frame(&mut self, payload: &[u8])
        ensures
            final(self).buffered() == old(self).buffered() + frame_bytes(payload@),
            final(self).written_count() == old(self).written_count(),
            final(self).sink() == old(self).sink(),
            final(self).spec_format() == old(self).spec_format(),
    {
        self.send.push_frame(payload);
    }

    /// Appends `payload` as it is, with no length prefix.
    pub fn push_bare(&mut self, payload: &[u8])
        ensures
            final(self).buffered() == old(self).buffered() + payload@,
            final(self).written_count() == old(self).written_count(),
            final(self).sink() == old(self).sink(),
            final(self).spec_format() == old(self).spec_format(),
    {
        self.send.push_bare(payload);
    }

    /// Records a write of `pending()` to the sink that reported `n` bytes
    /// taken, and says what follows. A write that takes nothing while bytes
    /// are unsent means the sink is closed; otherwise the count grows by `n`
    /// (at most the unsent bytes), and the buffer is flushed once none is
    /// left.
    pub fn after_write(&mut self, n: usize) -> (r: FlushStep)
        ensures
            final(self).buffered() == old(self).buffered(),
            final(self).sink() == old(self).sink(),
            final(self).spec_format() == old(self).spec_format(),
            n == 0 && old(self).unsent().len() > 0 ==> r == FlushStep::SinkClosed
                && final(self).written_count() == old(self).written_count(),
            !(n == 0 && old(self).unsent().len() > 0) ==> {
                &&& final(self).written_count() == old(self).written_count() + if n < old(
                    self,
                ).unsent().len() {
                    n as nat
                } else {
                    old(self).unsent().len()
                }
                &&& r == (if final(self).written_count() == final(self).buffered().len() {
                    FlushStep::Flushed
                } else {
                    FlushStep::Continue
                })
            },
    {
        let left = self.pending().len();
        if n == 0 && left > 0 {
            FlushStep::SinkClosed
        } else {
            let taken = if n < left {
                n
            } else {
                left
            };
            self.record_written(taken);
            if self.is_flushed() {
                FlushStep::Flushed
            } else {
                FlushStep::Continue
            }
        }
    }
}

impl<W, T, F> TransmogWriter<W, T, SyncDestination, F> {
    /// A writer that sends `format`-encoded values to `writer`, with
    /// nothing buffered.
    pub fn new(writer: W, format: F) -> (r: Self)
        ensures
            r.sink() == writer,
            r.spec_format() == format,
            r.buffered() == Seq::<u8>::empty(),
            r.written_count() == 0,
    {
        TransmogWriter {
            format,
            writer,
            send: SendBuffer::empty(),
            scratch_buffer: Vec::new(),
            from: PhantomData,
            dest: PhantomData,
        }
    }

    /// A writer that sends `format`-encoded values to `W::default()`, with
    /// nothing buffered.
    pub fn default_for(format: F) -> (r: Self)
        where
            W: Default,
        ensures
            r.spec_format() == format,
            r.buffered() == Seq::<u8>::empty(),
            r.written_count() == 0,
    {
        Self::new(W::default(), format)
    }

    /// The same writer, state and all, with each value preceded by its
    /// length, as a frame reader needs.
    pub fn for_async(self) -> (r: TransmogWriter<W, T, AsyncDestination, F>)
        ensures
            r.sink() == self.sink(),
            r.spec_format() == self.spec_format(),
            r.buffered() == self.buffered(),
            r.written_count() == self.written_count(),
    {
        self.make_for()
    }
}

impl<W, T, F> TransmogWriter<W, T, AsyncDestination, F> {
    /// The same writer, state and all, sending the format's bytes alone.
    pub fn for_sync(self) -> (r: TransmogWriter<W, T, SyncDestination, F>)
        ensures
            r.sink() == self.sink(),
            r.spec_format() == self.spec_format(),
            r.buffered() == self.buffered(),
            r.written_count() == self.written_count(),
    {
        self.make_for()
    }
}

impl<W, T, D, F: Format<T>> TransmogWriter<W, T, D, F> {
    /// Serializes `item` and appends its frame, length prefix first, to the
    /// send buffer. On failure the send buffer is as it was.
    pub fn append_framed(&mut self, item: &T) -> (r: Result<(), WriteError<F::Error>>)
        ensures
            r is Ok ==> exists|p: Seq<u8>| final(self).buffered() == old(self).buffered() + frame_bytes(p),
            r is Err ==> final(self).buffered() == old(self).buffered(),
            final(self).written_count() == old(self).written_count(),
            final(self).sink() == old(self).sink(),
            final(self).spec_format() == old(self).spec_format(),
    {
        let r = self.send.append_framed(&self.format, item, &mut self.scratch_buffer);
        proof {
            if r is Ok {
                let p = choose|p: Seq<u8>| self.send.bytes@ == old(self).send.bytes@ + frame_bytes(p);
                assert(self.buffered() == old(self).buffered() + frame_bytes(p));
            }
        }
        r
    }

    /// Serializes `item` and appends the format's bytes alone to the send
    /// buffer. On failure the send buffer is as it was.
    pub fn append_bare(&mut self, item: &T) -> (r: Result<(), WriteError<F::Error>>)
        ensures
            old(self).buffered().is_prefix_of(final(self).buffered()),
            r is Err ==> final(self).buffered() == old(self).buffered(),
            final(self).written_count() == old(self).written_count(),
            final(self).sink() == old(self).sink(),
            final(self).spec_format() == old(self).spec_format(),
    {
        self.send.append_bare(&self.format, item)
    }
}

/// Adds a value to a writer's send buffer, in the form its destination asks
/// for.
pub trait TransmogWriterFor<T, F: Format<T>> {
    /// The bytes waiting in the send buffer.
    spec fn queued(&self) -> Seq<u8>;

    /// How many of `queued()` the sink has taken.
    spec fn accepted(&self) -> nat;

    /// What the destination sends for a value that the format encoded as
    /// `payload`.
    spec fn wire_form(&self, payload: Seq<u8>) -> Seq<u8>;

    /// Serializes `item` into the send buffer, in the destination's form.
    /// The only error is the format's, and it leaves the buffer as it was.
    fn append(&mut self, item: &T) -> (r: Result<(), WriteError<F::Error>>)
        ensures
            r is Ok ==> exists|p: Seq<u8>| final(self).queued() == old(self).queued() + old(
                self,
            ).wire_form(p),
            r is Err ==> final(self).queued() == old(self).queued(),
            final(self).accepted() == old(self).accepted(),
    ;
}

impl<W, T, F: Format<T>> TransmogWriterFor<T, F> for TransmogWriter<W, T, AsyncDestination, F> {
    open spec fn queued(&self) -> Seq<u8> {
        self.buffered()
    }

    open spec fn accepted(&self) -> nat {
        self.written_count()
    }

    open spec fn wire_form(&self, payload: Seq<u8>) -> Seq<u8> {
        frame_bytes(payload)
    }

    fn append(&mut self, item: &T) -> (r: Result<(), WriteError<F::Error>>) {
        let r = self.append_framed(item);
        proof {
            if r is Ok {
                let p = choose|p: Seq<u8>| self.buffered() == old(self).buffered() + frame_bytes(p);
                assert(self.queued() == old(self).queued() + old(self).wire_form(p));
            }
        }
        r
    }
}

impl<W, T, F: Format<T>> TransmogWriterFor<T, F> for TransmogWriter<W, T, SyncDestination, F> {
    open spec fn queued(&self) -> Seq<u8> {
        self.buffered()
    }

    open spec fn accepted(&self) -> nat {
        self.written_count()
    }

    open spec fn wire_form(&self, payload: Seq<u8>) -> Seq<u8> {
        payload
    }

    fn append(&mut self, item: &T) -> (r: Result<(), WriteError<F::Error>>) {
        let r = self.append_bare(item);
        proof {
            if r is Ok {
                let p = self.buffered().skip(old(self).buffered().len() as int);
                assert(self.buffered() =~= old(self).buffered() + p);
                assert(self.queued() == old(self).queued() + old(self).wire_form(p));
            }
        }
        r
    }
}

/// Writes that each take some of the unsent bytes, in order, until none is
/// left, hand the sink exactly the unsent bytes: one byte per write as well
/// as all at once.
pub proof fn lemma_partial_writes(buffer: Seq<u8>, written: nat, sizes: Seq<nat>)
    requires
        written + total(sizes) == buffer.len(),
    ensures
        sent_by(buffer, written, sizes) == buffer.skip(written as int),
    decreases sizes.len(),
{
    if sizes.len() == 0 {
        assert(buffer.skip(written as int) =~= Seq::<u8>::empty());
    } else {
        lemma_partial_writes(buffer, written + sizes[0], sizes.drop_first());
        assert(buffer.subrange(written as int, (written + sizes[0]) as int) + buffer.skip(
            (written + sizes[0]) as int,
        ) =~= buffer.skip(written as int));
    }
}

} // verus!
