//! The frame reader: buffers the bytes of a source and cuts them into
//! length-prefixed frames, each decoded by a `Format`.
//!
//! The reader performs no I/O itself. Its owner reads from the source, hands
//! the bytes to `receive`, and asks `poll_next` for the next value; a
//! `ReadStep::Pending` answer means that more bytes are needed.
use crate::buffer::{
    buffer_advance, buffer_bytes, buffer_extend, buffer_with_capacity, bytes_of,
};
use crate::format::Format;
use crate::varint::{
    lemma_varint_len, lemma_varint_prefix_incomplete, lemma_varint_round_trip, read_varint,
    varint_bytes, varint_complete, varint_malformed, varint_value, varint_width,
};
use bytes::BytesMut;
use std::marker::PhantomData;
use vstd::prelude::*;
use vstd::slice::slice_subrange;

verus! {

/// The capacity a reader's buffer starts with.
pub const DEFAULT_CAPACITY: usize = 8192;

/// Where the frame at the front of a reader's buffer stands.
#[derive(Clone, Copy, Debug, PartialEq, Eq, Structural)]
pub enum FrameStatus {
    /// A whole frame: its payload is `buffer[header..end]`.
    Ready { header: usize, end: usize },
    /// More bytes are needed and the source may still send them.
    Pending,
    /// The source has ended at a frame boundary.
    End,
    /// The source has ended inside a frame.
    Truncated,
    /// The length prefix is not a valid varint.
    Malformed,
    /// The frame's length does not fit in memory addresses.
    TooLarge,
}

/// Why a reader could not produce a value.
#[derive(Debug, PartialEq, Eq, Structural)]
pub enum FrameError<E> {
    /// The source ended inside a frame.
    Truncated,
    /// A length prefix is not a valid varint.
    Malformed,
    /// A frame's declared length does not fit in memory addresses.
    TooLarge,
    /// The format could not decode a frame's payload.
    Format(E),
}

/// The outcome of asking a reader for its next value.
#[derive(Debug, PartialEq, Eq, Structural)]
pub enum ReadStep<T, E> {
    /// The next value, in wire order.
    Value(T),
    /// No whole frame is buffered: read more bytes from the source.
    Pending,
    /// The source ended at a frame boundary: the sequence is over.
    End,
    /// The next value cannot be produced.
    Failed(FrameError<E>),
}

/// The bytes of a frame that carries `payload`: its length as a varint,
/// then the payload.
pub open spec fn frame_bytes(payload: Seq<u8>) -> Seq<u8> {
    varint_bytes(payload.len() as u64) + payload
}

/// The frames of `payloads`, one after another.
pub open spec fn frames(payloads: Seq<Seq<u8>>) -> Seq<u8>
    decreases payloads.len(),
{
    if payloads.len() == 0 {
        Seq::empty()
    } else {
        frame_bytes(payloads[0]) + frames(payloads.drop_first())
    }
}

/// Where the frame at the front of `s` stands, `source_done` telling
/// whether the source has ended.
pub open spec fn frame_status(s: Seq<u8>, source_done: bool) -> FrameStatus {
    if varint_malformed(s) {
        FrameStatus::Malformed
    } else if varint_complete(s) && varint_width(s) + varint_value(s) > usize::MAX {
        FrameStatus::TooLarge
    } else if varint_complete(s) && s.len() >= varint_width(s) + varint_value(s) {
        FrameStatus::Ready {
            header: varint_width(s) as usize,
            end: (varint_width(s) + varint_value(s)) as usize,
        }
    } else if !source_done {
        FrameStatus::Pending
    } else if s.len() == 0 {
        FrameStatus::End
    } else {
        FrameStatus::Truncated
    }
}

/// The payloads of the first `n` frames of `s`, as `n` calls of
/// `poll_next` find them with no byte read in between; it stops early at
/// anything but a whole frame.
pub open spec fn payloads_of(s: Seq<u8>, n: nat) -> Seq<Seq<u8>>
    decreases n,
{
    if n == 0 {
        Seq::empty()
    } else {
        match frame_status(s, false) {
            FrameStatus::Ready { header, end } => seq![s.subrange(header as int, end as int)]
                + payloads_of(s.skip(end as int), (n - 1) as nat),
            _ => Seq::empty(),
        }
    }
}

/// Finds the frame at the front of `bytes`.
pub fn locate_frame(bytes: &[u8], source_done: bool) -> (r: FrameStatus)
    ensures
        r == frame_status(bytes@, source_done),
{
    match read_varint(bytes) {
        Some((len, rest)) => {
            let header = bytes.len() - rest.len();
            if len > (usize::MAX - header) as u64 {
                FrameStatus::TooLarge
            } else {
                let end = header + len as usize;
                if bytes.len() >= end {
                    FrameStatus::Ready { header, end }
                } else if !source_done {
                    FrameStatus::Pending
                } else {
                    FrameStatus::Truncated
                }
            }
        },
        None => {
            if bytes.len() > 0 && bytes[0] / 16 > 8 {
                FrameStatus::Malformed
            } else if !source_done {
                FrameStatus::Pending
            } else if bytes.len() == 0 {
                FrameStatus::End
            } else {
                FrameStatus::Truncated
            }
        },
    }
}

/// Reads values of type `T`, encoded by `F` and framed with a varint length
/// prefix, from the bytes of a source `R`.
pub struct TransmogReader<R, T, F> {
    format: F,
    reader: R,
    pub(crate) buffer: BytesMut,
    into: PhantomData<T>,
}

impl<R, T, F> TransmogReader<R, T, F> {
    /// The bytes received and not yet consumed by a decoded frame.
    pub closed spec fn buffered(&self) -> Seq<u8> {
        bytes_of(self.buffer)
    }

    /// The source.
    pub closed spec fn source(&self) -> R {
        self.reader
    }

    /// The format.
    pub closed spec fn spec_format(&self) -> F {
        self.format
    }

    /// Gets a reference to the underlying reader.
    pub fn get_ref(&self) -> (r: &R)
        ensures
            *r == self.source(),
    {
        &self.reader
    }

    /// Gets a mutable reference to the underlying reader.
    pub fn get_mut(&mut self) -> (r: &mut R)
        ensures
            *r == old(self).source(),
            final(self).source() == *final(r),
            final(self).buffered() == old(self).buffered(),
            final(self).spec_format() == old(self).spec_format(),
    {
        &mut self.reader
    }

    /// The bytes buffered and not yet decoded. The source is not read.
    pub fn buffer(&self) -> (r: &[u8])
        ensures
            r@ == self.buffered(),
    {
        buffer_bytes(&self.buffer)
    }

    /// Unwraps the reader, returning the source; buffered bytes are lost.
    pub fn into_inner(self) -> (r: R)
        ensures
            r == self.source(),
    {
        self.reader
    }

    /// Unwraps the reader into its source and its format; buffered bytes
    /// are lost.
    pub(crate) fn into_parts(self) -> (r: (R, F))
        ensures
            r == (self.source(), self.spec_format()),
    {
        (self.reader, self.format)
    }

    /// A reader of `format`-encoded frames from `reader`, with nothing
    /// buffered.
    pub fn new(reader: R, format: F) -> (r: Self)
        ensures
            r.source() == reader,
            r.spec_format() == format,
            r.buffered() == Seq::<u8>::empty(),
    {
        TransmogReader {
            format,
            reader,
            buffer: buffer_with_capacity(DEFAULT_CAPACITY),
            into: PhantomData,
        }
    }

    /// A reader of `format`-encoded frames from `R::default()`, with nothing
    /// buffered.
    pub fn default_for(format: F) -> (r: Self)
        where
            R: Default,
        ensures
            r.spec_format() == format,
            r.buffered() == Seq::<u8>::empty(),
    {
        Self::new(R::default(), format)
    }

    /// A reader over `reader` that starts with `buffered` already received.
    pub(crate) fn with_buffer(reader: R, format: F, buffered: BytesMut) -> (r: Self)
        ensures
            r.source() == reader,
            r.spec_format() == format,
            r.buffered() == bytes_of(buffered),
    {
        TransmogReader { format, reader, buffer: buffered, into: PhantomData }
    }

    /// Moves the buffered bytes out, leaving the buffer empty.
    pub(crate) fn take_buffer(&mut self) -> (r: BytesMut)
        ensures
            bytes_of(r) == old(self).buffered(),
            final(self).buffered() == Seq::<u8>::empty(),
            final(self).source() == old(self).source(),
            final(self).spec_format() == old(self).spec_format(),
    {
        crate::buffer::buffer_take_all(&mut self.buffer)
    }

    /// Appends bytes read from the source to the buffer.
    pub fn receive(&mut self, data: &[u8])
        ensures
            final(self).buffered() == old(self).buffered() + data@,
            final(self).source() == old(self).source(),
            final(self).spec_format() == old(self).spec_format(),
    {
        buffer_extend(&mut self.buffer, data);
    }

    /// The payload of a whole frame, `buffer[header..end]`, as `status`
    /// reports it.
    pub fn frame_payload(&self, header: usize, end: usize) -> (r: &[u8])
        requires
            header <= end <= self.buffered().len(),
        ensures
            r@ == self.buffered().subrange(header as int, end as int),
    {
        slice_subrange(buffer_bytes(&self.buffer), header, end)
    }

    /// Completes the whole frame that ends at `end`, given what the format
    /// made of its payload: a decoded value is returned and the frame's
    /// bytes leave the buffer; a format error is returned as it is and the
    /// buffer stays as it was.
    pub fn finish_frame<E>(&mut self, end: usize, decoded: Result<T, E>) -> (r: ReadStep<T, E>)
        requires
            end <= old(self).buffered().len(),
        ensures
            final(self).source() == old(self).source(),
            final(self).spec_format() == old(self).spec_format(),
            decoded matches Ok(v) ==> r == ReadStep::<T, E>::Value(v) && final(self).buffered()
                == old(self).buffered().skip(end as int),
            decoded matches Err(e) ==> r == ReadStep::<T, E>::Failed(FrameError::Format(e))
                && final(self).buffered() == old(self).buffered(),
    {
        match decoded {
            Ok(value) => {
                buffer_advance(&mut self.buffer, end);
                ReadStep::Value(value)
            },
            Err(e) => ReadStep::Failed(FrameError::Format(e)),
        }
    }

    /// Where the frame at the front of the buffer stands.
    pub fn status(&self, source_done: bool) -> (r: FrameStatus)
        ensures
            r == frame_status(self.buffered(), source_done),
    {
        locate_frame(buffer_bytes(&self.buffer), source_done)
    }
}

impl<R, T, F: Format<T>> TransmogReader<R, T, F> {
    /// Produces the next value from the buffered bytes; `source_done` tells
    /// whether the source has ended.
    ///
    /// A whole frame's payload, `buffer[header..end]` as `status` gives it,
    /// is handed to the format, and `finish_frame` turns the format's result
    /// into the answer: on success the value, with the frame's bytes gone
    /// from the buffer; on failure the format's error, with the buffer as it
    /// was. Without a whole frame the answer is `Pending`
    /// while the source may send more, `End` at a frame boundary once it has
    /// ended, and `Truncated` inside a frame.
    pub fn poll_next(&mut self, source_done: bool) -> (r: ReadStep<T, F::Error>)
        ensures
            final(self).source() == old(self).source(),
            final(self).spec_format() == old(self).spec_format(),
            ({
                let s = old(self).buffered();
                match frame_status(s, source_done) {
                    FrameStatus::Ready { header, end } => {
                        &&& r is Value || (r is Failed && r->Failed_0 is Format)
                        &&& r is Value ==> final(self).buffered() == s.skip(end as int)
                        &&& r is Failed ==> final(self).buffered() == s
                    },
                    FrameStatus::Pending => r is Pending && final(self).buffered() == s,
                    FrameStatus::End => r is End && final(self).buffered() == s,
                    FrameStatus::Truncated => r == ReadStep::<T, F::Error>::Failed(
                        FrameError::Truncated,
                    ) && final(self).buffered() == s,
                    FrameStatus::Malformed => r == ReadStep::<T, F::Error>::Failed(
                        FrameError::Malformed,
                    ) && final(self).buffered() == s,
                    FrameStatus::TooLarge => r == ReadStep::<T, F::Error>::Failed(
                        FrameError::TooLarge,
                    ) && final(self).buffered() == s,
                }
            }),
    {
        let bytes = buffer_bytes(&self.buffer);
        match locate_frame(bytes, source_done) {
            FrameStatus::Ready { header, end } => {
                let decoded = self.format.deserialize(slice_subrange(bytes, header, end));
                self.finish_frame(end, decoded)
            },
            FrameStatus::Pending => ReadStep::Pending,
            FrameStatus::End => ReadStep::End,
            FrameStatus::Truncated => ReadStep::Failed(FrameError::Truncated),
            FrameStatus::Malformed => ReadStep::Failed(FrameError::Malformed),
            FrameStatus::TooLarge => ReadStep::Failed(FrameError::TooLarge),
        }
    }
}

/// The frame of `payload`, whatever follows it, reads back as one whole
/// frame: its payload is `payload`, and what follows stays buffered.
pub proof fn lemma_frame_round_trip(payload: Seq<u8>, rest: Seq<u8>, source_done: bool)
    requires
        frame_bytes(payload).len() <= usize::MAX,
    ensures
        ({
            let s = frame_bytes(payload) + rest;
            let header = varint_bytes(payload.len() as u64).len();
            let end = frame_bytes(payload).len();
            &&& frame_status(s, source_done) == (FrameStatus::Ready {
                header: header as usize,
                end: end as usize,
            })
            &&& s.subrange(header as int, end as int) == payload
            &&& s.skip(end as int) == rest
        }),
{
    let len = payload.len() as u64;
    let v = varint_bytes(len);
    let s = frame_bytes(payload) + rest;
    assert(s =~= v + (payload + rest));
    lemma_varint_round_trip(len, payload + rest);
    lemma_varint_len(len);
    assert(s.subrange(v.len() as int, (v.len() + payload.len()) as int) =~= payload);
    assert(s.skip((v.len() + payload.len()) as int) =~= rest);
}

/// Any proper prefix of a frame, with the source still open, asks for more
/// bytes: never a value and never an error.
pub proof fn lemma_partial_frame_pending(payload: Seq<u8>, k: nat)
    requires
        k < frame_bytes(payload).len(),
        frame_bytes(payload).len() <= usize::MAX,
    ensures
        frame_status(frame_bytes(payload).take(k as int), false) == FrameStatus::Pending,
{
    lemma_partial_frame(payload, k);
}

/// A source that ends after a proper, non-empty prefix of a frame ends in a
/// truncated frame, not a clean end.
pub proof fn lemma_partial_frame_truncated(payload: Seq<u8>, k: nat)
    requires
        0 < k < frame_bytes(payload).len(),
        frame_bytes(payload).len() <= usize::MAX,
    ensures
        frame_status(frame_bytes(payload).take(k as int), true) == FrameStatus::Truncated,
{
    lemma_partial_frame(payload, k);
}

proof fn lemma_partial_frame(payload: Seq<u8>, k: nat)
    requires
        k < frame_bytes(payload).len(),
        frame_bytes(payload).len() <= usize::MAX,
    ensures
        !varint_malformed(frame_bytes(payload).take(k as int)),
        !(varint_complete(frame_bytes(payload).take(k as int)) && k >= varint_width(
            frame_bytes(payload).take(k as int),
        ) + varint_value(frame_bytes(payload).take(k as int))),
        !(varint_complete(frame_bytes(payload).take(k as int)) && varint_width(
            frame_bytes(payload).take(k as int),
        ) + varint_value(frame_bytes(payload).take(k as int)) > usize::MAX),
{
    let len = payload.len() as u64;
    let v = varint_bytes(len);
    let f = frame_bytes(payload);
    let t = f.take(k as int);
    lemma_varint_len(len);
    if k < v.len() {
        assert(t =~= v.take(k as int));
        lemma_varint_prefix_incomplete(len, k);
    } else {
        assert(t =~= v + payload.take(k - v.len()));
        lemma_varint_round_trip(len, payload.take(k - v.len()));
    }
}

/// Bytes delivered in two parts, split anywhere inside a frame (within its
/// length prefix, say), first ask for more and then read as the whole frame.
pub proof fn lemma_split_delivery(payload: Seq<u8>, k: nat)
    requires
        k < frame_bytes(payload).len(),
        frame_bytes(payload).len() <= usize::MAX,
    ensures
        frame_status(frame_bytes(payload).take(k as int), false) == FrameStatus::Pending,
        frame_status(
            frame_bytes(payload).take(k as int) + frame_bytes(payload).skip(k as int),
            false,
        ) == (FrameStatus::Ready {
            header: varint_bytes(payload.len() as u64).len() as usize,
            end: frame_bytes(payload).len() as usize,
        }),
{
    lemma_partial_frame(payload, k);
    let f = frame_bytes(payload);
    assert(f.take(k as int) + f.skip(k as int) =~= f);
    lemma_frame_round_trip(payload, Seq::empty(), false);
    assert(f + Seq::<u8>::empty() =~= f);
}

/// An empty buffer is a clean end once the source has ended, and waits for
/// bytes while it has not.
pub proof fn lemma_clean_end()
    ensures
        frame_status(Seq::empty(), true) == FrameStatus::End,
        frame_status(Seq::empty(), false) == FrameStatus::Pending,
{
}

/// The frames of several payloads, received in one read, give back each
/// payload in order, one per call, with no further read.
pub proof fn lemma_frames_in_one_read(payloads: Seq<Seq<u8>>, rest: Seq<u8>)
    requires
        forall|i: int| 0 <= i < payloads.len() ==> #[trigger] frame_bytes(payloads[i]).len() <= usize::MAX,
    ensures
        payloads_of(frames(payloads) + rest, payloads.len()) == payloads,
    decreases payloads.len(),
{
    if payloads.len() > 0 {
        let p = payloads[0];
        let tail = payloads.drop_first();
        assert(frame_bytes(payloads[0]).len() <= usize::MAX);
        let after = frames(tail) + rest;
        assert(frames(payloads) + rest =~= frame_bytes(p) + after);
        lemma_frame_round_trip(p, after, false);
        assert forall|i: int| 0 <= i < tail.len() implies #[trigger] frame_bytes(tail[i]).len()
            <= usize::MAX by {
            assert(tail[i] == payloads[i + 1]);
        }
        lemma_frames_in_one_read(tail, rest);
        assert(payloads =~= seq![p] + tail);
    }
}

} // verus!
