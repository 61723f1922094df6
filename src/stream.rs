//! A frame reader and a frame writer over one duplex transport, and the
//! split of such a pair into two independent halves.
use crate::reader::TransmogReader;
use crate::writer::{AsyncDestination, SyncDestination, TransmogWriter};
use std::marker::PhantomData;
use vstd::prelude::*;

verus! {

/// The writer half of a duplex stream, which also owns the transport that
/// the reader half reads from.
pub struct InternalTransmogWriter<S, T, D, F>(pub TransmogWriter<S, T, D, F>);

/// Receives values of type `R` and sends values of type `W`, both encoded
/// by `F`, over one duplex transport `S`. `D` is the writer's destination.
pub struct TransmogStream<R, W, S, D, F> {
    stream: TransmogReader<InternalTransmogWriter<S, W, D, F>, R, F>,
}

/// Names the types a stream sends and receives before it is built.
pub struct Builder<TReads, TWrites, TStream, TFormat> {
    stream: TStream,
    format: TFormat,
    datatypes: PhantomData<(TReads, TWrites)>,
}

impl<TReads, TWrites, TStream, TFormat> Builder<TReads, TWrites, TStream, TFormat> {
    /// The transport the stream will run over.
    pub closed spec fn spec_stream(&self) -> TStream {
        self.stream
    }

    /// The format the stream will use.
    pub closed spec fn spec_format(&self) -> TFormat {
        self.format
    }
}

impl<TStream, TFormat> Builder<(), (), TStream, TFormat> {
    /// A builder for a stream over `stream` in `format`.
    pub fn new(stream: TStream, format: TFormat) -> (r: Self)
        ensures
            r.spec_stream() == stream,
            r.spec_format() == format,
    {
        Builder { stream, format, datatypes: PhantomData }
    }

    /// Sets `T` as the type both sent and received.
    pub fn sends_and_receives<T>(self) -> (r: Builder<T, T, TStream, TFormat>)
        ensures
            r.spec_stream() == self.spec_stream(),
            r.spec_format() == self.spec_format(),
    {
        Builder { stream: self.stream, format: self.format, datatypes: PhantomData }
    }
}

impl<TReads, TStream, TFormat> Builder<TReads, (), TStream, TFormat> {
    /// Sets `T` as the type sent.
    pub fn sends<T>(self) -> (r: Builder<TReads, T, TStream, TFormat>)
        ensures
            r.spec_stream() == self.spec_stream(),
            r.spec_format() == self.spec_format(),
    {
        Builder { stream: self.stream, format: self.format, datatypes: PhantomData }
    }
}

impl<TWrites, TStream, TFormat> Builder<(), TWrites, TStream, TFormat> {
    /// Sets `T` as the type received.
    pub fn receives<T>(self) -> (r: Builder<T, TWrites, TStream, TFormat>)
        ensures
            r.spec_stream() == self.spec_stream(),
            r.spec_format() == self.spec_format(),
    {
        Builder { stream: self.stream, format: self.format, datatypes: PhantomData }
    }
}

impl<TReads, TWrites, TStream, TFormat: Clone> Builder<TReads, TWrites, TStream, TFormat> {
    /// Builds a stream whose writer precedes each value with its length, as
    /// a remote frame reader needs.
    pub fn for_async(self) -> (r: TransmogStream<TReads, TWrites, TStream, AsyncDestination, TFormat>)
        ensures
            r.transport() == self.spec_stream(),
            r.received() == Seq::<u8>::empty(),
            r.to_send() == Seq::<u8>::empty(),
    {
        TransmogStream::new(self.stream, self.format).for_async()
    }

    /// Builds a stream whose writer sends the format's bytes alone.
    pub fn for_sync(self) -> (r: TransmogStream<TReads, TWrites, TStream, SyncDestination, TFormat>)
        ensures
            r.transport() == self.spec_stream(),
            r.received() == Seq::<u8>::empty(),
            r.to_send() == Seq::<u8>::empty(),
    {
        TransmogStream::new(self.stream, self.format)
    }
}

impl<R, W, S, D, F> TransmogStream<R, W, S, D, F> {
    /// The reader, which owns the writer and through it the transport.
    pub closed spec fn pair(&self) -> TransmogReader<InternalTransmogWriter<S, W, D, F>, R, F> {
        self.stream
    }

    /// The transport.
    pub closed spec fn transport(&self) -> S {
        self.stream.source().0.sink()
    }

    /// The bytes received and not yet decoded.
    pub closed spec fn received(&self) -> Seq<u8> {
        self.stream.buffered()
    }

    /// The bytes serialized and not yet cleared by a finished flush.
    pub closed spec fn to_send(&self) -> Seq<u8> {
        self.stream.source().0.buffered()
    }

    /// How many of `to_send()` the transport has accepted.
    pub closed spec fn sent_count(&self) -> nat {
        self.stream.source().0.written_count()
    }

    /// The format the reader decodes with.
    pub closed spec fn read_format(&self) -> F {
        self.stream.spec_format()
    }

    /// The format the writer encodes with.
    pub closed spec fn write_format(&self) -> F {
        self.stream.source().0.spec_format()
    }

    /// Gets a reference to the underlying transport.
    pub fn get_ref(&self) -> (r: &S)
        ensures
            *r == self.transport(),
    {
        self.stream.get_ref().0.get_ref()
    }

    /// Gets a mutable reference to the underlying transport.
    pub fn get_mut(&mut self) -> (r: &mut S)
        ensures
            *r == old(self).transport(),
            final(self).transport() == *final(r),
            final(self).received() == old(self).received(),
            final(self).to_send() == old(self).to_send(),
            final(self).sent_count() == old(self).sent_count(),
    {
        self.stream.get_mut().0.get_mut()
    }

    /// The reader half, to receive bytes and decode values.
    pub fn reader_mut(&mut self) -> (r: &mut TransmogReader<InternalTransmogWriter<S, W, D, F>, R, F>)
        ensures
            *r == old(self).pair(),
            final(self).pair() == *final(r),
    {
        &mut self.stream
    }

    /// The writer half, to serialize values and flush them.
    pub fn writer_mut(&mut self) -> (r: &mut TransmogWriter<S, W, D, F>)
        ensures
            *r == old(self).pair().source().0,
            final(self).received() == old(self).received(),
            final(self).pair().source().0 == *final(r),
    {
        &mut self.stream.get_mut().0
    }

    /// Unwraps the stream, returning the transport and the format; unsent
    /// and undecoded bytes are lost.
    pub fn into_inner(self) -> (r: (S, F))
        ensures
            r == (self.transport(), self.write_format()),
    {
        let internal = self.stream.into_inner();
        internal.0.into_inner()
    }

    /// Splits the stream into a reader and a writer that can be driven
    /// independently; `split_transport` divides the transport into its read
    /// and write halves (a TCP stream's `into_split`, say). The bytes
    /// received and not yet decoded move to the reader; the bytes not yet
    /// sent, with the count already sent, move to the writer.
    pub fn tcp_split<RH, WH, G: FnOnce(S) -> (RH, WH)>(self, split_transport: G) -> (r: (
        TransmogReader<RH, R, F>,
        TransmogWriter<WH, W, D, F>,
    ))
        requires
            forall|s: S| split_transport.requires((s,)),
        ensures
            r.0.buffered() == self.received(),
            r.1.buffered() == self.to_send(),
            r.1.written_count() == self.sent_count(),
            r.0.spec_format() == self.read_format(),
            r.1.spec_format() == self.write_format(),
            split_transport.ensures((self.transport(),), (r.0.source(), r.1.sink())),
    {
        let mut reader = self.stream;
        let received = reader.take_buffer();
        let (internal, read_format) = reader.into_parts();
        let mut writer = internal.0;
        let (to_send, sent) = writer.take_state();
        let (transport, write_format) = writer.into_inner();
        let (read_half, write_half) = split_transport(transport);
        let r = TransmogReader::with_buffer(read_half, read_format, received);
        let w = TransmogWriter::with_state(write_half, write_format, to_send, sent);
        (r, w)
    }
}

impl<R, W, S, F: Clone> TransmogStream<R, W, S, SyncDestination, F> {
    /// A stream over `stream` in `format`, with nothing buffered; its
    /// writer sends the format's bytes alone.
    pub fn new(stream: S, format: F) -> (r: Self)
        ensures
            r.transport() == stream,
            r.received() == Seq::<u8>::empty(),
            r.to_send() == Seq::<u8>::empty(),
            r.sent_count() == 0,
            r.read_format() == format,
    {
        let write_format = format.clone();
        TransmogStream {
            stream: TransmogReader::new(
                InternalTransmogWriter(TransmogWriter::new(stream, write_format)),
                format,
            ),
        }
    }
}

impl<R, W, S: Default, F: Clone> TransmogStream<R, W, S, SyncDestination, F> {
    /// A stream over `S::default()` in `format`, with nothing buffered.
    pub fn default_for(format: F) -> (r: Self)
        ensures
            r.received() == Seq::<u8>::empty(),
            r.to_send() == Seq::<u8>::empty(),
            r.sent_count() == 0,
    {
        Self::new(S::default(), format)
    }
}

impl<TStream, TFormat: Clone> TransmogStream<(), (), TStream, SyncDestination, TFormat> {
    /// A builder for a stream over `stream` in `format`.
    pub fn build(stream: TStream, format: TFormat) -> (r: Builder<(), (), TStream, TFormat>)
        ensures
            r.spec_stream() == stream,
            r.spec_format() == format,
    {
        Builder::new(stream, format)
    }
}

impl<R, W, S, D, F> TransmogStream<R, W, S, D, F> {
    /// The same stream for the writer destination `D2`: the bytes received
    /// and not decoded, the bytes not yet sent and the count already sent
    /// all carry over.
    fn with_destination<D2>(self) -> (r: TransmogStream<R, W, S, D2, F>)
        ensures
            r.transport() == self.transport(),
            r.received() == self.received(),
            r.to_send() == self.to_send(),
            r.sent_count() == self.sent_count(),
            r.read_format() == self.read_format(),
            r.write_format() == self.write_format(),
    {
        let mut reader = self.stream;
        let received = reader.take_buffer();
        let (internal, read_format) = reader.into_parts();
        let writer = internal.0.make_for::<D2>();
        TransmogStream {
            stream: TransmogReader::with_buffer(InternalTransmogWriter(writer), read_format, received),
        }
    }

    /// The same stream, state and all, with the writer preceding each value
    /// with its length, as a remote frame reader needs.
    pub fn for_async(self) -> (r: TransmogStream<R, W, S, AsyncDestination, F>)
        ensures
            r.transport() == self.transport(),
            r.received() == self.received(),
            r.to_send() == self.to_send(),
            r.sent_count() == self.sent_count(),
            r.read_format() == self.read_format(),
            r.write_format() == self.write_format(),
    {
        self.with_destination()
    }

    /// The same stream, state and all, with the writer sending the format's
    /// bytes alone.
    pub fn for_sync(self) -> (r: TransmogStream<R, W, S, SyncDestination, F>)
        ensures
            r.transport() == self.transport(),
            r.received() == self.received(),
            r.to_send() == self.to_send(),
            r.sent_count() == self.sent_count(),
            r.read_format() == self.read_format(),
            r.write_format() == self.write_format(),
    {
        self.with_destination()
    }
}

} // verus!
