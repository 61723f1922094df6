use transmog::{
    FlushStep, Format, FrameError, FrameStatus, ReadStep, TransmogReader, TransmogStream,
    TransmogWriter, TransmogWriterFor, WriteError,
};

/// Byte vectors as they are, with no size known ahead of time.
#[derive(Clone)]
struct RawBytes;

impl Format<Vec<u8>> for RawBytes {
    type Error = String;

    fn serialized_size(&self, _value: &Vec<u8>) -> Result<Option<usize>, String> {
        Ok(None)
    }

    fn serialize(&self, value: &Vec<u8>) -> Result<Vec<u8>, String> {
        Ok(value.clone())
    }

    fn serialize_into(&self, value: &Vec<u8>, out: &mut Vec<u8>) -> Result<(), String> {
        out.extend_from_slice(value);
        Ok(())
    }

    fn deserialize(&self, data: &[u8]) -> Result<Vec<u8>, String> {
        Ok(data.to_vec())
    }
}

/// Byte vectors as they are, announcing a size ahead of time that is
/// `error` bytes off.
#[derive(Clone)]
struct SizedBytes {
    error: usize,
}

impl Format<Vec<u8>> for SizedBytes {
    type Error = String;

    fn serialized_size(&self, value: &Vec<u8>) -> Result<Option<usize>, String> {
        Ok(Some(value.len() + self.error))
    }

    fn serialize(&self, value: &Vec<u8>) -> Result<Vec<u8>, String> {
        Ok(value.clone())
    }

    fn serialize_into(&self, value: &Vec<u8>, out: &mut Vec<u8>) -> Result<(), String> {
        out.extend_from_slice(value);
        Ok(())
    }

    fn deserialize(&self, data: &[u8]) -> Result<Vec<u8>, String> {
        Ok(data.to_vec())
    }
}

/// `u64` as eight big-endian bytes; odd values fail to serialize after
/// writing half their bytes.
#[derive(Clone)]
struct U64BE;

impl Format<u64> for U64BE {
    type Error = String;

    fn serialized_size(&self, _value: &u64) -> Result<Option<usize>, String> {
        Ok(Some(8))
    }

    fn serialize(&self, value: &u64) -> Result<Vec<u8>, String> {
        let mut out = Vec::new();
        self.serialize_into(value, &mut out)?;
        Ok(out)
    }

    fn serialize_into(&self, value: &u64, out: &mut Vec<u8>) -> Result<(), String> {
        if value % 2 == 1 {
            out.extend_from_slice(&value.to_be_bytes()[..4]);
            return Err(String::from("odd"));
        }
        out.extend_from_slice(&value.to_be_bytes());
        Ok(())
    }

    fn deserialize(&self, data: &[u8]) -> Result<u64, String> {
        let bytes: [u8; 8] = data.try_into().map_err(|_| String::from("need 8 bytes"))?;
        Ok(u64::from_be_bytes(bytes))
    }
}

fn framed<F: Format<Vec<u8>>>(format: F, values: &[Vec<u8>]) -> Vec<u8>
where
    F::Error: std::fmt::Debug,
{
    let mut writer = TransmogWriter::new((), format).for_async();
    for v in values {
        writer.append_framed(v).unwrap();
    }
    writer.pending().to_vec()
}

fn reader() -> TransmogReader<(), Vec<u8>, RawBytes> {
    TransmogReader::new((), RawBytes)
}

#[test]
fn round_trip_from_empty_to_megabytes() {
    for size in [0_usize, 1, 15, 16, 4095, 4096, 100_000, 3_000_000] {
        let value: Vec<u8> = (0..size).map(|i| (i % 251) as u8).collect();
        for bytes in [
            framed(RawBytes, &[value.clone()]),
            framed(SizedBytes { error: 0 }, &[value.clone()]),
        ] {
            let mut r = reader();
            r.receive(&bytes);
            match r.poll_next(false) {
                ReadStep::Value(v) => assert_eq!(v, value),
                _ => panic!("expected a value for size {size}"),
            }
            assert!(r.buffer().is_empty());
            assert!(matches!(r.poll_next(true), ReadStep::End));
        }
    }
}

#[test]
fn frame_layout() {
    assert_eq!(framed(RawBytes, &[vec![9, 8, 7]]), vec![3, 9, 8, 7]);
    assert_eq!(framed(RawBytes, &[Vec::new()]), vec![0]);
    let sixteen = vec![1_u8; 16];
    let bytes = framed(RawBytes, &[sixteen.clone()]);
    assert_eq!(&bytes[..2], &[0x10, 0x10]);
    assert_eq!(&bytes[2..], &sixteen[..]);
    let three_hundred = vec![0_u8; 300];
    assert_eq!(&framed(RawBytes, &[three_hundred])[..2], &[0x11, 0x2c]);
}

#[test]
fn partial_frame_is_pending_not_error() {
    let bytes = framed(RawBytes, &[vec![5_u8; 300]]);
    for k in 0..bytes.len() {
        let mut r = reader();
        r.receive(&bytes[..k]);
        assert!(matches!(r.poll_next(false), ReadStep::Pending), "prefix of {k} bytes");
        assert_eq!(r.buffer(), &bytes[..k]);
    }
}

#[test]
fn many_frames_in_one_read() {
    let values: Vec<Vec<u8>> = (0..5_u8).map(|i| vec![i; i as usize * 7]).collect();
    let bytes = framed(RawBytes, &values);
    let mut r = reader();
    r.receive(&bytes);
    for expected in &values {
        match r.poll_next(false) {
            ReadStep::Value(v) => assert_eq!(&v, expected),
            _ => panic!("expected a value"),
        }
    }
    assert!(matches!(r.poll_next(false), ReadStep::Pending));
    assert!(matches!(r.poll_next(true), ReadStep::End));
}

#[test]
fn length_prefix_split_across_reads() {
    let value = vec![3_u8; 300];
    let bytes = framed(RawBytes, &[value.clone()]);
    let mut r = reader();
    r.receive(&bytes[..1]);
    assert!(matches!(r.poll_next(false), ReadStep::Pending));
    r.receive(&bytes[1..]);
    match r.poll_next(false) {
        ReadStep::Value(v) => assert_eq!(v, value),
        _ => panic!("expected a value"),
    }
}

#[test]
fn truncated_stream_is_an_error() {
    let bytes = framed(RawBytes, &[vec![1_u8; 20]]);
    let mut r = reader();
    r.receive(&bytes[..5]);
    assert!(matches!(r.poll_next(true), ReadStep::Failed(FrameError::Truncated)));
    let mut r = reader();
    r.receive(&[0x11]);
    assert!(matches!(r.poll_next(true), ReadStep::Failed(FrameError::Truncated)));
}

#[test]
fn clean_end_of_stream() {
    let mut r = reader();
    assert_eq!(r.status(true), FrameStatus::End);
    assert!(matches!(r.poll_next(true), ReadStep::End));
    r.receive(&framed(RawBytes, &[vec![1, 2]]));
    assert!(matches!(r.poll_next(true), ReadStep::Value(_)));
    assert!(matches!(r.poll_next(true), ReadStep::End));
}

#[test]
fn one_byte_writes_deliver_everything_in_order() {
    let values = vec![vec![1_u8, 2, 3], Vec::new(), vec![4_u8; 40]];
    let expected = framed(RawBytes, &values);
    let mut writer = TransmogWriter::new((), RawBytes).for_async();
    for v in &values {
        writer.append(v).unwrap();
    }
    let mut sink = Vec::new();
    while !writer.is_flushed() {
        sink.push(writer.pending()[0]);
        writer.record_written(1);
    }
    assert_eq!(sink, expected);
    assert!(writer.finish_flush());
    assert!(writer.pending().is_empty());
}

#[test]
fn finish_flush_waits_for_the_sink() {
    let mut writer = TransmogWriter::new((), RawBytes).for_async();
    writer.append_framed(&vec![1, 2, 3]).unwrap();
    writer.record_written(2);
    assert!(!writer.finish_flush());
    assert_eq!(writer.pending(), &[2, 3]);
}

#[test]
fn unframed_output_is_rejected_by_a_frame_reader() {
    let mut writer = TransmogWriter::new((), U64BE);
    writer.append(&u64::MAX.wrapping_sub(1)).unwrap();
    let bare = writer.pending().to_vec();
    assert_eq!(bare.len(), 8);
    let mut r: TransmogReader<(), u64, U64BE> = TransmogReader::new((), U64BE);
    r.receive(&bare);
    assert!(matches!(r.poll_next(false), ReadStep::Failed(FrameError::Malformed)));
}

#[test]
fn oversized_length_is_rejected() {
    let mut r = reader();
    r.receive(&[0x80, 0xff, 0xff, 0xff, 0xff, 0xff, 0xff, 0xff, 0xff]);
    assert!(matches!(r.poll_next(false), ReadStep::Failed(FrameError::TooLarge)));
}

#[test]
fn decode_failure_keeps_the_frame() {
    let mut r: TransmogReader<(), u64, U64BE> = TransmogReader::new((), U64BE);
    r.receive(&[3, 1, 2, 3]);
    assert!(matches!(r.poll_next(false), ReadStep::Failed(FrameError::Format(_))));
    assert_eq!(r.buffer(), &[3, 1, 2, 3]);
}

#[test]
fn failed_serialization_leaves_the_buffer_as_it_was() {
    let mut writer = TransmogWriter::new((), U64BE).for_async();
    writer.append_framed(&2).unwrap();
    let before = writer.pending().to_vec();
    assert!(matches!(writer.append_framed(&3), Err(WriteError::Format(_))));
    assert_eq!(writer.pending(), &before[..]);
    let mut bare = TransmogWriter::new((), U64BE);
    assert!(matches!(bare.append_bare(&5), Err(WriteError::Format(_))));
    assert!(bare.pending().is_empty());
}

#[test]
fn wrong_size_hint_still_frames_correctly() {
    let value = vec![7_u8; 20];
    for error in [1_usize, 1000] {
        let bytes = framed(SizedBytes { error }, &[value.clone()]);
        assert_eq!(bytes, framed(RawBytes, &[value.clone()]));
    }
}

#[test]
fn switching_destination_keeps_state() {
    let mut writer = TransmogWriter::new((), RawBytes).for_async();
    writer.append_framed(&vec![1, 2]).unwrap();
    writer.record_written(1);
    let writer = writer.for_sync();
    assert_eq!(writer.pending(), &[1, 2]);
    let mut writer = writer.for_async();
    assert_eq!(writer.pending(), &[1, 2]);
    writer.record_written(2);
    assert!(writer.is_flushed());
}

#[test]
fn split_moves_buffered_state() {
    let mut stream: TransmogStream<Vec<u8>, Vec<u8>, u32, _, RawBytes> =
        TransmogStream::new(7_u32, RawBytes).for_async();
    let incoming = framed(RawBytes, &[vec![4, 5, 6]]);
    stream.reader_mut().receive(&incoming[..2]);
    stream.writer_mut().append_framed(&vec![9, 9]).unwrap();
    stream.writer_mut().record_written(1);
    assert_eq!(*stream.get_ref(), 7);
    let (mut r, w) = stream.tcp_split(|t| (t + 1, t + 2));
    assert_eq!(*r.get_ref(), 8);
    assert_eq!(*w.get_ref(), 9);
    assert_eq!(r.buffer(), &incoming[..2]);
    assert_eq!(w.pending(), &[9, 9]);
    r.receive(&incoming[2..]);
    match r.poll_next(false) {
        ReadStep::Value(v) => assert_eq!(v, vec![4, 5, 6]),
        _ => panic!("expected a value"),
    }
}

#[test]
fn stream_echo_in_memory() {
    let n: u64 = 81920;
    let mut client: TransmogStream<u64, u64, (), _, U64BE> =
        TransmogStream::build((), U64BE).sends_and_receives().for_async();
    let mut wire = Vec::new();
    for i in 0..n {
        client.writer_mut().append(&(i * 2)).unwrap();
    }
    while !client.writer_mut().is_flushed() {
        let pending = client.writer_mut().pending();
        let chunk = pending[..1000.min(pending.len())].to_vec();
        wire.extend_from_slice(&chunk);
        client.writer_mut().record_written(chunk.len());
    }
    assert!(client.writer_mut().finish_flush());
    let reader = client.reader_mut();
    reader.receive(&wire);
    let mut at = 0;
    loop {
        match reader.poll_next(true) {
            ReadStep::Value(v) => {
                assert_eq!(v, at * 2);
                at += 1;
            }
            ReadStep::End => break,
            _ => panic!("unexpected step"),
        }
    }
    assert_eq!(at, n);
}

#[test]
fn finish_frame_gives_the_value_or_the_error() {
    let bytes = framed(RawBytes, &[vec![1, 2, 3], vec![4]]);
    let mut r = reader();
    r.receive(&bytes);
    let (header, end) = match r.status(false) {
        FrameStatus::Ready { header, end } => (header, end),
        _ => panic!("expected a whole frame"),
    };
    assert_eq!((header, end), (1, 4));
    assert_eq!(r.frame_payload(header, end), &[1, 2, 3]);
    let failed: ReadStep<Vec<u8>, &str> = r.finish_frame(end, Err("bad"));
    assert_eq!(failed, ReadStep::Failed(FrameError::Format("bad")));
    assert_eq!(r.buffer(), &bytes[..]);
    let done: ReadStep<Vec<u8>, &str> = r.finish_frame(end, Ok(vec![9]));
    assert_eq!(done, ReadStep::Value(vec![9]));
    assert_eq!(r.buffer(), &[1, 4]);
}

#[test]
fn push_frame_and_push_bare() {
    let mut w: TransmogWriter<(), Vec<u8>, _, RawBytes> = TransmogWriter::new((), RawBytes);
    w.push_bare(&[7, 7]);
    w.push_frame(&[1, 2, 3]);
    w.push_frame(&[]);
    assert_eq!(w.pending(), &[7, 7, 3, 1, 2, 3, 0]);
}

#[test]
fn after_write_steps() {
    let mut w = TransmogWriter::new((), RawBytes).for_async();
    w.append_framed(&vec![5, 6]).unwrap();
    assert_eq!(w.after_write(0), FlushStep::SinkClosed);
    assert_eq!(w.pending(), &[2, 5, 6]);
    assert_eq!(w.after_write(1), FlushStep::Continue);
    assert_eq!(w.pending(), &[5, 6]);
    assert_eq!(w.after_write(10), FlushStep::Flushed);
    assert!(w.is_flushed());
    assert!(w.finish_flush());
    assert_eq!(w.after_write(0), FlushStep::Flushed);
}

#[test]
fn stream_mode_switch_keeps_buffers() {
    let mut stream: TransmogStream<Vec<u8>, Vec<u8>, (), _, RawBytes> =
        TransmogStream::new((), RawBytes);
    stream.reader_mut().receive(&[3, 1]);
    stream.writer_mut().append(&vec![8, 9]).unwrap();
    stream.writer_mut().record_written(1);
    let mut stream = stream.for_async();
    assert_eq!(stream.reader_mut().buffer(), &[3, 1]);
    assert_eq!(stream.writer_mut().pending(), &[9]);
    stream.writer_mut().append(&vec![4]).unwrap();
    assert_eq!(stream.writer_mut().pending(), &[9, 1, 4]);
    let mut stream = stream.for_sync();
    assert_eq!(stream.reader_mut().buffer(), &[3, 1]);
    assert_eq!(stream.writer_mut().pending(), &[9, 1, 4]);
}
