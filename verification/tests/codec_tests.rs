use std::pin::Pin;
use std::task::Context;
use std::task::Poll;

use futures_io::AsyncRead;
use futures_io::AsyncWrite;

use packet_stream_codec::CodecError;
use packet_stream_codec::CodecSink;
use packet_stream_codec::CodecStream;
use packet_stream_codec::DecodeStep;
use packet_stream_codec::Metadata;
use packet_stream_codec::PacketId;
use packet_stream_codec::SinkOp;

// Encodes the items and the end-of-stream marker into a byte vector,
// letting the "channel" accept at most `chunk_limit` bytes per write.
fn encode_all(items: &[(Vec<u8>, Metadata)], chunk_limit: usize) -> Vec<u8> {
    let mut sink: CodecSink<()> = CodecSink::new(());
    let mut wire: Vec<u8> = Vec::new();
    for (payload, metadata) in items {
        sink.start_send(payload.clone(), *metadata).unwrap();
        loop {
            match sink.flush_action() {
                SinkOp::Write(chunk) => {
                    let n = chunk.len().min(chunk_limit);
                    wire.extend_from_slice(&chunk[..n]);
                    sink.note_written(n).unwrap();
                }
                SinkOp::Flush => break,
                SinkOp::Close => unreachable!(),
            }
        }
    }
    loop {
        match sink.close_action() {
            SinkOp::Write(chunk) => {
                let n = chunk.len().min(chunk_limit);
                wire.extend_from_slice(&chunk[..n]);
                sink.note_written(n).unwrap();
            }
            SinkOp::Close => break,
            SinkOp::Flush => unreachable!(),
        }
    }
    wire
}

// Encodes the items without the end-of-stream marker.
fn encode_packets(items: &[(Vec<u8>, Metadata)], chunk_limit: usize) -> Vec<u8> {
    let mut sink: CodecSink<()> = CodecSink::new(());
    let mut wire: Vec<u8> = Vec::new();
    for (payload, metadata) in items {
        sink.start_send(payload.clone(), *metadata).unwrap();
        loop {
            match sink.flush_action() {
                SinkOp::Write(chunk) => {
                    let n = chunk.len().min(chunk_limit);
                    wire.extend_from_slice(&chunk[..n]);
                    sink.note_written(n).unwrap();
                }
                SinkOp::Flush => break,
                SinkOp::Close => unreachable!(),
            }
        }
    }
    wire
}

// What decoding an entire byte vector came to.
enum Decoded {
    Ended(Vec<(Vec<u8>, Metadata)>),
    Failed(Vec<(Vec<u8>, Metadata)>, CodecError),
}

// Decodes from the byte vector, handing the machine at most `chunk_limit`
// bytes at a time; an exhausted vector feeds empty reads (end of input).
fn decode_all(wire: &[u8], chunk_limit: usize) -> Decoded {
    let mut stream: CodecStream<()> = CodecStream::new(());
    let mut out: Vec<(Vec<u8>, Metadata)> = Vec::new();
    let mut pos: usize = 0;
    loop {
        let want = stream.read_request();
        let n = want.min(chunk_limit).min(wire.len() - pos);
        let buf = &wire[pos..pos + n];
        pos += n;
        match stream.feed(buf) {
            Ok(DecodeStep::Progress) => {}
            Ok(DecodeStep::Item(payload, metadata)) => out.push((payload, metadata)),
            Ok(DecodeStep::End) => return Decoded::Ended(out),
            Err(e) => return Decoded::Failed(out, e),
        }
    }
}

// The original integration test: 255 one-byte packets through a two-byte
// ring buffer, the sender and receiver advancing alternately so that every
// write and read is partial and suspends.
#[test]
fn codec_sink_stream() {
    let data: Vec<u8> = (0..255).collect();
    let expected_data = data.clone();

    let waker = futures_util::task::noop_waker();
    let mut cx = Context::from_waker(&waker);

    let (writer, reader) = async_ringbuffer::ring_buffer(2);
    let mut sink: CodecSink<async_ringbuffer::Writer> = CodecSink::new(writer);
    let mut stream: CodecStream<async_ringbuffer::Reader> = CodecStream::new(reader);

    let mut idx: usize = 0;
    let mut in_flight = false;
    let mut closing = false;
    let mut sender_done = false;
    let mut received: Vec<(Vec<u8>, Metadata)> = Vec::new();
    let mut ended = false;

    while !ended {
        // advance the sender until it suspends or finishes
        while !sender_done {
            if !closing && !in_flight {
                if idx < data.len() {
                    let payload = vec![data[idx]];
                    let metadata = Metadata { flags: 0, id: idx as PacketId };
                    sink.start_send(payload, metadata).unwrap();
                    in_flight = true;
                    idx += 1;
                } else {
                    closing = true;
                }
            }
            if closing {
                match sink.close_action() {
                    SinkOp::Write(chunk) => {
                        match Pin::new(&mut sink.writer).poll_write(&mut cx, &chunk) {
                            Poll::Ready(Ok(n)) => sink.note_written(n).unwrap(),
                            Poll::Ready(Err(e)) => panic!("ring buffer write failed: {:?}", e),
                            Poll::Pending => break,
                        }
                    }
                    SinkOp::Close => {
                        match Pin::new(&mut sink.writer).poll_close(&mut cx) {
                            Poll::Ready(Ok(())) => sender_done = true,
                            Poll::Ready(Err(e)) => panic!("ring buffer close failed: {:?}", e),
                            Poll::Pending => break,
                        }
                    }
                    SinkOp::Flush => unreachable!(),
                }
            } else {
                match sink.flush_action() {
                    SinkOp::Write(chunk) => {
                        match Pin::new(&mut sink.writer).poll_write(&mut cx, &chunk) {
                            Poll::Ready(Ok(n)) => sink.note_written(n).unwrap(),
                            Poll::Ready(Err(e)) => panic!("ring buffer write failed: {:?}", e),
                            Poll::Pending => break,
                        }
                    }
                    SinkOp::Flush => in_flight = false,
                    SinkOp::Close => unreachable!(),
                }
            }
        }
        // advance the receiver until it suspends or the stream ends
        while !ended {
            let want = stream.read_request();
            let mut buf = vec![0u8; want.min(64)];
            match Pin::new(&mut stream.reader).poll_read(&mut cx, &mut buf) {
                Poll::Ready(Ok(n)) => match stream.feed(&buf[..n]) {
                    Ok(DecodeStep::Progress) => {}
                    Ok(DecodeStep::Item(payload, metadata)) => received.push((payload, metadata)),
                    Ok(DecodeStep::End) => ended = true,
                    Err(e) => panic!("decoding failed: {:?}", e),
                },
                Poll::Ready(Err(e)) => panic!("ring buffer read failed: {:?}", e),
                Poll::Pending => break,
            }
        }
    }

    assert_eq!(received.len(), 255);
    for (i, &(ref data, ref metadata)) in received.iter().enumerate() {
        assert_eq!(i as PacketId, metadata.id);
        assert!(!metadata.is_stream_packet());
        assert!(!metadata.is_end_packet());
        assert!(metadata.is_buffer_packet());
        assert_eq!(data, &vec![expected_data[i]]);
    }
}

#[test]
fn round_trip_one_byte_chunks() {
    let items = vec![
        (vec![1u8, 2, 3], Metadata { flags: 0, id: 1 }),
        (vec![], Metadata { flags: 0b0000_1001, id: -5 }),
        (vec![0xFF; 70], Metadata { flags: 0b0000_0110, id: 0x7FFF_FFFF }),
        (vec![0x00], Metadata { flags: 0b0000_1110, id: i32::MIN }),
    ];
    for write_chunk in [1usize, 3, 1000] {
        for read_chunk in [1usize, 2, 1000] {
            let wire = encode_all(&items, write_chunk);
            match decode_all(&wire, read_chunk) {
                Decoded::Ended(out) => assert_eq!(out, items),
                Decoded::Failed(_, e) => panic!("decoding failed: {:?}", e),
            }
        }
    }
}

#[test]
fn chunking_does_not_change_the_wire() {
    let items = vec![
        (vec![9u8; 13], Metadata { flags: 2, id: 42 }),
        (vec![], Metadata { flags: 1, id: -1 }),
    ];
    let whole = encode_all(&items, usize::MAX);
    for chunk in [1usize, 2, 5, 7] {
        assert_eq!(encode_all(&items, chunk), whole);
    }
}

#[test]
fn concrete_example() {
    let items = vec![(vec![0x41u8], Metadata { flags: 0, id: 7 })];
    let wire = encode_packets(&items, usize::MAX);
    assert_eq!(wire, vec![0x00, 0x00, 0x00, 0x00, 0x01, 0x00, 0x00, 0x00, 0x07, 0x41]);

    let mut stream: CodecStream<()> = CodecStream::new(());
    let mut pos: usize = 0;
    loop {
        let want = stream.read_request();
        let n = want.min(wire.len() - pos);
        let step = stream.feed(&wire[pos..pos + n]).unwrap();
        pos += n;
        match step {
            DecodeStep::Progress => {}
            DecodeStep::Item(payload, metadata) => {
                assert_eq!(payload, vec![0x41]);
                assert_eq!(metadata.flags, 0);
                assert_eq!(metadata.id, 7);
                break;
            }
            DecodeStep::End => panic!("stream ended instead of yielding the packet"),
        }
    }
}

#[test]
fn negative_id_on_the_wire() {
    let items = vec![(vec![], Metadata { flags: 1, id: -1 })];
    let wire = encode_packets(&items, usize::MAX);
    assert_eq!(wire, vec![0x01, 0x00, 0x00, 0x00, 0x00, 0xFF, 0xFF, 0xFF, 0xFF]);
    let full = encode_all(&items, usize::MAX);
    match decode_all(&full, usize::MAX) {
        Decoded::Ended(out) => assert_eq!(out, items),
        Decoded::Failed(_, e) => panic!("decoding failed: {:?}", e),
    }
}

#[test]
fn oversized_payload_rejected() {
    let mut sink: CodecSink<()> = CodecSink::new(());
    let oversized = vec![0u8; u32::MAX as usize + 1];
    let r = sink.start_send(oversized, Metadata { flags: 0, id: 3 });
    assert_eq!(r, Err(CodecError::InvalidInput));
    // the sink stayed idle: a valid submission still succeeds
    assert_eq!(sink.start_send(vec![7u8], Metadata { flags: 0, id: 3 }), Ok(()));
    match sink.flush_action() {
        SinkOp::Write(chunk) => {
            assert_eq!(chunk, vec![0x00, 0x00, 0x00, 0x00, 0x01, 0x00, 0x00, 0x00, 0x03, 0x07]);
        }
        _ => panic!("the accepted packet owes bytes"),
    }
}

#[test]
fn reserved_type_rejected() {
    // type bits 0b11 in the flags byte; length and id bytes follow
    let wire = vec![0x03u8, 0x00, 0x00, 0x00, 0x01, 0x00, 0x00, 0x00, 0x01, 0x41];
    match decode_all(&wire, usize::MAX) {
        Decoded::Failed(out, e) => {
            assert_eq!(e, CodecError::InvalidData);
            assert_eq!(out.len(), 0);
        }
        Decoded::Ended(_) => panic!("a reserved type flag must fail decoding"),
    }
    // the failure comes from the flags byte alone, before length or id bytes
    let mut stream: CodecStream<()> = CodecStream::new(());
    assert_eq!(stream.read_request(), 1);
    assert_eq!(stream.feed(&[0x0Bu8]), Err(CodecError::InvalidData));
}

#[test]
fn clean_termination() {
    let items = vec![
        (vec![5u8], Metadata { flags: 0, id: 1 }),
        (vec![6u8, 7], Metadata { flags: 2, id: 2 }),
        (vec![], Metadata { flags: 1, id: 3 }),
    ];
    let wire = encode_all(&items, usize::MAX);
    match decode_all(&wire, usize::MAX) {
        Decoded::Ended(out) => assert_eq!(out, items),
        Decoded::Failed(_, e) => panic!("decoding failed: {:?}", e),
    }
    // an empty stream is just the marker
    match decode_all(&encode_all(&[], usize::MAX), 1) {
        Decoded::Ended(out) => assert_eq!(out.len(), 0),
        Decoded::Failed(_, e) => panic!("decoding failed: {:?}", e),
    }
}

#[test]
fn truncation_detected() {
    let items = vec![
        (vec![5u8], Metadata { flags: 0, id: 1 }),
        (vec![6u8, 7, 8], Metadata { flags: 2, id: 2 }),
    ];
    let wire = encode_packets(&items, usize::MAX);
    // cutting anywhere before the end: mid-header, mid-body, or before the
    // marker ever arrives
    for cut in 0..wire.len() {
        match decode_all(&wire[..cut], usize::MAX) {
            Decoded::Failed(out, e) => {
                assert_eq!(e, CodecError::UnexpectedEof);
                // only packets whose bytes arrived in full were produced
                if cut < 10 {
                    assert_eq!(out.len(), 0);
                } else {
                    assert_eq!(out.len(), 1);
                    assert_eq!(out[0], items[0]);
                }
            }
            Decoded::Ended(_) => panic!("a truncated stream must not end cleanly"),
        }
    }
}

#[test]
fn zero_write_is_write_zero() {
    let mut sink: CodecSink<()> = CodecSink::new(());
    sink.start_send(vec![1u8], Metadata { flags: 0, id: 0 }).unwrap();
    assert_eq!(sink.note_written(0), Err(CodecError::WriteZero));
}

#[test]
fn all_zero_header_always_terminates() {
    // a zero-length packet with zero flags and id is bit-identical to the
    // end-of-stream marker, so the decoded sequence ends there
    let items = vec![
        (vec![], Metadata { flags: 0, id: 0 }),
        (vec![0x01u8], Metadata { flags: 0, id: 1 }),
    ];
    let wire = encode_all(&items, usize::MAX);
    match decode_all(&wire, usize::MAX) {
        Decoded::Ended(out) => assert_eq!(out.len(), 0),
        Decoded::Failed(_, e) => panic!("decoding failed: {:?}", e),
    }
}

#[test]
fn metadata_flag_accessors() {
    let stream_packet = Metadata { flags: 0b0000_1000, id: 0 };
    assert!(stream_packet.is_stream_packet());
    assert!(!stream_packet.is_end_packet());

    let end_packet = Metadata { flags: 0b0000_0100, id: 0 };
    assert!(end_packet.is_end_packet());
    assert!(!end_packet.is_stream_packet());

    let buffer = Metadata { flags: 0b0000_1100, id: 9 };
    assert!(buffer.is_buffer_packet());
    assert!(!buffer.is_string_packet());
    assert!(!buffer.is_json_packet());
    assert!(!buffer.is_unused_packet());

    let string = Metadata { flags: 0b0000_0001, id: 9 };
    assert!(string.is_string_packet());

    let json = Metadata { flags: 0b0000_0010, id: 9 };
    assert!(json.is_json_packet());

    let unused = Metadata { flags: 0b0000_0011, id: 9 };
    assert!(unused.is_unused_packet());
    assert!(!unused.is_buffer_packet());
}
