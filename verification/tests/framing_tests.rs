use kernel_fuzz::framing::{encode_frame, FrameAssembler, FrameProgress, ReadEvent, RecvOutcome,
    recv_frame};

fn frame_of(payload: &[u8]) -> Vec<u8> {
    encode_frame(&payload.to_vec())
}

#[test]
fn wire_format_is_length_prefix_then_payload() {
    let frame = frame_of(b"abc");
    assert_eq!(frame, vec![3u8, 0, 0, 0, b'a', b'b', b'c']);
}

#[test]
fn wire_format_of_empty_payload() {
    let frame = frame_of(b"");
    assert_eq!(frame, vec![0u8, 0, 0, 0]);
}

#[test]
fn wire_format_length_is_little_endian() {
    let payload = vec![7u8; 300];
    let frame = encode_frame(&payload);
    assert_eq!(&frame[..4], &[44u8, 1, 0, 0]);
    assert_eq!(&frame[4..], &payload[..]);
}

#[test]
fn round_trip_small_payload() {
    let payload = b"hello kernel".to_vec();
    let frame = encode_frame(&payload);
    let outcome = recv_frame(vec![ReadEvent::Data(frame)]);
    match outcome {
        RecvOutcome::Frame(got) => assert_eq!(got, payload),
        _ => panic!("expected a whole frame"),
    }
}

#[test]
fn round_trip_one_mebibyte() {
    let payload: Vec<u8> = (0..1048576u32).map(|i| (i % 251) as u8).collect();
    let frame = encode_frame(&payload);
    let outcome = recv_frame(vec![ReadEvent::Data(frame)]);
    match outcome {
        RecvOutcome::Frame(got) => assert_eq!(got, payload),
        _ => panic!("expected a whole frame"),
    }
}

#[test]
fn assembler_reports_progress() {
    let frame = frame_of(b"data");
    let mut assembler = FrameAssembler::new();
    assert_eq!(assembler.feed(&frame[..2]), FrameProgress::NeedMore);
    assert_eq!(assembler.feed(&frame[2..6]), FrameProgress::NeedMore);
    assert_eq!(assembler.feed(&frame[6..]), FrameProgress::Done);
    assert_eq!(assembler.into_payload(), b"data".to_vec());
}

#[test]
fn no_data_when_first_read_times_out() {
    let outcome = recv_frame(vec![ReadEvent::DeadlineExpired]);
    assert!(matches!(outcome, RecvOutcome::NoData));
}

#[test]
fn no_data_when_deadline_cuts_a_partial_frame() {
    let frame = frame_of(b"late");
    let outcome = recv_frame(vec![
        ReadEvent::Data(frame[..3].to_vec()),
        ReadEvent::DeadlineExpired,
    ]);
    assert!(matches!(outcome, RecvOutcome::NoData));
}

#[test]
fn delayed_complete_frame_is_returned_whole() {
    let frame = frame_of(b"slow but sure");
    let outcome = recv_frame(vec![
        ReadEvent::Data(frame[..1].to_vec()),
        ReadEvent::Data(frame[1..7].to_vec()),
        ReadEvent::Data(frame[7..].to_vec()),
    ]);
    match outcome {
        RecvOutcome::Frame(got) => assert_eq!(got, b"slow but sure".to_vec()),
        _ => panic!("expected a whole frame"),
    }
}

#[test]
fn end_of_stream_before_length_word() {
    let outcome = recv_frame(vec![ReadEvent::Closed]);
    assert!(matches!(outcome, RecvOutcome::EndOfStream));
}

#[test]
fn end_of_stream_with_a_partial_length_word() {
    // Two of the four prefix bytes arrived, then the stream closed: still
    // the end of the stream, not a malformed frame.
    let frame = frame_of(b"never finished");
    let outcome = recv_frame(vec![ReadEvent::Data(frame[..2].to_vec()), ReadEvent::Closed]);
    assert!(matches!(outcome, RecvOutcome::EndOfStream));
}

#[test]
fn close_inside_a_frame_is_malformed() {
    let frame = frame_of(b"cut short");
    let outcome = recv_frame(vec![ReadEvent::Data(frame[..5].to_vec()), ReadEvent::Closed]);
    assert!(matches!(outcome, RecvOutcome::Malformed));
}

#[test]
fn extra_bytes_for_a_frame_are_malformed() {
    let mut frame = frame_of(b"just right");
    frame.push(0xFF);
    let outcome = recv_frame(vec![ReadEvent::Data(frame)]);
    assert!(matches!(outcome, RecvOutcome::Malformed));
}
