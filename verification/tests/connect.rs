//! Connect-RPC envelopes.

use cube_terminal::connect::{
    connect_envelope, stream_error, ConnectFrame, ConnectFrameReader, FrameStep,
};
use cube_terminal::error::AppError;

fn frame(flags: u8, payload: &[u8]) -> FrameStep {
    FrameStep::Frame(ConnectFrame { flags, payload: payload.to_vec() })
}

#[test]
fn envelope_has_flags_length_and_payload() {
    assert_eq!(connect_envelope(b"hi"), vec![0, 0, 0, 0, 2, b'h', b'i']);
    assert_eq!(connect_envelope(b""), vec![0, 0, 0, 0, 0]);
    let long = connect_envelope(&vec![7; 0x1_0203]);
    assert_eq!(long[..5], [0, 0, 1, 2, 3]);
    assert_eq!(long.len(), 5 + 0x1_0203);
}

#[test]
fn reader_hands_out_envelopes_in_order() {
    let mut reader = ConnectFrameReader::new();
    reader.push_chunk(&connect_envelope(b"one"));
    reader.push_chunk(&connect_envelope(b""));
    reader.push_chunk(&[2, 0, 0, 0, 1, b'x']);
    assert_eq!(reader.next_frame(), Ok(frame(0, b"one")));
    assert_eq!(reader.next_frame(), Ok(frame(0, b"")));
    assert_eq!(reader.next_frame(), Ok(frame(2, b"x")));
    assert_eq!(reader.next_frame(), Ok(FrameStep::NeedChunk));
    reader.finish();
    assert_eq!(reader.next_frame(), Ok(FrameStep::End));
}

#[test]
fn chunks_may_cut_envelopes_anywhere() {
    let mut stream = connect_envelope(b"first");
    stream.extend(connect_envelope(b"second"));
    for size in 1..stream.len() + 1 {
        let mut reader = ConnectFrameReader::new();
        let mut frames = Vec::new();
        for chunk in stream.chunks(size) {
            reader.push_chunk(chunk);
            while let Ok(FrameStep::Frame(frame)) = reader.next_frame() {
                frames.push(frame.payload);
            }
        }
        assert_eq!(frames, vec![b"first".to_vec(), b"second".to_vec()]);
    }
}

#[test]
fn no_envelope_before_its_end() {
    let stream = connect_envelope(b"payload");
    for n in 0..stream.len() {
        let mut reader = ConnectFrameReader::new();
        reader.push_chunk(&stream[..n]);
        assert_eq!(reader.next_frame(), Ok(FrameStep::NeedChunk));
    }
}

#[test]
fn truncated_stream_is_an_error() {
    let stream = connect_envelope(b"payload");
    for n in 1..stream.len() {
        let mut reader = ConnectFrameReader::new();
        reader.push_chunk(&stream[..n]);
        reader.finish();
        assert_eq!(
            reader.next_frame(),
            Err(AppError::Internal("truncated envd terminal stream".to_string()))
        );
    }
}

#[test]
fn end_of_stream_is_a_flag() {
    let flagged = |flags: u8| ConnectFrame { flags, payload: Vec::new() }.is_end_stream();
    assert!(!flagged(0));
    assert!(!flagged(1));
    assert!(flagged(2));
    assert!(flagged(3));
    assert!(!flagged(0b1111_1101));
}

#[test]
fn read_failure_names_its_reason() {
    assert_eq!(
        stream_error("reset"),
        AppError::Internal("failed reading envd terminal stream: reset".to_string())
    );
}
