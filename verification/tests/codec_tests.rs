use run_in_roblox::codec::{encode_frame, encode_handshake, parse_frame, parse_handshake, Frame};
use run_in_roblox::events::{LogEvent, OutputLevel};

fn event_frame(level: OutputLevel, body: &[u8]) -> Frame {
    Frame::Event(LogEvent { level, body: body.to_vec() })
}

#[test]
fn multi_line_body_round_trips_byte_for_byte() {
    let body = b"first line\nsecond line\r\nthird\n\n  indented tail\n";
    let frame = event_frame(OutputLevel::Error, body);
    let bytes = encode_frame(&frame);
    let (parsed, used) = parse_frame(&bytes, 0).unwrap();
    assert_eq!(used, bytes.len());
    match parsed {
        Frame::Event(e) => {
            assert_eq!(e.level, OutputLevel::Error);
            assert_eq!(e.body, body.to_vec());
        },
        Frame::Finish => panic!("parsed the wrong frame"),
    }
}

#[test]
fn every_severity_round_trips() {
    let levels = vec![
        OutputLevel::Print,
        OutputLevel::Info,
        OutputLevel::Warning,
        OutputLevel::Error,
    ];
    for level in levels {
        let frame = event_frame(level, b"body");
        let bytes = encode_frame(&frame);
        let (parsed, used) = parse_frame(&bytes, 0).unwrap();
        assert_eq!(used, bytes.len());
        match parsed {
            Frame::Event(e) => {
                assert_eq!(e.level, level);
                assert_eq!(e.body, b"body".to_vec());
            },
            Frame::Finish => panic!("parsed the wrong frame"),
        }
    }
}

#[test]
fn empty_body_round_trips() {
    let frame = event_frame(OutputLevel::Print, b"");
    let bytes = encode_frame(&frame);
    assert_eq!(bytes.len(), 5);
    let (parsed, used) = parse_frame(&bytes, 0).unwrap();
    assert_eq!(used, 5);
    assert!(matches!(parsed, Frame::Event(e) if e.body.is_empty()));
}

#[test]
fn finish_frame_round_trips() {
    let bytes = encode_frame(&Frame::Finish);
    assert_eq!(bytes, vec![4u8]);
    let (parsed, used) = parse_frame(&bytes, 0).unwrap();
    assert_eq!(used, 1);
    assert!(matches!(parsed, Frame::Finish));
}

#[test]
fn event_frame_layout_is_tag_length_body() {
    let frame = event_frame(OutputLevel::Warning, b"hi");
    let bytes = encode_frame(&frame);
    assert_eq!(bytes, vec![2u8, 0, 0, 0, 2, b'h', b'i']);
}

#[test]
fn truncated_frames_do_not_parse() {
    let frame = event_frame(OutputLevel::Print, b"some body");
    let bytes = encode_frame(&frame);
    for cut in 0..bytes.len() {
        let prefix = bytes[..cut].to_vec();
        assert!(parse_frame(&prefix, 0).is_none());
    }
}

#[test]
fn unknown_tags_do_not_parse() {
    let bytes = vec![9u8, 0, 0, 0, 0];
    assert!(parse_frame(&bytes, 0).is_none());
    let empty: Vec<u8> = Vec::new();
    assert!(parse_frame(&empty, 0).is_none());
}

#[test]
fn consecutive_frames_parse_at_offsets() {
    let mut stream = encode_frame(&event_frame(OutputLevel::Print, b"one"));
    stream.extend(encode_frame(&event_frame(OutputLevel::Error, b"two\nlines")));
    stream.extend(encode_frame(&Frame::Finish));

    let (first, used_a) = parse_frame(&stream, 0).unwrap();
    assert!(matches!(first, Frame::Event(e) if e.body == b"one".to_vec()));
    let (second, used_b) = parse_frame(&stream, used_a).unwrap();
    assert!(matches!(second, Frame::Event(e) if e.body == b"two\nlines".to_vec()));
    let (third, used_c) = parse_frame(&stream, used_a + used_b).unwrap();
    assert!(matches!(third, Frame::Finish));
    assert_eq!(used_a + used_b + used_c, stream.len());
}

#[test]
fn handshake_round_trips_with_trailing_data() {
    let token = b"run-in-roblox-00ff".to_vec();
    let mut bytes = encode_handshake(&token);
    let handshake_len = bytes.len();
    bytes.extend(encode_frame(&Frame::Finish));
    let (parsed, used) = parse_handshake(&bytes, 0).unwrap();
    assert_eq!(parsed, token);
    assert_eq!(used, handshake_len);
    let (after, _) = parse_frame(&bytes, used).unwrap();
    assert!(matches!(after, Frame::Finish));
}

#[test]
fn truncated_handshake_does_not_parse() {
    let token = b"run-in-roblox-12".to_vec();
    let bytes = encode_handshake(&token);
    for cut in 0..bytes.len() {
        let prefix = bytes[..cut].to_vec();
        assert!(parse_handshake(&prefix, 0).is_none());
    }
}
