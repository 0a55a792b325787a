use moonbeam::frame::{
    classify_inbound, encode_frame, input_frame, video_frame, FrameError, InboundFrame, FLAG_KEYFRAME,
    TYPE_INPUT, TYPE_VIDEO,
};

#[test]
fn input_frame_reads_back_as_input() {
    let json = br#"{"type":"pen_up"}"#;
    let frame = input_frame(json);
    assert_eq!(frame.len(), json.len() + 2);
    assert_eq!(frame[0], 0x03);
    assert_eq!(frame[1], 0x00);
    assert_eq!(
        classify_inbound(&frame),
        Ok(InboundFrame::Input { flags: 0, payload: json.to_vec() })
    );
}

#[test]
fn short_frames_are_errors() {
    assert_eq!(classify_inbound(&[]), Err(FrameError::TooShort { len: 0 }));
    assert_eq!(classify_inbound(&[0x03]), Err(FrameError::TooShort { len: 1 }));
}

#[test]
fn header_only_input_frame_has_empty_payload() {
    assert_eq!(
        classify_inbound(&[TYPE_INPUT, 0x07]),
        Ok(InboundFrame::Input { flags: 0x07, payload: vec![] })
    );
}

#[test]
fn non_input_frames_are_ignored() {
    let video = video_frame(&[0, 0, 0, 1, 0x65], true);
    assert_eq!(classify_inbound(&video), Ok(InboundFrame::Ignored { kind: TYPE_VIDEO }));
    assert_eq!(classify_inbound(&[0x02, 0x00, 1, 2]), Ok(InboundFrame::Ignored { kind: 0x02 }));
}

#[test]
fn video_frame_sets_keyframe_flag() {
    assert_eq!(video_frame(&[9, 8, 7], true), vec![TYPE_VIDEO, FLAG_KEYFRAME, 9, 8, 7]);
    assert_eq!(video_frame(&[9, 8, 7], false), vec![TYPE_VIDEO, 0, 9, 8, 7]);
    assert_eq!(video_frame(&[], false), vec![0x01, 0x00]);
}

#[test]
fn encode_frame_prefixes_header() {
    assert_eq!(encode_frame(0x04, 0x80, &[1, 2, 3]), vec![0x04, 0x80, 1, 2, 3]);
}

#[test]
fn ping_is_answered_with_pong_of_same_bytes() {
    let ts: u64 = 0x0102_0304_0506_0708;
    let ping = encode_frame(moonbeam::frame::TYPE_PING, 0x00, &ts.to_le_bytes());
    let mut expected = ping.clone();
    expected[0] = moonbeam::frame::TYPE_PONG;
    assert_eq!(classify_inbound(&ping), Ok(InboundFrame::Ping { reply: expected.clone() }));
    assert_eq!(moonbeam::frame::pong_frame(&ping), expected);
    assert_eq!(expected[0], 0x05);
    assert_eq!(&expected[1..], &ping[1..]);
}

#[test]
fn one_byte_ping_is_answered() {
    assert_eq!(classify_inbound(&[0x04]), Ok(InboundFrame::Ping { reply: vec![0x05] }));
}

#[test]
fn pong_frames_are_ignored() {
    assert_eq!(classify_inbound(&[0x05, 0x00, 1, 2]), Ok(InboundFrame::Ignored { kind: 0x05 }));
}
