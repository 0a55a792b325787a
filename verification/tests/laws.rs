use moonbeam::capture::copy_rows;
use moonbeam::encode::{on_format_param, FormatAction, FormatParam, VideoFormat};
use moonbeam::frame::{classify_inbound, encode_frame, InboundFrame, TYPE_INPUT};
use moonbeam::gesture::{pinch_down, pinch_release, pen_proximity_in, pen_proximity_out};
use moonbeam::input::{
    device_of, pen_report, Axis, Device, DeviceEvent, InputMsg, Key, PenButton, TouchState, PEN_SERIAL,
};
use moonbeam::session::{on_inbound, Inbound, SocketAction};

/// Whether `key` is held after `events`, starting from `initial`.
fn key_state(events: &[DeviceEvent], key: Key, initial: bool) -> bool {
    events.iter().fold(initial, |held, e| match e {
        DeviceEvent::Key(k, pressed) if *k == key => *pressed,
        _ => held,
    })
}

/// Contact id of `slot` after `events`, MT protocol B.
fn tracking_id(events: &[DeviceEvent], slot: i32, initial_slot: i32, initial_id: i32) -> i32 {
    let mut current = initial_slot;
    let mut id = initial_id;
    for e in events {
        match e {
            DeviceEvent::Abs(Axis::MtSlot, s) => current = *s,
            DeviceEvent::Abs(Axis::MtTrackingId, v) if current == slot => id = *v,
            _ => {}
        }
    }
    id
}

fn report(msg: InputMsg) -> Vec<DeviceEvent> {
    if device_of(&msg) == Device::Pen {
        pen_report(&msg, PEN_SERIAL)
    } else {
        TouchState::new().report(&msg)
    }
}

const COUNT_KEYS: [Key; 5] =
    [Key::ToolFinger, Key::ToolDoubleTap, Key::ToolTripleTap, Key::ToolQuadTap, Key::ToolQuintTap];

#[test]
fn law_touch_keys_track_contacts() {
    let m = |slot: i32| InputMsg::TouchDown { slot, id: slot + 100, x: 1, y: 1, major: 1, pressure: 1 };
    let script = [
        m(0), m(1), InputMsg::TouchUp { slot: 0 }, m(2), m(3), m(4), m(5), m(6),
        InputMsg::TouchMove { slot: 2, x: 5, y: 5, major: 1, pressure: 1 },
        InputMsg::PenUp, InputMsg::TouchUp { slot: 9 }, InputMsg::TouchUp { slot: 1 },
        InputMsg::TouchUp { slot: 2 }, InputMsg::TouchUp { slot: 3 }, InputMsg::TouchUp { slot: 4 },
        InputMsg::TouchUp { slot: 5 }, InputMsg::TouchUp { slot: 6 },
    ];
    let mut state = TouchState::new();
    let mut history: Vec<DeviceEvent> = Vec::new();
    for msg in script.iter() {
        if device_of(msg) == Device::Touch {
            history.extend(state.report(msg));
        }
        let n = state.active_count();
        assert_eq!(key_state(&history, Key::Touch, false), n > 0);
        for (i, k) in COUNT_KEYS.iter().enumerate() {
            let expected = n > 0 && (n.min(5) == i + 1);
            assert_eq!(key_state(&history, *k, false), expected);
        }
    }
    assert_eq!(state.active_count(), 0);
}

#[test]
fn law_input_frame_roundtrip() {
    for payload in [&b""[..], &b"{}"[..], &br#"{"type":"touch_up","slot":3}"#[..]] {
        let frame = encode_frame(TYPE_INPUT, 5, payload);
        assert_eq!(
            classify_inbound(&frame),
            Ok(InboundFrame::Input { flags: 5, payload: payload.to_vec() })
        );
    }
}

#[test]
fn law_pen_up_undoes_pen_down() {
    let mut events = report(InputMsg::PenDown { x: 1, y: 2, pressure: 3, tilt_x: 0, tilt_y: 0 });
    assert!(key_state(&events, Key::ToolPen, false));
    assert!(key_state(&events, Key::Touch, false));
    events.extend(report(InputMsg::PenUp));
    assert!(!key_state(&events, Key::ToolPen, true));
    assert!(!key_state(&events, Key::Touch, true));
}

#[test]
fn law_pen_move_keeps_keys() {
    let events = report(InputMsg::PenMove { x: 1, y: 2, pressure: 3, tilt_x: 0, tilt_y: 0 });
    for k in [Key::ToolPen, Key::Touch, Key::Stylus] {
        assert!(key_state(&events, k, true));
        assert!(!key_state(&events, k, false));
    }
}

#[test]
fn law_button_sets_only_its_key() {
    let events = report(InputMsg::PenButton { button: PenButton::Stylus2, state: true });
    assert!(key_state(&events, Key::Stylus2, false));
    assert!(!key_state(&events, Key::Stylus, false));
}

#[test]
fn law_touch_up_undoes_touch_down() {
    let mut state = TouchState::new();
    let mut events =
        state.report(&InputMsg::TouchDown { slot: 2, id: 77, x: 1, y: 2, major: 200, pressure: 100 });
    assert_eq!(tracking_id(&events, 2, 0, -1), 77);
    events.extend(state.report(&InputMsg::TouchUp { slot: 2 }));
    assert_eq!(tracking_id(&events, 2, 0, -1), -1);
}

#[test]
fn law_other_slots_untouched() {
    let events = report(InputMsg::TouchUp { slot: 1 });
    assert_eq!(tracking_id(&events, 0, 0, 55), 55);
    let events = report(InputMsg::TouchDown { slot: 4, id: 9, x: 1, y: 2, major: 3, pressure: 4 });
    assert_eq!(tracking_id(&events, 3, 3, 12), 12);
}

#[test]
fn law_pinch_release_frees_both_slots() {
    let mut events = pinch_down(100, 101, 1480, 924);
    assert_eq!(tracking_id(&events, 0, 5, -1), 100);
    assert_eq!(tracking_id(&events, 1, 5, -1), 101);
    events.extend(pinch_release());
    assert_eq!(tracking_id(&events, 0, 5, 7), -1);
    assert_eq!(tracking_id(&events, 1, 5, 7), -1);
}

#[test]
fn law_proximity_out_undoes_in() {
    let mut events = pen_proximity_in(PEN_SERIAL);
    assert!(key_state(&events, Key::ToolPen, false));
    events.extend(pen_proximity_out());
    assert!(!key_state(&events, Key::ToolPen, true));
}

#[test]
fn law_encoder_opened_once() {
    let p = FormatParam::Video { format: VideoFormat::Bgrx, width: 8, height: 8 };
    assert!(matches!(on_format_param(false, p), FormatAction::OpenEncoder { .. }));
    assert_eq!(on_format_param(true, p), FormatAction::Ignore);
}

#[test]
fn law_frames_never_disconnect() {
    assert_ne!(on_inbound(Inbound::Binary), SocketAction::Disconnect);
}

#[test]
fn law_copy_rows_copies_each_row_and_keeps_the_rest() {
    let src: Vec<u8> = (0..40).collect();
    let mut dst = vec![0xAAu8; 50];
    copy_rows(&src, 10, &mut dst, 12, 8, 4);
    for y in 0..4 {
        for x in 0..12 {
            let expect = if x < 8 { src[y * 10 + x] } else { 0xAA };
            assert_eq!(dst[y * 12 + x], expect);
        }
    }
    assert!(dst[48..].iter().all(|b| *b == 0xAA));
}

/// The size the encoder is open for after the parameters, each paired
/// with whether opening would succeed.
fn encoder_after(events: &[(FormatParam, bool)]) -> Option<(u32, u32)> {
    let mut open = None;
    for (param, ok) in events {
        if let FormatAction::OpenEncoder { width, height } = on_format_param(open.is_some(), *param) {
            if *ok {
                open = Some((width, height));
            }
        }
    }
    open
}

#[test]
fn law_encoder_opened_at_first_bgrx() {
    let v = |format, width, height| FormatParam::Video { format, width, height };
    let events = [
        (FormatParam::NotFormat, true),
        (v(VideoFormat::Rgba, 10, 10), true),
        (v(VideoFormat::Bgrx, 20, 20), false),
        (v(VideoFormat::Bgrx, 2960, 1848), true),
        (v(VideoFormat::Bgrx, 1920, 1080), true),
        (v(VideoFormat::Argb, 5, 5), true),
    ];
    assert_eq!(encoder_after(&events), Some((2960, 1848)));
    assert_eq!(encoder_after(&events[..3]), None);
}

#[test]
fn law_pts_count_frames() {
    let mut s = moonbeam::encode::EncodeStats::new();
    let pts: Vec<i64> = (0..100).map(|_| s.next_pts()).collect();
    assert_eq!(pts, (0..100).collect::<Vec<i64>>());
    assert_eq!(s.frames_in, 100);
}

#[test]
fn law_ping_answered_before_input() {
    let ping = encode_frame(moonbeam::frame::TYPE_PING, 3, &[1, 2, 3, 4, 5, 6, 7, 8]);
    assert_eq!(
        classify_inbound(&ping),
        Ok(InboundFrame::Ping { reply: encode_frame(moonbeam::frame::TYPE_PONG, 3, &[1, 2, 3, 4, 5, 6, 7, 8]) })
    );
}
