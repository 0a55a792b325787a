use moonbeam::input::{
    count_key, default_major, default_pressure, device_of, pen_report, Axis, Device, DeviceEvent,
    InputMsg, Key, PenButton, TouchState, PEN_SERIAL,
};

#[test]
fn defaults_match_protocol() {
    assert_eq!(default_major(), 200);
    assert_eq!(default_pressure(), 100);
    assert_eq!(PEN_SERIAL, 0xC0FFEE);
}

#[test]
fn messages_go_to_their_device() {
    assert_eq!(device_of(&InputMsg::PenUp), Device::Pen);
    assert_eq!(device_of(&InputMsg::PenButton { button: PenButton::Stylus, state: true }), Device::Pen);
    assert_eq!(device_of(&InputMsg::TouchUp { slot: 0 }), Device::Touch);
    assert_eq!(
        device_of(&InputMsg::TouchMove { slot: 0, x: 1, y: 2, major: 3, pressure: 4 }),
        Device::Touch
    );
}

#[test]
fn pen_down_report() {
    let r = pen_report(
        &InputMsg::PenDown { x: 1480, y: 924, pressure: 2048, tilt_x: -3, tilt_y: 1 },
        PEN_SERIAL,
    );
    assert_eq!(
        r,
        vec![
            DeviceEvent::MiscSerial(0xC0FFEE),
            DeviceEvent::Key(Key::ToolPen, true),
            DeviceEvent::Abs(Axis::X, 1480),
            DeviceEvent::Abs(Axis::Y, 924),
            DeviceEvent::Abs(Axis::Pressure, 2048),
            DeviceEvent::Abs(Axis::TiltX, -3),
            DeviceEvent::Abs(Axis::TiltY, 1),
            DeviceEvent::Key(Key::Touch, true),
            DeviceEvent::SynReport,
        ]
    );
}

#[test]
fn pen_move_report() {
    let r = pen_report(
        &InputMsg::PenMove { x: 147, y: 924, pressure: 409, tilt_x: 0, tilt_y: 0 },
        PEN_SERIAL,
    );
    assert_eq!(
        r,
        vec![
            DeviceEvent::Abs(Axis::X, 147),
            DeviceEvent::Abs(Axis::Y, 924),
            DeviceEvent::Abs(Axis::Pressure, 409),
            DeviceEvent::Abs(Axis::TiltX, 0),
            DeviceEvent::Abs(Axis::TiltY, 0),
            DeviceEvent::SynReport,
        ]
    );
}

#[test]
fn pen_up_report_releases_and_zeroes_pressure() {
    assert_eq!(
        pen_report(&InputMsg::PenUp, PEN_SERIAL),
        vec![
            DeviceEvent::Key(Key::Touch, false),
            DeviceEvent::Abs(Axis::Pressure, 0),
            DeviceEvent::Key(Key::ToolPen, false),
            DeviceEvent::SynReport,
        ]
    );
}

#[test]
fn pen_button_reports() {
    let r = pen_report(&InputMsg::PenButton { button: PenButton::Stylus, state: true }, 1);
    assert_eq!(r, vec![DeviceEvent::Key(Key::Stylus, true), DeviceEvent::SynReport]);
    let r = pen_report(&InputMsg::PenButton { button: PenButton::Stylus2, state: false }, 1);
    assert_eq!(r, vec![DeviceEvent::Key(Key::Stylus2, false), DeviceEvent::SynReport]);
}

#[test]
fn count_keys() {
    assert_eq!(count_key(0), None);
    assert_eq!(count_key(1), Some(Key::ToolFinger));
    assert_eq!(count_key(2), Some(Key::ToolDoubleTap));
    assert_eq!(count_key(3), Some(Key::ToolTripleTap));
    assert_eq!(count_key(4), Some(Key::ToolQuadTap));
    assert_eq!(count_key(5), Some(Key::ToolQuintTap));
    assert_eq!(count_key(10), Some(Key::ToolQuintTap));
}

#[test]
fn first_touch_down_report() {
    let mut t = TouchState::new();
    let r = t.report(&InputMsg::TouchDown {
        slot: 0,
        id: 1001,
        x: 1480,
        y: 924,
        major: default_major(),
        pressure: default_pressure(),
    });
    assert_eq!(
        r,
        vec![
            DeviceEvent::Abs(Axis::MtSlot, 0),
            DeviceEvent::Abs(Axis::MtTrackingId, 1001),
            DeviceEvent::Abs(Axis::MtPositionX, 1480),
            DeviceEvent::Abs(Axis::MtPositionY, 924),
            DeviceEvent::Abs(Axis::MtTouchMajor, 200),
            DeviceEvent::Abs(Axis::MtPressure, 100),
            DeviceEvent::Key(Key::Touch, true),
            DeviceEvent::Key(Key::ToolFinger, true),
            DeviceEvent::Abs(Axis::X, 1480),
            DeviceEvent::Abs(Axis::Y, 924),
            DeviceEvent::SynReport,
        ]
    );
    assert_eq!(t.active_count(), 1);
    assert!(t.slot_active(0));
    assert!(!t.slot_active(1));
}

#[test]
fn second_touch_down_changes_only_count_key() {
    let mut t = TouchState::new();
    t.report(&InputMsg::TouchDown { slot: 0, id: 1, x: 10, y: 10, major: 200, pressure: 100 });
    let r = t.report(&InputMsg::TouchDown { slot: 1, id: 2, x: 20, y: 20, major: 200, pressure: 100 });
    assert_eq!(
        r,
        vec![
            DeviceEvent::Abs(Axis::MtSlot, 1),
            DeviceEvent::Abs(Axis::MtTrackingId, 2),
            DeviceEvent::Abs(Axis::MtPositionX, 20),
            DeviceEvent::Abs(Axis::MtPositionY, 20),
            DeviceEvent::Abs(Axis::MtTouchMajor, 200),
            DeviceEvent::Abs(Axis::MtPressure, 100),
            DeviceEvent::Key(Key::ToolFinger, false),
            DeviceEvent::Key(Key::ToolDoubleTap, true),
            DeviceEvent::Abs(Axis::X, 20),
            DeviceEvent::Abs(Axis::Y, 20),
            DeviceEvent::SynReport,
        ]
    );
    assert_eq!(t.active_count(), 2);
}

#[test]
fn touch_up_keeps_btn_touch_while_a_contact_remains() {
    let mut t = TouchState::new();
    t.report(&InputMsg::TouchDown { slot: 0, id: 1, x: 10, y: 10, major: 200, pressure: 100 });
    t.report(&InputMsg::TouchDown { slot: 1, id: 2, x: 20, y: 20, major: 200, pressure: 100 });
    let r = t.report(&InputMsg::TouchUp { slot: 0 });
    assert_eq!(
        r,
        vec![
            DeviceEvent::Abs(Axis::MtSlot, 0),
            DeviceEvent::Abs(Axis::MtTrackingId, -1),
            DeviceEvent::Key(Key::ToolDoubleTap, false),
            DeviceEvent::Key(Key::ToolFinger, true),
            DeviceEvent::SynReport,
        ]
    );
    assert!(!r.contains(&DeviceEvent::Key(Key::Touch, false)));
    let r = t.report(&InputMsg::TouchUp { slot: 1 });
    assert_eq!(
        r,
        vec![
            DeviceEvent::Abs(Axis::MtSlot, 1),
            DeviceEvent::Abs(Axis::MtTrackingId, -1),
            DeviceEvent::Key(Key::Touch, false),
            DeviceEvent::Key(Key::ToolFinger, false),
            DeviceEvent::SynReport,
        ]
    );
    assert_eq!(t.active_count(), 0);
}

#[test]
fn touch_move_report() {
    let mut t = TouchState::new();
    let r = t.report(&InputMsg::TouchMove { slot: 1, x: 1481, y: 924, major: 15, pressure: 85 });
    assert_eq!(
        r,
        vec![
            DeviceEvent::Abs(Axis::MtSlot, 1),
            DeviceEvent::Abs(Axis::MtPositionX, 1481),
            DeviceEvent::Abs(Axis::MtPositionY, 924),
            DeviceEvent::Abs(Axis::MtTouchMajor, 15),
            DeviceEvent::Abs(Axis::MtPressure, 85),
            DeviceEvent::Abs(Axis::X, 1481),
            DeviceEvent::Abs(Axis::Y, 924),
            DeviceEvent::SynReport,
        ]
    );
    assert_eq!(t.active_count(), 0);
}

#[test]
fn repeated_down_and_stray_up_change_no_key() {
    let mut t = TouchState::new();
    t.report(&InputMsg::TouchDown { slot: 3, id: 1, x: 1, y: 1, major: 1, pressure: 1 });
    let r = t.report(&InputMsg::TouchDown { slot: 3, id: 2, x: 2, y: 2, major: 1, pressure: 1 });
    assert!(r.iter().all(|e| !matches!(e, DeviceEvent::Key(..))));
    assert_eq!(t.active_count(), 1);
    let r = t.report(&InputMsg::TouchUp { slot: 7 });
    assert_eq!(
        r,
        vec![DeviceEvent::Abs(Axis::MtSlot, 7), DeviceEvent::Abs(Axis::MtTrackingId, -1), DeviceEvent::SynReport]
    );
    assert_eq!(t.active_count(), 1);
}

#[test]
fn six_fingers_hold_quint_tap() {
    let mut t = TouchState::new();
    for s in 0..6 {
        t.report(&InputMsg::TouchDown { slot: s, id: s, x: 0, y: 0, major: 1, pressure: 1 });
    }
    assert_eq!(t.active_count(), 6);
    let r = t.report(&InputMsg::TouchUp { slot: 0 });
    assert!(r.iter().all(|e| !matches!(e, DeviceEvent::Key(..))));
    let r = t.report(&InputMsg::TouchUp { slot: 1 });
    assert_eq!(
        r,
        vec![
            DeviceEvent::Abs(Axis::MtSlot, 1),
            DeviceEvent::Abs(Axis::MtTrackingId, -1),
            DeviceEvent::Key(Key::ToolQuintTap, false),
            DeviceEvent::Key(Key::ToolQuadTap, true),
            DeviceEvent::SynReport,
        ]
    );
}

#[test]
fn every_report_ends_with_its_only_sync() {
    let pens = [
        InputMsg::PenDown { x: 1, y: 2, pressure: 3, tilt_x: 4, tilt_y: 5 },
        InputMsg::PenMove { x: 1, y: 2, pressure: 3, tilt_x: 4, tilt_y: 5 },
        InputMsg::PenUp,
        InputMsg::PenButton { button: PenButton::Stylus, state: true },
    ];
    let touches = [
        InputMsg::TouchDown { slot: 0, id: 1, x: 2, y: 3, major: 4, pressure: 5 },
        InputMsg::TouchMove { slot: 0, x: 2, y: 3, major: 4, pressure: 5 },
        InputMsg::TouchUp { slot: 0 },
    ];
    let mut reports: Vec<Vec<DeviceEvent>> = pens.iter().map(|m| pen_report(m, PEN_SERIAL)).collect();
    let mut t = TouchState::new();
    reports.extend(touches.iter().map(|m| t.report(m)));
    for r in reports {
        assert_eq!(r.last(), Some(&DeviceEvent::SynReport));
        assert_eq!(r.iter().filter(|e| **e == DeviceEvent::SynReport).count(), 1);
    }
}
