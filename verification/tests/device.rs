use moonbeam::device::{
    abs, abs_pen, abs_touch, pen_device_spec, touch_device_spec, AbsSetup, EventKind, Geometry,
};
use moonbeam::input::{
    device_of, pen_report, Axis, Device, DeviceEvent, InputMsg, Key, PenButton, TouchState,
    PEN_SERIAL,
};

fn tablet() -> Geometry {
    Geometry { width: 2960, height: 1848, pressure_max: 4095, slots: 10 }
}

#[test]
fn abs_holds_its_range() {
    assert_eq!(
        abs(Axis::TiltX, -90, 90, 0),
        AbsSetup { axis: Axis::TiltX, minimum: -90, maximum: 90, resolution: 0 }
    );
}

#[test]
fn pen_axes_for_tablet() {
    assert_eq!(
        abs_pen(&tablet()),
        vec![
            AbsSetup { axis: Axis::X, minimum: 0, maximum: 2959, resolution: 12 },
            AbsSetup { axis: Axis::Y, minimum: 0, maximum: 1847, resolution: 12 },
            AbsSetup { axis: Axis::Pressure, minimum: 0, maximum: 4095, resolution: 0 },
            AbsSetup { axis: Axis::TiltX, minimum: -90, maximum: 90, resolution: 0 },
            AbsSetup { axis: Axis::TiltY, minimum: -90, maximum: 90, resolution: 0 },
        ]
    );
}

#[test]
fn touch_axes_for_tablet() {
    assert_eq!(
        abs_touch(&tablet()),
        vec![
            AbsSetup { axis: Axis::X, minimum: 0, maximum: 2959, resolution: 12 },
            AbsSetup { axis: Axis::Y, minimum: 0, maximum: 1847, resolution: 12 },
            AbsSetup { axis: Axis::MtSlot, minimum: 0, maximum: 9, resolution: 0 },
            AbsSetup { axis: Axis::MtTrackingId, minimum: 0, maximum: 65535, resolution: 0 },
            AbsSetup { axis: Axis::MtPositionX, minimum: 0, maximum: 2959, resolution: 12 },
            AbsSetup { axis: Axis::MtPositionY, minimum: 0, maximum: 1847, resolution: 12 },
            AbsSetup { axis: Axis::MtTouchMajor, minimum: 0, maximum: 1024, resolution: 12 },
            AbsSetup { axis: Axis::MtPressure, minimum: 0, maximum: 255, resolution: 0 },
        ]
    );
}

#[test]
fn pen_device_declarations() {
    let s = pen_device_spec(&tablet());
    assert_eq!(s.name, "MoonBeam Pen");
    assert_eq!((s.vendor, s.product, s.version), (0x04e8, 0x4d42, 1));
    assert_eq!(
        s.event_kinds,
        vec![EventKind::Key, EventKind::Absolute, EventKind::Synchronize, EventKind::Misc]
    );
    assert_eq!(s.keys, vec![Key::ToolPen, Key::ToolRubber, Key::Touch, Key::Stylus, Key::Stylus2]);
    assert_eq!(s.axes, abs_pen(&tablet()));
    assert!(s.misc_serial);
    assert!(s.direct);
}

#[test]
fn touch_device_declarations() {
    let s = touch_device_spec(&tablet());
    assert_eq!(s.name, "MoonBeam Touch");
    assert_eq!((s.vendor, s.product, s.version), (0x04e8, 0x4d54, 1));
    assert_eq!(s.event_kinds, vec![EventKind::Key, EventKind::Absolute, EventKind::Synchronize]);
    assert_eq!(
        s.keys,
        vec![
            Key::Touch,
            Key::ToolFinger,
            Key::ToolDoubleTap,
            Key::ToolTripleTap,
            Key::ToolQuadTap,
            Key::ToolQuintTap,
        ]
    );
    assert_eq!(s.axes, abs_touch(&tablet()));
    assert!(!s.misc_serial);
    assert!(s.direct);
    // A touchscreen to udev: slots and direct, but no pen tool.
    assert!(!s.keys.contains(&Key::ToolPen));
}

#[test]
fn reports_stay_within_declarations() {
    let g = tablet();
    let pen = pen_device_spec(&g);
    let touch = touch_device_spec(&g);
    let msgs = [
        InputMsg::PenDown { x: 1, y: 2, pressure: 3, tilt_x: 4, tilt_y: 5 },
        InputMsg::PenMove { x: 1, y: 2, pressure: 3, tilt_x: 4, tilt_y: 5 },
        InputMsg::PenUp,
        InputMsg::PenButton { button: PenButton::Stylus2, state: true },
        InputMsg::TouchDown { slot: 0, id: 1, x: 2, y: 3, major: 4, pressure: 5 },
        InputMsg::TouchMove { slot: 0, x: 2, y: 3, major: 4, pressure: 5 },
        InputMsg::TouchUp { slot: 0 },
    ];
    let mut state = TouchState::new();
    for m in msgs.iter() {
        let (spec, events) = if device_of(m) == Device::Pen {
            (&pen, pen_report(m, PEN_SERIAL))
        } else {
            (&touch, state.report(m))
        };
        for e in events.iter() {
            match *e {
                DeviceEvent::MiscSerial(_) => {
                    assert!(spec.misc_serial && spec.event_kinds.contains(&EventKind::Misc))
                }
                DeviceEvent::Key(k, _) => {
                    assert!(spec.keys.contains(&k) && spec.event_kinds.contains(&EventKind::Key))
                }
                DeviceEvent::Abs(a, _) => assert!(spec.axes.iter().any(|s| s.axis == a)),
                DeviceEvent::SynReport => {
                    assert!(spec.event_kinds.contains(&EventKind::Synchronize))
                }
            }
        }
    }
}

#[test]
fn pen_device_ignores_slot_count() {
    let g = Geometry { width: 2960, height: 1848, pressure_max: 4095, slots: i32::MIN };
    assert!(moonbeam::device::pen_geometry_in_range(&g));
    assert!(!moonbeam::device::geometry_in_range(&g));
    let s = pen_device_spec(&g);
    assert_eq!(s.name, "MoonBeam Pen");
    assert_eq!(s.axes, abs_pen(&tablet()));
}
