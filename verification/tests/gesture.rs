use moonbeam::gesture::{
    gesture_plan, pen_proximity_in, pen_proximity_out, pen_stroke_sample, pinch_down, pinch_move,
    pinch_release, GesturePlan, TrackingIds,
};
use moonbeam::input::{Axis, DeviceEvent, Key};

#[test]
fn plan_for_tablet() {
    assert_eq!(
        gesture_plan(2960, 1848),
        GesturePlan { center_x: 1480, center_y: 924, left_end: 740, right_end: 2220 }
    );
    assert_eq!(
        gesture_plan(-7, -3),
        GesturePlan { center_x: -3, center_y: -1, left_end: -1, right_end: -6 }
    );
}

#[test]
fn proximity_reports() {
    assert_eq!(
        pen_proximity_in(0xC0FFEE),
        vec![
            DeviceEvent::MiscSerial(0xC0FFEE),
            DeviceEvent::Key(Key::ToolPen, true),
            DeviceEvent::SynReport
        ]
    );
    assert_eq!(
        pen_proximity_out(),
        vec![DeviceEvent::Key(Key::ToolPen, false), DeviceEvent::SynReport]
    );
}

#[test]
fn stroke_tip_changes_only_at_edges() {
    let base = |p| {
        vec![
            DeviceEvent::Abs(Axis::X, 5),
            DeviceEvent::Abs(Axis::Y, 6),
            DeviceEvent::Abs(Axis::Pressure, p),
            DeviceEvent::Abs(Axis::TiltX, 0),
            DeviceEvent::Abs(Axis::TiltY, 0),
        ]
    };
    let mut first = base(136);
    first.push(DeviceEvent::Key(Key::Touch, true));
    first.push(DeviceEvent::SynReport);
    assert_eq!(pen_stroke_sample(5, 6, 136, 1, 60), first);

    let mut last = base(0);
    last.push(DeviceEvent::Key(Key::Touch, false));
    last.push(DeviceEvent::SynReport);
    assert_eq!(pen_stroke_sample(5, 6, 0, 60, 60), last);

    let mut middle = base(2000);
    middle.push(DeviceEvent::SynReport);
    assert_eq!(pen_stroke_sample(5, 6, 2000, 30, 60), middle);

    let mut zero_start = base(0);
    zero_start.push(DeviceEvent::SynReport);
    assert_eq!(pen_stroke_sample(5, 6, 0, 0, 60), zero_start);
}

#[test]
fn tracking_ids_are_never_reused() {
    let mut ids = TrackingIds::new();
    assert_eq!(ids.next_pair(), (100, 101));
    assert_eq!(ids.next_pair(), (102, 103));
    assert_eq!(ids.next_pair(), (104, 105));
    assert_eq!(ids.next, 106);
}

#[test]
fn pinch_reports() {
    let down = pinch_down(100, 101, 1480, 924);
    assert_eq!(down.len(), 17);
    assert_eq!(down[0], DeviceEvent::Abs(Axis::MtSlot, 0));
    assert_eq!(down[1], DeviceEvent::Abs(Axis::MtTrackingId, 100));
    assert_eq!(down[6], DeviceEvent::Abs(Axis::MtSlot, 1));
    assert_eq!(down[7], DeviceEvent::Abs(Axis::MtTrackingId, 101));
    assert_eq!(down[13], DeviceEvent::Key(Key::ToolDoubleTap, true));
    assert_eq!(down[16], DeviceEvent::SynReport);
    assert_eq!(
        pinch_move(1000, 2000),
        vec![
            DeviceEvent::Abs(Axis::MtSlot, 0),
            DeviceEvent::Abs(Axis::MtPositionX, 1000),
            DeviceEvent::Abs(Axis::MtSlot, 1),
            DeviceEvent::Abs(Axis::MtPositionX, 2000),
            DeviceEvent::Abs(Axis::X, 1000),
            DeviceEvent::SynReport,
        ]
    );
    assert_eq!(
        pinch_release(),
        vec![
            DeviceEvent::Abs(Axis::MtSlot, 0),
            DeviceEvent::Abs(Axis::MtTrackingId, -1),
            DeviceEvent::Abs(Axis::MtSlot, 1),
            DeviceEvent::Abs(Axis::MtTrackingId, -1),
            DeviceEvent::Key(Key::Touch, false),
            DeviceEvent::Key(Key::ToolDoubleTap, false),
            DeviceEvent::SynReport,
        ]
    );
}
