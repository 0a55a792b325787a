//! Scripted pen strokes and two-finger pinches written straight to the
//! virtual devices, and the contact ids they use.
use vstd::prelude::*;
use crate::input::{Axis, DeviceEvent, Key, RELEASED_TRACKING_ID};

verus! {

/// First contact id handed out.
pub const FIRST_TRACKING_ID: i32 = 100;

/// Contact size of a scripted finger.
pub const PINCH_MAJOR: i32 = 200;

/// Pressure of a scripted finger.
pub const PINCH_PRESSURE: i32 = 100;

/// The pen comes into proximity: its serial, then the pen tool.
pub open spec fn spec_proximity_in(serial: i32) -> Seq<DeviceEvent> {
    seq![
        DeviceEvent::MiscSerial(serial),
        DeviceEvent::Key(Key::ToolPen, true),
        DeviceEvent::SynReport,
    ]
}

/// The pen leaves proximity.
pub open spec fn spec_proximity_out() -> Seq<DeviceEvent> {
    seq![DeviceEvent::Key(Key::ToolPen, false), DeviceEvent::SynReport]
}

/// The pen comes into proximity: its serial, then the pen tool.
pub fn pen_proximity_in(serial: i32) -> (r: Vec<DeviceEvent>)
    ensures
        r@ == spec_proximity_in(serial),
{
    vec![DeviceEvent::MiscSerial(serial), DeviceEvent::Key(Key::ToolPen, true), DeviceEvent::SynReport]
}

/// The pen leaves proximity.
pub fn pen_proximity_out() -> (r: Vec<DeviceEvent>)
    ensures
        r@ == spec_proximity_out(),
{
    vec![DeviceEvent::Key(Key::ToolPen, false), DeviceEvent::SynReport]
}

/// The tip event of sample `i` of `n`: the tip touches at sample 1 if
/// there is pressure, and lifts at the last sample if there is none.
pub open spec fn spec_stroke_tip(pressure: i32, i: i32, n: i32) -> Seq<DeviceEvent> {
    if i == 1 && pressure > 0 {
        seq![DeviceEvent::Key(Key::Touch, true)]
    } else if i == n && pressure <= 0 {
        seq![DeviceEvent::Key(Key::Touch, false)]
    } else {
        seq![]
    }
}

/// The report of sample `i` of an `n`-sample stroke: position, pressure,
/// upright tilt, and a tip change only at the edges of the stroke.
pub open spec fn spec_stroke_sample(x: i32, y: i32, pressure: i32, i: i32, n: i32) -> Seq<
    DeviceEvent,
> {
    seq![
        DeviceEvent::Abs(Axis::X, x),
        DeviceEvent::Abs(Axis::Y, y),
        DeviceEvent::Abs(Axis::Pressure, pressure),
        DeviceEvent::Abs(Axis::TiltX, 0),
        DeviceEvent::Abs(Axis::TiltY, 0),
    ] + spec_stroke_tip(pressure, i, n) + seq![DeviceEvent::SynReport]
}

/// The report of sample `i` of an `n`-sample stroke at (`x`, `y`).
pub fn pen_stroke_sample(x: i32, y: i32, pressure: i32, i: i32, n: i32) -> (r: Vec<DeviceEvent>)
    ensures
        r@ == spec_stroke_sample(x, y, pressure, i, n),
{
    let mut events = vec![
        DeviceEvent::Abs(Axis::X, x),
        DeviceEvent::Abs(Axis::Y, y),
        DeviceEvent::Abs(Axis::Pressure, pressure),
        DeviceEvent::Abs(Axis::TiltX, 0),
        DeviceEvent::Abs(Axis::TiltY, 0),
    ];
    let touching = pressure > 0;
    if i == 1 && touching {
        events.push(DeviceEvent::Key(Key::Touch, true));
    } else if i == n && !touching {
        events.push(DeviceEvent::Key(Key::Touch, false));
    }
    events.push(DeviceEvent::SynReport);
    proof {
        assert(events@ =~= spec_stroke_sample(x, y, pressure, i, n));
    }
    events
}

/// Hands out contact ids, two per gesture, never the same id twice.
#[derive(Debug, PartialEq, Eq)]
pub struct TrackingIds {
    /// The next id to hand out.
    pub next: i32,
}

impl TrackingIds {
    /// Starts at `FIRST_TRACKING_ID`.
    pub fn new() -> (t: TrackingIds)
        ensures
            t.next == FIRST_TRACKING_ID,
    {
        TrackingIds { next: FIRST_TRACKING_ID }
    }

    /// The two ids of the next gesture.
    pub fn next_pair(&mut self) -> (ids: (i32, i32))
        requires
            old(self).next < i32::MAX - 1,
        ensures
            ids == (old(self).next, (old(self).next + 1) as i32),
            final(self).next == old(self).next + 2,
    {
        let id0 = self.next;
        let id1 = self.next + 1;
        self.next = self.next + 2;
        (id0, id1)
    }
}

/// The pair handed out by the `k`-th call after starting at `start`.
pub open spec fn spec_nth_pair(start: int, k: nat) -> (int, int) {
    (start + 2 * k, start + 2 * k + 1)
}

/// Law: the pairs of two different calls share no id, and when counting
/// starts at a non-negative id no pair holds the released id -1.
pub proof fn lemma_tracking_ids_fresh(start: int, j: nat, k: nat)
    requires
        j != k,
    ensures
        ({
            let (a0, a1) = spec_nth_pair(start, j);
            let (b0, b1) = spec_nth_pair(start, k);
            &&& a0 != a1
            &&& a0 != b0 && a0 != b1 && a1 != b0 && a1 != b1
            &&& start >= 0 ==> a0 != RELEASED_TRACKING_ID && a1 != RELEASED_TRACKING_ID
        }),
{
}

/// Two fingers touch down together in slots 0 and 1 at (`x`, `y`).
pub open spec fn spec_pinch_down(id0: i32, id1: i32, x: i32, y: i32) -> Seq<DeviceEvent> {
    seq![
        DeviceEvent::Abs(Axis::MtSlot, 0),
        DeviceEvent::Abs(Axis::MtTrackingId, id0),
        DeviceEvent::Abs(Axis::MtPositionX, x),
        DeviceEvent::Abs(Axis::MtPositionY, y),
        DeviceEvent::Abs(Axis::MtTouchMajor, PINCH_MAJOR),
        DeviceEvent::Abs(Axis::MtPressure, PINCH_PRESSURE),
        DeviceEvent::Abs(Axis::MtSlot, 1),
        DeviceEvent::Abs(Axis::MtTrackingId, id1),
        DeviceEvent::Abs(Axis::MtPositionX, x),
        DeviceEvent::Abs(Axis::MtPositionY, y),
        DeviceEvent::Abs(Axis::MtTouchMajor, PINCH_MAJOR),
        DeviceEvent::Abs(Axis::MtPressure, PINCH_PRESSURE),
        DeviceEvent::Key(Key::Touch, true),
        DeviceEvent::Key(Key::ToolDoubleTap, true),
        DeviceEvent::Abs(Axis::X, x),
        DeviceEvent::Abs(Axis::Y, y),
        DeviceEvent::SynReport,
    ]
}

/// Two fingers touch down together in slots 0 and 1 at (`x`, `y`), with
/// contact ids `id0` and `id1`; the single-touch axes follow slot 0.
pub fn pinch_down(id0: i32, id1: i32, x: i32, y: i32) -> (r: Vec<DeviceEvent>)
    ensures
        r@ == spec_pinch_down(id0, id1, x, y),
{
    vec![
        DeviceEvent::Abs(Axis::MtSlot, 0),
        DeviceEvent::Abs(Axis::MtTrackingId, id0),
        DeviceEvent::Abs(Axis::MtPositionX, x),
        DeviceEvent::Abs(Axis::MtPositionY, y),
        DeviceEvent::Abs(Axis::MtTouchMajor, PINCH_MAJOR),
        DeviceEvent::Abs(Axis::MtPressure, PINCH_PRESSURE),
        DeviceEvent::Abs(Axis::MtSlot, 1),
        DeviceEvent::Abs(Axis::MtTrackingId, id1),
        DeviceEvent::Abs(Axis::MtPositionX, x),
        DeviceEvent::Abs(Axis::MtPositionY, y),
        DeviceEvent::Abs(Axis::MtTouchMajor, PINCH_MAJOR),
        DeviceEvent::Abs(Axis::MtPressure, PINCH_PRESSURE),
        DeviceEvent::Key(Key::Touch, true),
        DeviceEvent::Key(Key::ToolDoubleTap, true),
        DeviceEvent::Abs(Axis::X, x),
        DeviceEvent::Abs(Axis::Y, y),
        DeviceEvent::SynReport,
    ]
}

/// The fingers in slots 0 and 1 move to `x0` and `x1`.
pub open spec fn spec_pinch_move(x0: i32, x1: i32) -> Seq<DeviceEvent> {
    seq![
        DeviceEvent::Abs(Axis::MtSlot, 0),
        DeviceEvent::Abs(Axis::MtPositionX, x0),
        DeviceEvent::Abs(Axis::MtSlot, 1),
        DeviceEvent::Abs(Axis::MtPositionX, x1),
        DeviceEvent::Abs(Axis::X, x0),
        DeviceEvent::SynReport,
    ]
}

/// The fingers in slots 0 and 1 move horizontally to `x0` and `x1`; the
/// single-touch axis follows slot 0.
pub fn pinch_move(x0: i32, x1: i32) -> (r: Vec<DeviceEvent>)
    ensures
        r@ == spec_pinch_move(x0, x1),
{
    vec![
        DeviceEvent::Abs(Axis::MtSlot, 0),
        DeviceEvent::Abs(Axis::MtPositionX, x0),
        DeviceEvent::Abs(Axis::MtSlot, 1),
        DeviceEvent::Abs(Axis::MtPositionX, x1),
        DeviceEvent::Abs(Axis::X, x0),
        DeviceEvent::SynReport,
    ]
}

/// Both fingers lift.
pub open spec fn spec_pinch_release() -> Seq<DeviceEvent> {
    seq![
        DeviceEvent::Abs(Axis::MtSlot, 0),
        DeviceEvent::Abs(Axis::MtTrackingId, RELEASED_TRACKING_ID),
        DeviceEvent::Abs(Axis::MtSlot, 1),
        DeviceEvent::Abs(Axis::MtTrackingId, RELEASED_TRACKING_ID),
        DeviceEvent::Key(Key::Touch, false),
        DeviceEvent::Key(Key::ToolDoubleTap, false),
        DeviceEvent::SynReport,
    ]
}

/// Both fingers lift: each slot's contact id becomes -1.
pub fn pinch_release() -> (r: Vec<DeviceEvent>)
    ensures
        r@ == spec_pinch_release(),
{
    vec![
        DeviceEvent::Abs(Axis::MtSlot, 0),
        DeviceEvent::Abs(Axis::MtTrackingId, RELEASED_TRACKING_ID),
        DeviceEvent::Abs(Axis::MtSlot, 1),
        DeviceEvent::Abs(Axis::MtTrackingId, RELEASED_TRACKING_ID),
        DeviceEvent::Key(Key::Touch, false),
        DeviceEvent::Key(Key::ToolDoubleTap, false),
        DeviceEvent::SynReport,
    ]
}

/// Integer division rounding toward zero, as `/` does on `i32`.
pub open spec fn spec_div_toward_zero(a: int, b: int) -> int {
    if a >= 0 {
        a / b
    } else {
        -((-a) / b)
    }
}

/// Where the scripted gestures happen in a coordinate space.
#[derive(Clone, Copy, Debug, PartialEq, Eq, Structural)]
pub struct GesturePlan {
    /// Horizontal centre: taps and pinches start here.
    pub center_x: i32,
    /// Vertical centre: every gesture runs along this line.
    pub center_y: i32,
    /// Where the left finger of a pinch ends, a quarter of the width in.
    pub left_end: i32,
    /// Where the right finger of a pinch ends, a quarter of the width from
    /// the right.
    pub right_end: i32,
}

/// Lays the scripted gestures out over a `width` by `height` space.
pub fn gesture_plan(width: i32, height: i32) -> (p: GesturePlan)
    ensures
        p.center_x == spec_div_toward_zero(width as int, 2),
        p.center_y == spec_div_toward_zero(height as int, 2),
        p.left_end == spec_div_toward_zero(width as int, 4),
        p.right_end == width - p.left_end,
        width >= 0 ==> 2 * p.center_x <= width < 2 * p.center_x + 2,
        height >= 0 ==> 2 * p.center_y <= height < 2 * p.center_y + 2,
        width >= 0 ==> 4 * p.left_end <= width < 4 * p.left_end + 4,
        width < 0 ==> width <= 2 * p.center_x <= width + 1,
        height < 0 ==> height <= 2 * p.center_y <= height + 1,
        width < 0 ==> width <= 4 * p.left_end <= width + 3,
{
    let left_end = width / 4;
    GesturePlan { center_x: width / 2, center_y: height / 2, left_end, right_end: width - left_end }
}

} // verus!
