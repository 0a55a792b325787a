//! What a device makes of the reports written to it: which events it
//! accepts, the state of its keys, and the contact in each multitouch
//! slot; and the laws that tie the reports to the device declarations.
use vstd::prelude::*;
use crate::input::{
    spec_button_key, spec_count_key, spec_device, spec_key_changes, spec_msg_slot, spec_report,
    spec_touch_edge, spec_count_changes, Axis, Device, DeviceEvent, InputMsg, Key, PenButton,
};
use crate::gesture::{
    spec_pinch_down, spec_pinch_move, spec_pinch_release, spec_proximity_in, spec_proximity_out,
    spec_stroke_sample,
};
use crate::input::RELEASED_TRACKING_ID;
use crate::device::{
    geometry_ok, pen_geometry_ok, spec_abs_pen, spec_abs_touch, spec_pen_caps, spec_touch_caps,
    AbsSetup, DeviceCaps, EventKind, Geometry,
};

verus! {

/// The declarations of the device a message is written to.
pub open spec fn spec_caps(d: Device, g: Geometry) -> DeviceCaps {
    match d {
        Device::Pen => spec_pen_caps(g),
        Device::Touch => spec_touch_caps(g),
    }
}

/// Whether an axis is among the declared ones.
pub open spec fn declares_axis(axes: Seq<AbsSetup>, a: Axis) -> bool {
    exists|i: int| 0 <= i < axes.len() && #[trigger] axes[i].axis == a
}

/// Whether `axes` declares axis `a`, and every declaration of it has this
/// minimum, maximum and resolution.
pub open spec fn declares_range(axes: Seq<AbsSetup>, a: Axis, minimum: int, maximum: int, resolution: int) -> bool {
    &&& declares_axis(axes, a)
    &&& forall|i: int|
        0 <= i < axes.len() && #[trigger] axes[i].axis == a ==> axes[i].minimum == minimum
            && axes[i].maximum == maximum && axes[i].resolution == resolution
}

/// Whether a device with these declarations accepts the event.
pub open spec fn supports(caps: DeviceCaps, ev: DeviceEvent) -> bool {
    match ev {
        DeviceEvent::MiscSerial(_) => caps.misc_serial && caps.event_kinds.contains(EventKind::Misc),
        DeviceEvent::Key(k, _) => caps.event_kinds.contains(EventKind::Key) && caps.keys.contains(k),
        DeviceEvent::Abs(a, _) => caps.event_kinds.contains(EventKind::Absolute) && declares_axis(
            caps.axes,
            a,
        ),
        DeviceEvent::SynReport => caps.event_kinds.contains(EventKind::Synchronize),
    }
}

/// Whether the key is held after the first `n` events, starting from
/// `initial`: the last event for that key decides.
pub open spec fn key_state_upto(events: Seq<DeviceEvent>, n: nat, key: Key, initial: bool) -> bool
    decreases n,
{
    if n == 0 {
        initial
    } else {
        match events[n - 1] {
            DeviceEvent::Key(k, pressed) if k == key => pressed,
            _ => key_state_upto(events, (n - 1) as nat, key, initial),
        }
    }
}

/// Whether the key is held after all the events, starting from `initial`.
pub open spec fn key_state(events: Seq<DeviceEvent>, key: Key, initial: bool) -> bool {
    key_state_upto(events, events.len(), key, initial)
}

/// The slot selected after the first `n` events, starting from `initial`.
pub open spec fn mt_slot_upto(events: Seq<DeviceEvent>, n: nat, initial: int) -> int
    decreases n,
{
    if n == 0 {
        initial
    } else {
        match events[n - 1] {
            DeviceEvent::Abs(Axis::MtSlot, s) => s as int,
            _ => mt_slot_upto(events, (n - 1) as nat, initial),
        }
    }
}

/// The slot selected after all the events, starting from `initial`.
pub open spec fn mt_slot(events: Seq<DeviceEvent>, initial: int) -> int {
    mt_slot_upto(events, events.len(), initial)
}

/// The contact id held by `slot` after the first `n` events, starting with
/// slot `initial_slot` selected and `initial_id` held by `slot`: a tracking
/// id goes to the slot selected when it is written.
pub open spec fn mt_tracking_id_upto(
    events: Seq<DeviceEvent>,
    n: nat,
    slot: int,
    initial_slot: int,
    initial_id: int,
) -> int
    decreases n,
{
    if n == 0 {
        initial_id
    } else {
        match events[n - 1] {
            DeviceEvent::Abs(Axis::MtTrackingId, v) if mt_slot_upto(
                events,
                (n - 1) as nat,
                initial_slot,
            ) == slot => v as int,
            _ => mt_tracking_id_upto(events, (n - 1) as nat, slot, initial_slot, initial_id),
        }
    }
}

/// The contact id held by `slot` after all the events.
pub open spec fn mt_tracking_id(
    events: Seq<DeviceEvent>,
    slot: int,
    initial_slot: int,
    initial_id: int,
) -> int {
    mt_tracking_id_upto(events, events.len(), slot, initial_slot, initial_id)
}

/// The value of a per-contact axis held by `slot` after the first `n`
/// events, starting with slot `initial_slot` selected and `initial` held by
/// `slot`: a value goes to the slot selected when it is written.
pub open spec fn mt_value_upto(
    events: Seq<DeviceEvent>,
    n: nat,
    slot: int,
    axis: Axis,
    initial_slot: int,
    initial: int,
) -> int
    decreases n,
{
    if n == 0 {
        initial
    } else {
        match events[n - 1] {
            DeviceEvent::Abs(a, v) if a == axis && mt_slot_upto(events, (n - 1) as nat, initial_slot)
                == slot => v as int,
            _ => mt_value_upto(events, (n - 1) as nat, slot, axis, initial_slot, initial),
        }
    }
}

/// The value of a per-contact axis held by `slot` after all the events.
pub open spec fn mt_value(
    events: Seq<DeviceEvent>,
    slot: int,
    axis: Axis,
    initial_slot: int,
    initial: int,
) -> int {
    mt_value_upto(events, events.len(), slot, axis, initial_slot, initial)
}

/// The last value written to an axis among the first `n` events, or
/// `initial`.
pub open spec fn axis_value_upto(events: Seq<DeviceEvent>, n: nat, axis: Axis, initial: int) -> int
    decreases n,
{
    if n == 0 {
        initial
    } else {
        match events[n - 1] {
            DeviceEvent::Abs(a, v) if a == axis => v as int,
            _ => axis_value_upto(events, (n - 1) as nat, axis, initial),
        }
    }
}

/// The last value written to an axis, or `initial`.
pub open spec fn axis_value(events: Seq<DeviceEvent>, axis: Axis, initial: int) -> int {
    axis_value_upto(events, events.len(), axis, initial)
}

/// A report ends with its only synchronisation marker.
pub open spec fn is_complete_report(events: Seq<DeviceEvent>) -> bool {
    &&& events.len() > 0
    &&& events.last() == DeviceEvent::SynReport
    &&& forall|i: int| 0 <= i < events.len() - 1 ==> events[i] != DeviceEvent::SynReport
}

/// Whether a key is one of the contact-count keys.
pub open spec fn is_count_key(k: Key) -> bool {
    k == Key::ToolFinger || k == Key::ToolDoubleTap || k == Key::ToolTripleTap || k
        == Key::ToolQuadTap || k == Key::ToolQuintTap
}

/// Whether an event is `BTN_TOUCH` or a contact-count key.
pub open spec fn is_touch_key_event(e: DeviceEvent) -> bool {
    match e {
        DeviceEvent::Key(k, _) => k == Key::Touch || is_count_key(k),
        _ => false,
    }
}

/// The key events of a contact change are only `BTN_TOUCH` and
/// contact-count keys, at most three of them.
pub proof fn lemma_key_changes_shape(before: nat, after: nat)
    ensures
        spec_key_changes(before, after).len() <= 3,
        forall|i: int|
            0 <= i < spec_key_changes(before, after).len() ==> is_touch_key_event(
                #[trigger] spec_key_changes(before, after)[i],
            ),
{
    let e = spec_touch_edge(before, after);
    let c = spec_count_changes(before, after);
    assert(forall|i: int| 0 <= i < e.len() ==> is_touch_key_event(#[trigger] e[i]));
    if spec_count_key(before) != spec_count_key(after) {
        let rel = match spec_count_key(before) {
            Some(k) => seq![DeviceEvent::Key(k, false)],
            None => Seq::<DeviceEvent>::empty(),
        };
        let press = match spec_count_key(after) {
            Some(k) => seq![DeviceEvent::Key(k, true)],
            None => Seq::<DeviceEvent>::empty(),
        };
        assert(c == rel + press);
        assert(forall|i: int| 0 <= i < rel.len() ==> is_touch_key_event(#[trigger] rel[i]));
        assert(forall|i: int| 0 <= i < press.len() ==> is_touch_key_event(#[trigger] press[i]));
        assert(forall|i: int| 0 <= i < c.len() ==> is_touch_key_event(#[trigger] c[i]));
    }
    assert(forall|i: int| 0 <= i < (e + c).len() ==> is_touch_key_event(#[trigger] (e + c)[i]));
}

/// Law: every message becomes one complete report, ending with
/// `SYN_REPORT` and holding no other, whatever the contacts before and
/// after it.
pub proof fn lemma_report_complete(msg: InputMsg, serial: i32, before: nat, after: nat)
    ensures
        is_complete_report(spec_report(msg, serial, before, after)),
{
    lemma_key_changes_shape(before, after);
    let r = spec_report(msg, serial, before, after);
    let kc = spec_key_changes(before, after);
    assert forall|i: int| 0 <= i < r.len() - 1 implies r[i] != DeviceEvent::SynReport by {
        match msg {
            InputMsg::TouchDown { .. } => {
                if 6 <= i < 6 + kc.len() {
                    assert(r[i] == kc[i - 6]);
                    assert(is_touch_key_event(kc[i - 6]));
                }
            },
            InputMsg::TouchUp { .. } => {
                if 2 <= i < 2 + kc.len() {
                    assert(r[i] == kc[i - 2]);
                    assert(is_touch_key_event(kc[i - 2]));
                }
            },
            _ => {},
        }
    }
}

/// Law: every event of every report is declared by the device the report
/// is written to, so no accepted message reaches the kernel as an event
/// the device was not created for.
pub proof fn lemma_report_within_capabilities(
    msg: InputMsg,
    serial: i32,
    before: nat,
    after: nat,
    g: Geometry,
)
    ensures
        forall|i: int|
            0 <= i < spec_report(msg, serial, before, after).len() ==> supports(
                spec_caps(spec_device(msg), g),
                #[trigger] spec_report(msg, serial, before, after)[i],
            ),
{
    let caps = spec_caps(spec_device(msg), g);
    let r = spec_report(msg, serial, before, after);
    let kc = spec_key_changes(before, after);
    lemma_key_changes_shape(before, after);
    assert(caps.event_kinds[0] == EventKind::Key);
    assert(caps.event_kinds[1] == EventKind::Absolute);
    assert(caps.event_kinds[2] == EventKind::Synchronize);
    assert forall|i: int| 0 <= i < r.len() implies supports(caps, #[trigger] r[i]) by {
        match spec_device(msg) {
            Device::Pen => {
                assert(caps.event_kinds[3] == EventKind::Misc);
                assert(caps.keys[0] == Key::ToolPen);
                assert(caps.keys[2] == Key::Touch);
                assert(caps.keys[3] == Key::Stylus);
                assert(caps.keys[4] == Key::Stylus2);
                assert(caps.axes[0].axis == Axis::X);
                assert(caps.axes[1].axis == Axis::Y);
                assert(caps.axes[2].axis == Axis::Pressure);
                assert(caps.axes[3].axis == Axis::TiltX);
                assert(caps.axes[4].axis == Axis::TiltY);
            },
            Device::Touch => {
                assert(caps.keys[0] == Key::Touch);
                assert(caps.keys[1] == Key::ToolFinger);
                assert(caps.keys[2] == Key::ToolDoubleTap);
                assert(caps.keys[3] == Key::ToolTripleTap);
                assert(caps.keys[4] == Key::ToolQuadTap);
                assert(caps.keys[5] == Key::ToolQuintTap);
                assert(caps.axes[0].axis == Axis::X);
                assert(caps.axes[1].axis == Axis::Y);
                assert(caps.axes[2].axis == Axis::MtSlot);
                assert(caps.axes[3].axis == Axis::MtTrackingId);
                assert(caps.axes[4].axis == Axis::MtPositionX);
                assert(caps.axes[5].axis == Axis::MtPositionY);
                assert(caps.axes[6].axis == Axis::MtTouchMajor);
                assert(caps.axes[7].axis == Axis::MtPressure);
                match msg {
                    InputMsg::TouchDown { .. } => {
                        if 6 <= i < 6 + kc.len() {
                            assert(r[i] == kc[i - 6]);
                            assert(is_touch_key_event(kc[i - 6]));
                        }
                    },
                    InputMsg::TouchUp { .. } => {
                        if 2 <= i < 2 + kc.len() {
                            assert(r[i] == kc[i - 2]);
                            assert(is_touch_key_event(kc[i - 2]));
                        }
                    },
                    _ => {},
                }
            },
        }
    }
}

/// Events appended after a prefix see the key state the prefix left.
pub proof fn lemma_key_state_append(a: Seq<DeviceEvent>, b: Seq<DeviceEvent>, key: Key, initial: bool)
    ensures
        key_state(a + b, key, initial) == key_state(b, key, key_state(a, key, initial)),
{
    lemma_key_state_append_upto(a, b, b.len(), key, initial);
}

proof fn lemma_key_state_prefix(a: Seq<DeviceEvent>, b: Seq<DeviceEvent>, n: nat, key: Key, initial: bool)
    requires
        n <= a.len(),
    ensures
        key_state_upto(a + b, n, key, initial) == key_state_upto(a, n, key, initial),
    decreases n,
{
    if n > 0 {
        assert((a + b)[n - 1] == a[n - 1]);
        lemma_key_state_prefix(a, b, (n - 1) as nat, key, initial);
    }
}

proof fn lemma_key_state_append_upto(
    a: Seq<DeviceEvent>,
    b: Seq<DeviceEvent>,
    n: nat,
    key: Key,
    initial: bool,
)
    requires
        n <= b.len(),
    ensures
        key_state_upto(a + b, a.len() + n, key, initial) == key_state_upto(
            b,
            n,
            key,
            key_state(a, key, initial),
        ),
    decreases n,
{
    if n == 0 {
        lemma_key_state_prefix(a, b, a.len(), key, initial);
    } else {
        assert((a + b)[a.len() + n - 1] == b[n - 1]);
        lemma_key_state_append_upto(a, b, (n - 1) as nat, key, initial);
    }
}

/// Law: a pen-down report brings the pen into proximity with its tip on
/// the glass, whatever was held before.
pub proof fn lemma_pen_down_presses(x: i32, y: i32, pressure: i32, tilt_x: i32, tilt_y: i32, serial: i32, initial: bool)
    ensures
        key_state(spec_report(InputMsg::PenDown { x, y, pressure, tilt_x, tilt_y }, serial, 0, 0), Key::ToolPen, initial),
        key_state(spec_report(InputMsg::PenDown { x, y, pressure, tilt_x, tilt_y }, serial, 0, 0), Key::Touch, initial),
{
    reveal_with_fuel(key_state_upto, 10);
}

/// The serial number reported by the last `MSC_SERIAL` event among the
/// first `n` events, or `initial`.
pub open spec fn serial_value_upto(events: Seq<DeviceEvent>, n: nat, initial: int) -> int
    decreases n,
{
    if n == 0 {
        initial
    } else {
        match events[n - 1] {
            DeviceEvent::MiscSerial(v) => v as int,
            _ => serial_value_upto(events, (n - 1) as nat, initial),
        }
    }
}

/// The serial number reported last, or `initial`.
pub open spec fn serial_value(events: Seq<DeviceEvent>, initial: int) -> int {
    serial_value_upto(events, events.len(), initial)
}

/// Law: a pen-down report names the pen by its serial and sets position,
/// pressure and each tilt axis to the message's own value.
pub proof fn lemma_pen_down_values(
    x: i32,
    y: i32,
    pressure: i32,
    tilt_x: i32,
    tilt_y: i32,
    serial: i32,
    initial_serial: int,
    initial_value: int,
)
    ensures
        ({
            let r = spec_report(InputMsg::PenDown { x, y, pressure, tilt_x, tilt_y }, serial, 0, 0);
            &&& serial_value(r, initial_serial) == serial
            &&& axis_value(r, Axis::X, initial_value) == x
            &&& axis_value(r, Axis::Y, initial_value) == y
            &&& axis_value(r, Axis::Pressure, initial_value) == pressure
            &&& axis_value(r, Axis::TiltX, initial_value) == tilt_x
            &&& axis_value(r, Axis::TiltY, initial_value) == tilt_y
        }),
{
    reveal_with_fuel(serial_value_upto, 10);
    reveal_with_fuel(axis_value_upto, 10);
}

/// Law: a pen-up report leaves position and tilt where they were and
/// writes no serial.
pub proof fn lemma_pen_up_keeps_position(serial: i32, initial_serial: int, initial_value: int)
    ensures
        ({
            let r = spec_report(InputMsg::PenUp, serial, 0, 0);
            &&& serial_value(r, initial_serial) == initial_serial
            &&& axis_value(r, Axis::X, initial_value) == initial_value
            &&& axis_value(r, Axis::Y, initial_value) == initial_value
            &&& axis_value(r, Axis::TiltX, initial_value) == initial_value
            &&& axis_value(r, Axis::TiltY, initial_value) == initial_value
        }),
{
    reveal_with_fuel(serial_value_upto, 5);
    reveal_with_fuel(axis_value_upto, 5);
}

proof fn lemma_mt_slot_prefix(a: Seq<DeviceEvent>, b: Seq<DeviceEvent>, n: nat, initial: int)
    requires
        n <= a.len(),
    ensures
        mt_slot_upto(a + b, n, initial) == mt_slot_upto(a, n, initial),
    decreases n,
{
    if n > 0 {
        assert((a + b)[n - 1] == a[n - 1]);
        lemma_mt_slot_prefix(a, b, (n - 1) as nat, initial);
    }
}

proof fn lemma_mt_slot_append_upto(a: Seq<DeviceEvent>, b: Seq<DeviceEvent>, n: nat, initial: int)
    requires
        n <= b.len(),
    ensures
        mt_slot_upto(a + b, a.len() + n, initial) == mt_slot_upto(b, n, mt_slot(a, initial)),
    decreases n,
{
    if n == 0 {
        lemma_mt_slot_prefix(a, b, a.len(), initial);
    } else {
        assert((a + b)[a.len() + n - 1] == b[n - 1]);
        lemma_mt_slot_append_upto(a, b, (n - 1) as nat, initial);
    }
}

/// Events appended after a prefix start from the slot the prefix selected.
pub proof fn lemma_mt_slot_append(a: Seq<DeviceEvent>, b: Seq<DeviceEvent>, initial: int)
    ensures
        mt_slot(a + b, initial) == mt_slot(b, mt_slot(a, initial)),
{
    lemma_mt_slot_append_upto(a, b, b.len(), initial);
}

proof fn lemma_mt_tracking_id_prefix(
    a: Seq<DeviceEvent>,
    b: Seq<DeviceEvent>,
    n: nat,
    slot: int,
    initial_slot: int,
    initial_id: int,
)
    requires
        n <= a.len(),
    ensures
        mt_tracking_id_upto(a + b, n, slot, initial_slot, initial_id) == mt_tracking_id_upto(
            a,
            n,
            slot,
            initial_slot,
            initial_id,
        ),
    decreases n,
{
    if n > 0 {
        assert((a + b)[n - 1] == a[n - 1]);
        lemma_mt_slot_prefix(a, b, (n - 1) as nat, initial_slot);
        lemma_mt_tracking_id_prefix(a, b, (n - 1) as nat, slot, initial_slot, initial_id);
    }
}

proof fn lemma_mt_tracking_id_append_upto(
    a: Seq<DeviceEvent>,
    b: Seq<DeviceEvent>,
    n: nat,
    slot: int,
    initial_slot: int,
    initial_id: int,
)
    requires
        n <= b.len(),
    ensures
        mt_tracking_id_upto(a + b, a.len() + n, slot, initial_slot, initial_id)
            == mt_tracking_id_upto(
            b,
            n,
            slot,
            mt_slot(a, initial_slot),
            mt_tracking_id(a, slot, initial_slot, initial_id),
        ),
    decreases n,
{
    if n == 0 {
        lemma_mt_tracking_id_prefix(a, b, a.len(), slot, initial_slot, initial_id);
    } else {
        assert((a + b)[a.len() + n - 1] == b[n - 1]);
        lemma_mt_slot_append_upto(a, b, (n - 1) as nat, initial_slot);
        lemma_mt_tracking_id_append_upto(a, b, (n - 1) as nat, slot, initial_slot, initial_id);
    }
}

proof fn lemma_mt_value_prefix(
    a: Seq<DeviceEvent>,
    b: Seq<DeviceEvent>,
    n: nat,
    slot: int,
    axis: Axis,
    initial_slot: int,
    initial: int,
)
    requires
        n <= a.len(),
    ensures
        mt_value_upto(a + b, n, slot, axis, initial_slot, initial) == mt_value_upto(
            a,
            n,
            slot,
            axis,
            initial_slot,
            initial,
        ),
    decreases n,
{
    if n > 0 {
        assert((a + b)[n - 1] == a[n - 1]);
        lemma_mt_slot_prefix(a, b, (n - 1) as nat, initial_slot);
        lemma_mt_value_prefix(a, b, (n - 1) as nat, slot, axis, initial_slot, initial);
    }
}

proof fn lemma_mt_value_append_upto(
    a: Seq<DeviceEvent>,
    b: Seq<DeviceEvent>,
    n: nat,
    slot: int,
    axis: Axis,
    initial_slot: int,
    initial: int,
)
    requires
        n <= b.len(),
    ensures
        mt_value_upto(a + b, a.len() + n, slot, axis, initial_slot, initial) == mt_value_upto(
            b,
            n,
            slot,
            axis,
            mt_slot(a, initial_slot),
            mt_value(a, slot, axis, initial_slot, initial),
        ),
    decreases n,
{
    if n == 0 {
        lemma_mt_value_prefix(a, b, a.len(), slot, axis, initial_slot, initial);
    } else {
        assert((a + b)[a.len() + n - 1] == b[n - 1]);
        lemma_mt_slot_append_upto(a, b, (n - 1) as nat, initial_slot);
        lemma_mt_value_append_upto(a, b, (n - 1) as nat, slot, axis, initial_slot, initial);
    }
}

/// Events appended after a prefix see the slot selection and per-contact
/// values the prefix left.
pub proof fn lemma_mt_value_append(
    a: Seq<DeviceEvent>,
    b: Seq<DeviceEvent>,
    slot: int,
    axis: Axis,
    initial_slot: int,
    initial: int,
)
    ensures
        mt_value(a + b, slot, axis, initial_slot, initial) == mt_value(
            b,
            slot,
            axis,
            mt_slot(a, initial_slot),
            mt_value(a, slot, axis, initial_slot, initial),
        ),
{
    lemma_mt_value_append_upto(a, b, b.len(), slot, axis, initial_slot, initial);
}

proof fn lemma_mt_value_no_abs_upto(
    events: Seq<DeviceEvent>,
    n: nat,
    slot: int,
    axis: Axis,
    initial_slot: int,
    initial: int,
)
    requires
        no_abs(events),
        n <= events.len(),
    ensures
        mt_value_upto(events, n, slot, axis, initial_slot, initial) == initial,
    decreases n,
{
    if n > 0 {
        assert(!(events[n - 1] is Abs));
        lemma_mt_value_no_abs_upto(events, (n - 1) as nat, slot, axis, initial_slot, initial);
    }
}

/// Events appended after a prefix see the slot selection and contact ids
/// the prefix left.
pub proof fn lemma_mt_tracking_id_append(
    a: Seq<DeviceEvent>,
    b: Seq<DeviceEvent>,
    slot: int,
    initial_slot: int,
    initial_id: int,
)
    ensures
        mt_tracking_id(a + b, slot, initial_slot, initial_id) == mt_tracking_id(
            b,
            slot,
            mt_slot(a, initial_slot),
            mt_tracking_id(a, slot, initial_slot, initial_id),
        ),
{
    lemma_mt_tracking_id_append_upto(a, b, b.len(), slot, initial_slot, initial_id);
}

/// Law: a pen-up report lifts the tip, leaves proximity and reports zero
/// pressure, whatever was held before.
pub proof fn lemma_pen_up_releases(serial: i32, initial: bool, pressure: int)
    ensures
        !key_state(spec_report(InputMsg::PenUp, serial, 0, 0), Key::ToolPen, initial),
        !key_state(spec_report(InputMsg::PenUp, serial, 0, 0), Key::Touch, initial),
        axis_value(spec_report(InputMsg::PenUp, serial, 0, 0), Axis::Pressure, pressure) == 0,
{
    reveal_with_fuel(key_state_upto, 5);
    reveal_with_fuel(axis_value_upto, 5);
}

/// Law: a pen-up report undoes a pen-down report: after both, the tip is
/// off the glass and the pen out of proximity.
pub proof fn lemma_pen_down_then_up(
    x: i32,
    y: i32,
    pressure: i32,
    tilt_x: i32,
    tilt_y: i32,
    serial: i32,
    initial: bool,
)
    ensures
        ({
            let both = spec_report(InputMsg::PenDown { x, y, pressure, tilt_x, tilt_y }, serial, 0, 0)
                + spec_report(InputMsg::PenUp, serial, 0, 0);
            &&& !key_state(both, Key::ToolPen, initial)
            &&& !key_state(both, Key::Touch, initial)
        }),
{
    let down = spec_report(InputMsg::PenDown { x, y, pressure, tilt_x, tilt_y }, serial, 0, 0);
    let up = spec_report(InputMsg::PenUp, serial, 0, 0);
    lemma_key_state_append(down, up, Key::ToolPen, initial);
    lemma_key_state_append(down, up, Key::Touch, initial);
    lemma_pen_up_releases(serial, key_state(down, Key::ToolPen, initial), 0);
    lemma_pen_up_releases(serial, key_state(down, Key::Touch, initial), 0);
}

/// Law: a pen-move report changes no key and sets position, pressure and
/// each tilt axis to the message's own value.
pub proof fn lemma_pen_move(
    x: i32,
    y: i32,
    pressure: i32,
    tilt_x: i32,
    tilt_y: i32,
    serial: i32,
    key: Key,
    initial: bool,
    initial_value: int,
)
    ensures
        ({
            let r = spec_report(InputMsg::PenMove { x, y, pressure, tilt_x, tilt_y }, serial, 0, 0);
            &&& key_state(r, key, initial) == initial
            &&& axis_value(r, Axis::X, initial_value) == x
            &&& axis_value(r, Axis::Y, initial_value) == y
            &&& axis_value(r, Axis::Pressure, initial_value) == pressure
            &&& axis_value(r, Axis::TiltX, initial_value) == tilt_x
            &&& axis_value(r, Axis::TiltY, initial_value) == tilt_y
        }),
{
    reveal_with_fuel(key_state_upto, 7);
    reveal_with_fuel(axis_value_upto, 7);
}

/// Law: a button report sets that button to the message's state and no
/// other key.
pub proof fn lemma_pen_button(button: PenButton, state: bool, serial: i32, key: Key, initial: bool)
    ensures
        ({
            let r = spec_report(InputMsg::PenButton { button, state }, serial, 0, 0);
            &&& key_state(r, spec_button_key(button), initial) == state
            &&& key != spec_button_key(button) ==> key_state(r, key, initial) == initial
        }),
{
    reveal_with_fuel(key_state_upto, 3);
}

/// Whether no event of the sequence is a key event.
pub open spec fn no_keys(events: Seq<DeviceEvent>) -> bool {
    forall|i: int| 0 <= i < events.len() ==> !(#[trigger] events[i] is Key)
}

/// Whether no event of the sequence is on an absolute axis.
pub open spec fn no_abs(events: Seq<DeviceEvent>) -> bool {
    forall|i: int| 0 <= i < events.len() ==> !(#[trigger] events[i] is Abs)
}

proof fn lemma_key_state_no_keys_upto(events: Seq<DeviceEvent>, n: nat, key: Key, initial: bool)
    requires
        no_keys(events),
        n <= events.len(),
    ensures
        key_state_upto(events, n, key, initial) == initial,
    decreases n,
{
    if n > 0 {
        assert(!(events[n - 1] is Key));
        lemma_key_state_no_keys_upto(events, (n - 1) as nat, key, initial);
    }
}

/// Events without key events leave every key as it was.
pub proof fn lemma_key_state_no_keys(events: Seq<DeviceEvent>, key: Key, initial: bool)
    requires
        no_keys(events),
    ensures
        key_state(events, key, initial) == initial,
{
    lemma_key_state_no_keys_upto(events, events.len(), key, initial);
}

proof fn lemma_mt_no_abs_upto(events: Seq<DeviceEvent>, n: nat, slot: int, initial_slot: int, initial_id: int)
    requires
        no_abs(events),
        n <= events.len(),
    ensures
        mt_slot_upto(events, n, initial_slot) == initial_slot,
        mt_tracking_id_upto(events, n, slot, initial_slot, initial_id) == initial_id,
    decreases n,
{
    if n > 0 {
        assert(!(events[n - 1] is Abs));
        lemma_mt_no_abs_upto(events, (n - 1) as nat, slot, initial_slot, initial_id);
    }
}

/// Events on no absolute axis leave the slot selection and the contact
/// ids as they were.
pub proof fn lemma_mt_no_abs(events: Seq<DeviceEvent>, slot: int, initial_slot: int, initial_id: int)
    requires
        no_abs(events),
    ensures
        mt_slot(events, initial_slot) == initial_slot,
        mt_tracking_id(events, slot, initial_slot, initial_id) == initial_id,
{
    lemma_mt_no_abs_upto(events, events.len(), slot, initial_slot, initial_id);
}

proof fn lemma_axis_value_no_abs_upto(events: Seq<DeviceEvent>, n: nat, axis: Axis, initial: int)
    requires
        no_abs(events),
        n <= events.len(),
    ensures
        axis_value_upto(events, n, axis, initial) == initial,
    decreases n,
{
    if n > 0 {
        assert(!(events[n - 1] is Abs));
        lemma_axis_value_no_abs_upto(events, (n - 1) as nat, axis, initial);
    }
}

proof fn lemma_axis_value_prefix(a: Seq<DeviceEvent>, b: Seq<DeviceEvent>, n: nat, axis: Axis, initial: int)
    requires
        n <= a.len(),
    ensures
        axis_value_upto(a + b, n, axis, initial) == axis_value_upto(a, n, axis, initial),
    decreases n,
{
    if n > 0 {
        assert((a + b)[n - 1] == a[n - 1]);
        lemma_axis_value_prefix(a, b, (n - 1) as nat, axis, initial);
    }
}

proof fn lemma_axis_value_append_upto(a: Seq<DeviceEvent>, b: Seq<DeviceEvent>, n: nat, axis: Axis, initial: int)
    requires
        n <= b.len(),
    ensures
        axis_value_upto(a + b, a.len() + n, axis, initial) == axis_value_upto(
            b,
            n,
            axis,
            axis_value(a, axis, initial),
        ),
    decreases n,
{
    if n == 0 {
        lemma_axis_value_prefix(a, b, a.len(), axis, initial);
    } else {
        assert((a + b)[a.len() + n - 1] == b[n - 1]);
        lemma_axis_value_append_upto(a, b, (n - 1) as nat, axis, initial);
    }
}

/// Events appended after a prefix see the axis values the prefix left.
pub proof fn lemma_axis_value_append(a: Seq<DeviceEvent>, b: Seq<DeviceEvent>, axis: Axis, initial: int)
    ensures
        axis_value(a + b, axis, initial) == axis_value(b, axis, axis_value(a, axis, initial)),
{
    lemma_axis_value_append_upto(a, b, b.len(), axis, initial);
}

/// The key changes of a contact change are key events only.
proof fn lemma_key_changes_no_abs(before: nat, after: nat)
    ensures
        no_abs(spec_key_changes(before, after)),
{
    lemma_key_changes_shape(before, after);
    let kc = spec_key_changes(before, after);
    assert forall|i: int| 0 <= i < kc.len() implies !(#[trigger] kc[i] is Abs) by {
        assert(is_touch_key_event(kc[i]));
    }
}

/// Whether a key is held after a change from `before` to `after`
/// contacts, given whether it was held before.
pub open spec fn spec_key_after_change(before: nat, after: nat, key: Key, initial: bool) -> bool {
    if key == Key::Touch {
        if before == 0 && after > 0 {
            true
        } else if before > 0 && after == 0 {
            false
        } else {
            initial
        }
    } else if spec_count_key(before) != spec_count_key(after) && spec_count_key(after) == Some(
        key,
    ) {
        true
    } else if spec_count_key(before) != spec_count_key(after) && spec_count_key(before) == Some(
        key,
    ) {
        false
    } else {
        initial
    }
}

/// The key events of a contact change set each key as
/// `spec_key_after_change` says.
pub proof fn lemma_key_changes_state(before: nat, after: nat, key: Key, initial: bool)
    ensures
        key_state(spec_key_changes(before, after), key, initial) == spec_key_after_change(
            before,
            after,
            key,
            initial,
        ),
{
    reveal_with_fuel(key_state_upto, 3);
    let e = spec_touch_edge(before, after);
    let c = spec_count_changes(before, after);
    lemma_key_state_append(e, c, key, initial);
    let mid = key_state(e, key, initial);
    if spec_count_key(before) != spec_count_key(after) {
        let rel = match spec_count_key(before) {
            Some(k) => seq![DeviceEvent::Key(k, false)],
            None => Seq::<DeviceEvent>::empty(),
        };
        let press = match spec_count_key(after) {
            Some(k) => seq![DeviceEvent::Key(k, true)],
            None => Seq::<DeviceEvent>::empty(),
        };
        assert(c == rel + press);
        lemma_key_state_append(rel, press, key, mid);
    }
}

/// Whether the keys of the touch device agree with `n` contacts:
/// `BTN_TOUCH` is held exactly when there is a contact, and exactly the
/// contact-count key for `n` is held.
pub open spec fn keys_match_contacts(history: Seq<DeviceEvent>, n: nat) -> bool {
    &&& key_state(history, Key::Touch, false) == (n > 0)
    &&& forall|k: Key|
        is_count_key(k) ==> #[trigger] key_state(history, k, false) == (spec_count_key(n) == Some(
            k,
        ))
}

/// Law: a touch report taking the contacts from `before` to `after`
/// brings keys that agreed with `before` contacts into agreement with
/// `after` contacts. (A move never changes the contacts.)
pub proof fn lemma_touch_report_keeps_keys(
    history: Seq<DeviceEvent>,
    msg: InputMsg,
    serial: i32,
    before: nat,
    after: nat,
)
    requires
        spec_device(msg) == Device::Touch,
        keys_match_contacts(history, before),
        msg is TouchMove ==> after == before,
    ensures
        keys_match_contacts(history + spec_report(msg, serial, before, after), after),
{
    let r = spec_report(msg, serial, before, after);
    let kc = spec_key_changes(before, after);
    assert forall|k: Key| #[trigger] key_state(r, k, key_state(history, k, false)) == spec_key_after_change(before, after, k, key_state(history, k, false)) by {
        let init = key_state(history, k, false);
        lemma_key_changes_state(before, after, k, init);
        match msg {
            InputMsg::TouchDown { slot, id, x, y, major, pressure } => {
                let p = seq![
                    DeviceEvent::Abs(Axis::MtSlot, slot),
                    DeviceEvent::Abs(Axis::MtTrackingId, id),
                    DeviceEvent::Abs(Axis::MtPositionX, x),
                    DeviceEvent::Abs(Axis::MtPositionY, y),
                    DeviceEvent::Abs(Axis::MtTouchMajor, major),
                    DeviceEvent::Abs(Axis::MtPressure, pressure),
                ];
                let q = seq![
                    DeviceEvent::Abs(Axis::X, x),
                    DeviceEvent::Abs(Axis::Y, y),
                    DeviceEvent::SynReport,
                ];
                assert(r == p + kc + q);
                lemma_key_state_append(p + kc, q, k, init);
                lemma_key_state_append(p, kc, k, init);
                lemma_key_state_no_keys(p, k, init);
                lemma_key_state_no_keys(q, k, key_state(p + kc, k, init));
            },
            InputMsg::TouchUp { slot } => {
                let p = seq![
                    DeviceEvent::Abs(Axis::MtSlot, slot),
                    DeviceEvent::Abs(Axis::MtTrackingId, RELEASED_TRACKING_ID),
                ];
                let q = seq![DeviceEvent::SynReport];
                assert(r == p + kc + q);
                lemma_key_state_append(p + kc, q, k, init);
                lemma_key_state_append(p, kc, k, init);
                lemma_key_state_no_keys(p, k, init);
                lemma_key_state_no_keys(q, k, key_state(p + kc, k, init));
            },
            _ => {
                lemma_key_state_no_keys(r, k, init);
            },
        }
    }
    assert forall|k: Key| #[trigger] key_state(history + r, k, false) == spec_key_after_change(before, after, k, key_state(history, k, false)) by {
        lemma_key_state_append(history, r, k, false);
        assert(key_state(r, k, key_state(history, k, false)) == spec_key_after_change(before, after, k, key_state(history, k, false)));
    }
}

/// The events the touch device receives for the first `k` messages, the
/// contacts going from `counts[i]` to `counts[i + 1]` with message `i`;
/// pen messages go to the pen device and add nothing.
pub open spec fn touch_history(msgs: Seq<InputMsg>, serial: i32, counts: Seq<nat>, k: nat) -> Seq<
    DeviceEvent,
>
    decreases k,
{
    if k == 0 {
        Seq::empty()
    } else {
        let prev = touch_history(msgs, serial, counts, (k - 1) as nat);
        let m = msgs[k - 1];
        if spec_device(m) == Device::Touch {
            prev + spec_report(m, serial, counts[k - 1], counts[k as int])
        } else {
            prev
        }
    }
}

/// Law: after any sequence of messages from no contact, the touch
/// device's `BTN_TOUCH` is held exactly when some slot holds a contact,
/// and exactly the contact-count key for the number of contacts is held.
/// `counts[i]` is the number of contacts before message `i`, as the
/// touch state counts them: pen messages and moves leave it unchanged.
pub proof fn lemma_touch_keys_track_contacts(msgs: Seq<InputMsg>, serial: i32, counts: Seq<nat>, k: nat)
    requires
        counts.len() == msgs.len() + 1,
        counts[0] == 0,
        k <= msgs.len(),
        forall|i: int|
            0 <= i < msgs.len() && (spec_device(#[trigger] msgs[i]) == Device::Pen || msgs[i] is TouchMove)
                ==> counts[i + 1] == counts[i],
    ensures
        keys_match_contacts(touch_history(msgs, serial, counts, k), counts[k as int]),
    decreases k,
{
    if k == 0 {
        reveal_with_fuel(key_state_upto, 1);
    } else {
        lemma_touch_keys_track_contacts(msgs, serial, counts, (k - 1) as nat);
        let prev = touch_history(msgs, serial, counts, (k - 1) as nat);
        let m = msgs[k - 1];
        if spec_device(m) == Device::Touch {
            lemma_touch_report_keeps_keys(prev, m, serial, counts[k - 1], counts[k as int]);
        } else {
            assert(counts[k as int] == counts[k - 1]);
        }
    }
}

/// Law: a touch-down report selects its slot, gives it the message's
/// contact id, contact size and pressure, and mirrors the contact's
/// position on the single-touch axes.
pub proof fn lemma_touch_down(
    slot: i32,
    id: i32,
    x: i32,
    y: i32,
    major: i32,
    pressure: i32,
    serial: i32,
    before: nat,
    after: nat,
    initial_slot: int,
    initial_id: int,
    initial_value: int,
)
    ensures
        ({
            let r = spec_report(
                InputMsg::TouchDown { slot, id, x, y, major, pressure },
                serial,
                before,
                after,
            );
            &&& mt_slot(r, initial_slot) == slot
            &&& mt_tracking_id(r, slot as int, initial_slot, initial_id) == id
            &&& axis_value(r, Axis::X, initial_value) == x
            &&& axis_value(r, Axis::MtPositionX, initial_value) == x
            &&& axis_value(r, Axis::Y, initial_value) == y
            &&& axis_value(r, Axis::MtPositionY, initial_value) == y
            &&& axis_value(r, Axis::MtTouchMajor, initial_value) == major
            &&& axis_value(r, Axis::MtPressure, initial_value) == pressure
        }),
{
    reveal_with_fuel(axis_value_upto, 7);
    reveal_with_fuel(mt_slot_upto, 7);
    reveal_with_fuel(mt_tracking_id_upto, 7);
    let r = spec_report(InputMsg::TouchDown { slot, id, x, y, major, pressure }, serial, before, after);
    let kc = spec_key_changes(before, after);
    let p = seq![
        DeviceEvent::Abs(Axis::MtSlot, slot),
        DeviceEvent::Abs(Axis::MtTrackingId, id),
        DeviceEvent::Abs(Axis::MtPositionX, x),
        DeviceEvent::Abs(Axis::MtPositionY, y),
        DeviceEvent::Abs(Axis::MtTouchMajor, major),
        DeviceEvent::Abs(Axis::MtPressure, pressure),
    ];
    let q = seq![DeviceEvent::Abs(Axis::X, x), DeviceEvent::Abs(Axis::Y, y), DeviceEvent::SynReport];
    assert(r == p + kc + q);
    lemma_key_changes_no_abs(before, after);
    lemma_mt_slot_append(p + kc, q, initial_slot);
    lemma_mt_slot_append(p, kc, initial_slot);
    lemma_mt_tracking_id_append(p + kc, q, slot as int, initial_slot, initial_id);
    lemma_mt_tracking_id_append(p, kc, slot as int, initial_slot, initial_id);
    lemma_mt_no_abs(kc, slot as int, mt_slot(p, initial_slot), mt_tracking_id(p, slot as int, initial_slot, initial_id));
    assert(mt_slot(p, initial_slot) == slot);
    assert(mt_tracking_id(p, slot as int, initial_slot, initial_id) == id);
    let pk = p + kc;
    assert(mt_slot(pk, initial_slot) == slot);
    assert(mt_tracking_id(pk, slot as int, initial_slot, initial_id) == id);
    assert(mt_slot(q, slot as int) == slot);
    assert(mt_tracking_id(q, slot as int, slot as int, id as int) == id);
    assert forall|a: Axis| #[trigger] axis_value(r, a, initial_value) == axis_value(q, a, axis_value(p, a, initial_value)) by {
        lemma_axis_value_append(pk, q, a, initial_value);
        lemma_axis_value_append(p, kc, a, initial_value);
        lemma_axis_value_no_abs_upto(kc, kc.len(), a, axis_value(p, a, initial_value));
    }
    assert(axis_value(r, Axis::X, initial_value) == x);
    assert(axis_value(r, Axis::Y, initial_value) == y);
    assert(axis_value(r, Axis::MtPositionX, initial_value) == x);
    assert(axis_value(r, Axis::MtPositionY, initial_value) == y);
    assert(axis_value(r, Axis::MtTouchMajor, initial_value) == major);
    assert(axis_value(r, Axis::MtPressure, initial_value) == pressure);
}

/// Law: a touch-move report keeps the slot's contact, moves it, gives it
/// the message's contact size and pressure, and mirrors the new position
/// on the single-touch axes.
pub proof fn lemma_touch_move(
    slot: i32,
    x: i32,
    y: i32,
    major: i32,
    pressure: i32,
    serial: i32,
    before: nat,
    after: nat,
    initial_slot: int,
    initial_id: int,
    initial_value: int,
)
    ensures
        ({
            let r = spec_report(InputMsg::TouchMove { slot, x, y, major, pressure }, serial, before, after);
            &&& mt_slot(r, initial_slot) == slot
            &&& mt_tracking_id(r, slot as int, initial_slot, initial_id) == initial_id
            &&& axis_value(r, Axis::X, initial_value) == x
            &&& axis_value(r, Axis::MtPositionX, initial_value) == x
            &&& axis_value(r, Axis::Y, initial_value) == y
            &&& axis_value(r, Axis::MtPositionY, initial_value) == y
            &&& axis_value(r, Axis::MtTouchMajor, initial_value) == major
            &&& axis_value(r, Axis::MtPressure, initial_value) == pressure
        }),
{
    reveal_with_fuel(axis_value_upto, 9);
    reveal_with_fuel(mt_slot_upto, 9);
    reveal_with_fuel(mt_tracking_id_upto, 9);
}

/// Law: after a touch-down report the message's slot holds the contact's
/// position, size and pressure, whatever it held before.
pub proof fn lemma_touch_down_contact(
    slot: i32,
    id: i32,
    x: i32,
    y: i32,
    major: i32,
    pressure: i32,
    serial: i32,
    before: nat,
    after: nat,
    initial_slot: int,
    initial_value: int,
)
    ensures
        ({
            let r = spec_report(
                InputMsg::TouchDown { slot, id, x, y, major, pressure },
                serial,
                before,
                after,
            );
            &&& mt_value(r, slot as int, Axis::MtPositionX, initial_slot, initial_value) == x
            &&& mt_value(r, slot as int, Axis::MtPositionY, initial_slot, initial_value) == y
            &&& mt_value(r, slot as int, Axis::MtTouchMajor, initial_slot, initial_value) == major
            &&& mt_value(r, slot as int, Axis::MtPressure, initial_slot, initial_value) == pressure
        }),
{
    reveal_with_fuel(mt_slot_upto, 7);
    reveal_with_fuel(mt_value_upto, 7);
    let r = spec_report(InputMsg::TouchDown { slot, id, x, y, major, pressure }, serial, before, after);
    let kc = spec_key_changes(before, after);
    let p = seq![
        DeviceEvent::Abs(Axis::MtSlot, slot),
        DeviceEvent::Abs(Axis::MtTrackingId, id),
        DeviceEvent::Abs(Axis::MtPositionX, x),
        DeviceEvent::Abs(Axis::MtPositionY, y),
        DeviceEvent::Abs(Axis::MtTouchMajor, major),
        DeviceEvent::Abs(Axis::MtPressure, pressure),
    ];
    let q = seq![DeviceEvent::Abs(Axis::X, x), DeviceEvent::Abs(Axis::Y, y), DeviceEvent::SynReport];
    assert(r == p + kc + q);
    lemma_key_changes_no_abs(before, after);
    let pk = p + kc;
    lemma_mt_slot_append(p, kc, initial_slot);
    lemma_mt_no_abs(kc, slot as int, mt_slot(p, initial_slot), 0);
    assert(mt_slot(p, initial_slot) == slot);
    assert(mt_slot(pk, initial_slot) == slot);
    assert forall|a: Axis| a != Axis::X && a != Axis::Y implies #[trigger] mt_value(
        r,
        slot as int,
        a,
        initial_slot,
        initial_value,
    ) == mt_value(
        p,
        slot as int,
        a,
        initial_slot,
        initial_value,
    ) by {
        lemma_mt_value_append(pk, q, slot as int, a, initial_slot, initial_value);
        lemma_mt_value_append(p, kc, slot as int, a, initial_slot, initial_value);
        lemma_mt_value_no_abs_upto(
            kc,
            kc.len(),
            slot as int,
            a,
            slot as int,
            mt_value(p, slot as int, a, initial_slot, initial_value),
        );
        assert(mt_value(q, slot as int, a, slot as int, mt_value(pk, slot as int, a, initial_slot, initial_value))
            == mt_value(pk, slot as int, a, initial_slot, initial_value));
    }
    assert(mt_value(p, slot as int, Axis::MtPositionX, initial_slot, initial_value) == x);
    assert(mt_value(p, slot as int, Axis::MtPositionY, initial_slot, initial_value) == y);
    assert(mt_value(p, slot as int, Axis::MtTouchMajor, initial_slot, initial_value) == major);
    assert(mt_value(p, slot as int, Axis::MtPressure, initial_slot, initial_value) == pressure);
}

/// Law: after a touch-move report the message's slot holds the new
/// position, size and pressure, whatever it held before.
pub proof fn lemma_touch_move_contact(
    slot: i32,
    x: i32,
    y: i32,
    major: i32,
    pressure: i32,
    serial: i32,
    before: nat,
    after: nat,
    initial_slot: int,
    initial_value: int,
)
    ensures
        ({
            let r = spec_report(InputMsg::TouchMove { slot, x, y, major, pressure }, serial, before, after);
            &&& mt_value(r, slot as int, Axis::MtPositionX, initial_slot, initial_value) == x
            &&& mt_value(r, slot as int, Axis::MtPositionY, initial_slot, initial_value) == y
            &&& mt_value(r, slot as int, Axis::MtTouchMajor, initial_slot, initial_value) == major
            &&& mt_value(r, slot as int, Axis::MtPressure, initial_slot, initial_value) == pressure
        }),
{
    reveal_with_fuel(mt_slot_upto, 9);
    reveal_with_fuel(mt_value_upto, 9);
}

/// Law: a touch-up report releases its slot (contact id -1); `BTN_TOUCH`
/// is released only when it lifts the last contact.
pub proof fn lemma_touch_up(
    slot: i32,
    serial: i32,
    before: nat,
    after: nat,
    initial_slot: int,
    initial_id: int,
    initial: bool,
)
    ensures
        ({
            let r = spec_report(InputMsg::TouchUp { slot }, serial, before, after);
            &&& mt_slot(r, initial_slot) == slot
            &&& mt_tracking_id(r, slot as int, initial_slot, initial_id) == -1
            &&& key_state(r, Key::Touch, initial) == spec_key_after_change(
                before,
                after,
                Key::Touch,
                initial,
            )
            &&& after > 0 ==> key_state(r, Key::Touch, initial) == (initial || before == 0)
            &&& (before > 0 && after == 0) ==> !key_state(r, Key::Touch, initial)
        }),
{
    reveal_with_fuel(mt_slot_upto, 3);
    reveal_with_fuel(mt_tracking_id_upto, 3);
    reveal_with_fuel(key_state_upto, 2);
    let r = spec_report(InputMsg::TouchUp { slot }, serial, before, after);
    let kc = spec_key_changes(before, after);
    let p = seq![
        DeviceEvent::Abs(Axis::MtSlot, slot),
        DeviceEvent::Abs(Axis::MtTrackingId, RELEASED_TRACKING_ID),
    ];
    let q = seq![DeviceEvent::SynReport];
    assert(r == p + kc + q);
    lemma_key_changes_no_abs(before, after);
    lemma_mt_slot_append(p + kc, q, initial_slot);
    lemma_mt_slot_append(p, kc, initial_slot);
    lemma_mt_tracking_id_append(p + kc, q, slot as int, initial_slot, initial_id);
    lemma_mt_tracking_id_append(p, kc, slot as int, initial_slot, initial_id);
    lemma_mt_no_abs(kc, slot as int, mt_slot(p, initial_slot), mt_tracking_id(p, slot as int, initial_slot, initial_id));
    assert(mt_slot(p, initial_slot) == slot);
    assert(mt_tracking_id(p, slot as int, initial_slot, initial_id) == -1);
    lemma_key_state_append(p + kc, q, Key::Touch, initial);
    lemma_key_state_append(p, kc, Key::Touch, initial);
    lemma_key_state_no_keys(p, Key::Touch, initial);
    lemma_key_changes_state(before, after, Key::Touch, initial);
}

/// Law: a touch-up report undoes a touch-down report on the same slot:
/// after both, the slot holds no contact.
pub proof fn lemma_touch_down_then_up(
    slot: i32,
    id: i32,
    x: i32,
    y: i32,
    major: i32,
    pressure: i32,
    serial: i32,
    c0: nat,
    c1: nat,
    c2: nat,
    initial_slot: int,
    initial_id: int,
)
    ensures
        mt_tracking_id(
            spec_report(InputMsg::TouchDown { slot, id, x, y, major, pressure }, serial, c0, c1)
                + spec_report(InputMsg::TouchUp { slot }, serial, c1, c2),
            slot as int,
            initial_slot,
            initial_id,
        ) == -1,
{
    let down = spec_report(InputMsg::TouchDown { slot, id, x, y, major, pressure }, serial, c0, c1);
    let up = spec_report(InputMsg::TouchUp { slot }, serial, c1, c2);
    lemma_mt_tracking_id_append(down, up, slot as int, initial_slot, initial_id);
    lemma_touch_up(
        slot,
        serial,
        c1,
        c2,
        mt_slot(down, initial_slot),
        mt_tracking_id(down, slot as int, initial_slot, initial_id),
        false,
    );
}

/// Law: a report never changes the contact of a slot other than the one
/// its message is about; pen reports change no slot at all.
pub proof fn lemma_other_slots_untouched(
    msg: InputMsg,
    serial: i32,
    before: nat,
    after: nat,
    slot: int,
    initial_slot: int,
    initial_id: int,
)
    requires
        match spec_msg_slot(msg) {
            Some(s) => s != slot,
            None => true,
        },
    ensures
        mt_tracking_id(spec_report(msg, serial, before, after), slot, initial_slot, initial_id)
            == initial_id,
{
    reveal_with_fuel(mt_slot_upto, 11);
    reveal_with_fuel(mt_tracking_id_upto, 11);
    let r = spec_report(msg, serial, before, after);
    let kc = spec_key_changes(before, after);
    lemma_key_changes_no_abs(before, after);
    match msg {
        InputMsg::TouchDown { slot: s, id, x, y, major, pressure } => {
            let p = seq![
                DeviceEvent::Abs(Axis::MtSlot, s),
                DeviceEvent::Abs(Axis::MtTrackingId, id),
                DeviceEvent::Abs(Axis::MtPositionX, x),
                DeviceEvent::Abs(Axis::MtPositionY, y),
                DeviceEvent::Abs(Axis::MtTouchMajor, major),
                DeviceEvent::Abs(Axis::MtPressure, pressure),
            ];
            let q = seq![DeviceEvent::Abs(Axis::X, x), DeviceEvent::Abs(Axis::Y, y), DeviceEvent::SynReport];
            assert(r == p + kc + q);
            lemma_mt_tracking_id_append(p + kc, q, slot, initial_slot, initial_id);
            lemma_mt_tracking_id_append(p, kc, slot, initial_slot, initial_id);
            lemma_mt_slot_append(p, kc, initial_slot);
            lemma_mt_no_abs(kc, slot, mt_slot(p, initial_slot), mt_tracking_id(p, slot, initial_slot, initial_id));
        },
        InputMsg::TouchUp { slot: s } => {
            let p = seq![
                DeviceEvent::Abs(Axis::MtSlot, s),
                DeviceEvent::Abs(Axis::MtTrackingId, RELEASED_TRACKING_ID),
            ];
            let q = seq![DeviceEvent::SynReport];
            assert(r == p + kc + q);
            lemma_mt_tracking_id_append(p + kc, q, slot, initial_slot, initial_id);
            lemma_mt_tracking_id_append(p, kc, slot, initial_slot, initial_id);
            lemma_mt_slot_append(p, kc, initial_slot);
            lemma_mt_no_abs(kc, slot, mt_slot(p, initial_slot), mt_tracking_id(p, slot, initial_slot, initial_id));
        },
        _ => {},
    }
}

/// Law: the scripted pinch writes only what the touch device declares,
/// and each of its reports is complete.
pub proof fn lemma_pinch_within_capabilities(id0: i32, id1: i32, x: i32, y: i32, x0: i32, x1: i32, g: Geometry)
    ensures
        forall|i: int|
            0 <= i < spec_pinch_down(id0, id1, x, y).len() ==> supports(
                spec_touch_caps(g),
                #[trigger] spec_pinch_down(id0, id1, x, y)[i],
            ),
        forall|i: int|
            0 <= i < spec_pinch_move(x0, x1).len() ==> supports(
                spec_touch_caps(g),
                #[trigger] spec_pinch_move(x0, x1)[i],
            ),
        forall|i: int|
            0 <= i < spec_pinch_release().len() ==> supports(
                spec_touch_caps(g),
                #[trigger] spec_pinch_release()[i],
            ),
        is_complete_report(spec_pinch_down(id0, id1, x, y)),
        is_complete_report(spec_pinch_move(x0, x1)),
        is_complete_report(spec_pinch_release()),
{
    let caps = spec_touch_caps(g);
    assert(caps.event_kinds[0] == EventKind::Key);
    assert(caps.event_kinds[1] == EventKind::Absolute);
    assert(caps.event_kinds[2] == EventKind::Synchronize);
    assert(caps.keys[0] == Key::Touch);
    assert(caps.keys[2] == Key::ToolDoubleTap);
    assert(caps.axes[0].axis == Axis::X);
    assert(caps.axes[1].axis == Axis::Y);
    assert(caps.axes[2].axis == Axis::MtSlot);
    assert(caps.axes[3].axis == Axis::MtTrackingId);
    assert(caps.axes[4].axis == Axis::MtPositionX);
    assert(caps.axes[5].axis == Axis::MtPositionY);
    assert(caps.axes[6].axis == Axis::MtTouchMajor);
    assert(caps.axes[7].axis == Axis::MtPressure);
}

/// Law: the scripted pen stroke writes only what the pen device declares,
/// and each sample is a complete report.
pub proof fn lemma_stroke_within_capabilities(x: i32, y: i32, pressure: i32, i: i32, n: i32, g: Geometry)
    ensures
        forall|k: int|
            0 <= k < spec_stroke_sample(x, y, pressure, i, n).len() ==> supports(
                spec_pen_caps(g),
                #[trigger] spec_stroke_sample(x, y, pressure, i, n)[k],
            ),
        is_complete_report(spec_stroke_sample(x, y, pressure, i, n)),
{
    let caps = spec_pen_caps(g);
    let s = spec_stroke_sample(x, y, pressure, i, n);
    assert(caps.event_kinds[0] == EventKind::Key);
    assert(caps.event_kinds[1] == EventKind::Absolute);
    assert(caps.event_kinds[2] == EventKind::Synchronize);
    assert(caps.keys[2] == Key::Touch);
    assert(caps.axes[0].axis == Axis::X);
    assert(caps.axes[1].axis == Axis::Y);
    assert(caps.axes[2].axis == Axis::Pressure);
    assert(caps.axes[3].axis == Axis::TiltX);
    assert(caps.axes[4].axis == Axis::TiltY);
}

/// Law: in a scripted stroke the tip goes down only at sample 1, and only
/// if that sample has pressure, and comes up only at the last sample, and
/// only if that sample has none; every other sample changes no key.
pub proof fn lemma_stroke_tip_only_at_edges(
    x: i32,
    y: i32,
    pressure: i32,
    i: i32,
    n: i32,
    key: Key,
    initial: bool,
)
    ensures
        ({
            let r = spec_stroke_sample(x, y, pressure, i, n);
            &&& key != Key::Touch ==> key_state(r, key, initial) == initial
            &&& (i == 1 && pressure > 0) ==> key_state(r, Key::Touch, initial)
            &&& !(i == 1 && pressure > 0) && i == n && pressure <= 0 ==> !key_state(
                r,
                Key::Touch,
                initial,
            )
            &&& !(i == 1 && pressure > 0) && !(i == n && pressure <= 0) ==> key_state(
                r,
                Key::Touch,
                initial,
            ) == initial
        }),
{
    reveal_with_fuel(key_state_upto, 8);
    let r = spec_stroke_sample(x, y, pressure, i, n);
    if i == 1 && pressure > 0 {
        assert(r.len() == 7 && r[5] == DeviceEvent::Key(Key::Touch, true));
    } else if i == n && pressure <= 0 {
        assert(r.len() == 7 && r[5] == DeviceEvent::Key(Key::Touch, false));
    } else {
        assert(r.len() == 6);
    }
}

/// Law: each stroke sample puts the pen at (`x`, `y`) with the sample's
/// pressure, held upright (both tilts 0).
pub proof fn lemma_stroke_sample_values(x: i32, y: i32, pressure: i32, i: i32, n: i32, initial: int)
    ensures
        ({
            let r = spec_stroke_sample(x, y, pressure, i, n);
            &&& axis_value(r, Axis::X, initial) == x
            &&& axis_value(r, Axis::Y, initial) == y
            &&& axis_value(r, Axis::Pressure, initial) == pressure
            &&& axis_value(r, Axis::TiltX, initial) == 0
            &&& axis_value(r, Axis::TiltY, initial) == 0
        }),
{
    reveal_with_fuel(axis_value_upto, 8);
    let r = spec_stroke_sample(x, y, pressure, i, n);
    if i == 1 && pressure > 0 {
        assert(r.len() == 7 && r[5] == DeviceEvent::Key(Key::Touch, true));
    } else if i == n && pressure <= 0 {
        assert(r.len() == 7 && r[5] == DeviceEvent::Key(Key::Touch, false));
    } else {
        assert(r.len() == 6);
    }
}

/// Law: the pinch gives slot 0 and slot 1 their contact ids, and the
/// release that follows frees both slots.
pub proof fn lemma_pinch_slots(id0: i32, id1: i32, x: i32, y: i32, initial_slot: int, initial_id: int)
    ensures
        mt_tracking_id(spec_pinch_down(id0, id1, x, y), 0, initial_slot, initial_id) == id0,
        mt_tracking_id(spec_pinch_down(id0, id1, x, y), 1, initial_slot, initial_id) == id1,
        mt_tracking_id(spec_pinch_down(id0, id1, x, y) + spec_pinch_release(), 0, initial_slot, initial_id) == -1,
        mt_tracking_id(spec_pinch_down(id0, id1, x, y) + spec_pinch_release(), 1, initial_slot, initial_id) == -1,
        axis_value(spec_pinch_down(id0, id1, x, y), Axis::X, initial_id) == x,
        axis_value(spec_pinch_down(id0, id1, x, y), Axis::Y, initial_id) == y,
{
    reveal_with_fuel(axis_value_upto, 18);
    reveal_with_fuel(mt_slot_upto, 18);
    reveal_with_fuel(mt_tracking_id_upto, 18);
    let down = spec_pinch_down(id0, id1, x, y);
    let up = spec_pinch_release();
    lemma_mt_tracking_id_append(down, up, 0, initial_slot, initial_id);
    lemma_mt_tracking_id_append(down, up, 1, initial_slot, initial_id);
}

/// Law: the pinch lands both fingers at (`x`, `y`): slot 0 and slot 1 each
/// hold that position, the scripted contact size 200 and pressure 100,
/// whatever they held before.
pub proof fn lemma_pinch_down_contacts(id0: i32, id1: i32, x: i32, y: i32, initial_slot: int, initial: int)
    ensures
        mt_value(spec_pinch_down(id0, id1, x, y), 0, Axis::MtPositionX, initial_slot, initial) == x,
        mt_value(spec_pinch_down(id0, id1, x, y), 0, Axis::MtPositionY, initial_slot, initial) == y,
        mt_value(spec_pinch_down(id0, id1, x, y), 1, Axis::MtPositionX, initial_slot, initial) == x,
        mt_value(spec_pinch_down(id0, id1, x, y), 1, Axis::MtPositionY, initial_slot, initial) == y,
        mt_value(spec_pinch_down(id0, id1, x, y), 0, Axis::MtTouchMajor, initial_slot, initial) == 200,
        mt_value(spec_pinch_down(id0, id1, x, y), 1, Axis::MtTouchMajor, initial_slot, initial) == 200,
        mt_value(spec_pinch_down(id0, id1, x, y), 0, Axis::MtPressure, initial_slot, initial) == 100,
        mt_value(spec_pinch_down(id0, id1, x, y), 1, Axis::MtPressure, initial_slot, initial) == 100,
{
    reveal_with_fuel(mt_slot_upto, 18);
    reveal_with_fuel(mt_value_upto, 18);
}

/// Law: a pinch move puts the finger in slot 0 at `x0` and the finger in
/// slot 1 at `x1`, and leaves their vertical positions as they were.
pub proof fn lemma_pinch_move_contacts(x0: i32, x1: i32, initial_slot: int, initial: int)
    ensures
        mt_value(spec_pinch_move(x0, x1), 0, Axis::MtPositionX, initial_slot, initial) == x0,
        mt_value(spec_pinch_move(x0, x1), 1, Axis::MtPositionX, initial_slot, initial) == x1,
        mt_value(spec_pinch_move(x0, x1), 0, Axis::MtPositionY, initial_slot, initial) == initial,
        mt_value(spec_pinch_move(x0, x1), 1, Axis::MtPositionY, initial_slot, initial) == initial,
{
    reveal_with_fuel(mt_slot_upto, 7);
    reveal_with_fuel(mt_value_upto, 7);
}

/// Law: the scripted pen enters proximity with the pen tool held and
/// names itself by its serial, and leaving proximity releases the tool
/// again.
pub proof fn lemma_proximity_in_then_out(serial: i32, initial: bool, initial_serial: int)
    ensures
        key_state(spec_proximity_in(serial), Key::ToolPen, initial),
        !key_state(spec_proximity_in(serial) + spec_proximity_out(), Key::ToolPen, initial),
        is_complete_report(spec_proximity_in(serial)),
        is_complete_report(spec_proximity_out()),
        serial_value(spec_proximity_in(serial), initial_serial) == serial,
{
    reveal_with_fuel(key_state_upto, 4);
    reveal_with_fuel(serial_value_upto, 4);
    lemma_key_state_append(spec_proximity_in(serial), spec_proximity_out(), Key::ToolPen, initial);
}

/// Law: the scripted pinch keeps the touch keys in agreement with its
/// contacts: two after it lands, none after it lifts.
pub proof fn lemma_pinch_keys_follow_contacts(id0: i32, id1: i32, x: i32, y: i32)
    ensures
        keys_match_contacts(spec_pinch_down(id0, id1, x, y), 2),
        keys_match_contacts(spec_pinch_down(id0, id1, x, y) + spec_pinch_release(), 0),
{
    reveal_with_fuel(key_state_upto, 18);
    let down = spec_pinch_down(id0, id1, x, y);
    let up = spec_pinch_release();
    assert forall|k: Key| is_count_key(k) implies #[trigger] key_state(down, k, false) == (
    spec_count_key(2) == Some(k)) by {}
    assert forall|k: Key| #[trigger] key_state(down + up, k, false) == key_state(up, k, key_state(down, k, false)) by {
        lemma_key_state_append(down, up, k, false);
    }
    assert forall|k: Key| is_count_key(k) implies #[trigger] key_state(down + up, k, false) == (
    spec_count_key(0) == Some(k)) by {
        assert(key_state(down + up, k, false) == key_state(up, k, key_state(down, k, false)));
    }
    assert(key_state(down + up, Key::Touch, false) == key_state(up, Key::Touch, key_state(down, Key::Touch, false)));
}

/// Law: the single-touch axis of a pinch move follows the finger in
/// slot 0.
pub proof fn lemma_pinch_move_follows_slot_zero(x0: i32, x1: i32, initial: int)
    ensures
        axis_value(spec_pinch_move(x0, x1), Axis::X, initial) == x0,
        mt_slot(spec_pinch_move(x0, x1), initial) == 1,
{
    reveal_with_fuel(axis_value_upto, 7);
    reveal_with_fuel(mt_slot_upto, 7);
}

/// How udev classifies an input device.
#[derive(PartialEq, Eq, Structural)]
pub enum InputClass {
    /// A pen tablet on a screen (`ID_INPUT_TABLET`).
    Tablet,
    /// A touchscreen (`ID_INPUT_TOUCHSCREEN`).
    Touchscreen,
    /// A touchpad (`ID_INPUT_TOUCHPAD`).
    Touchpad,
    /// Anything else.
    Other,
}

/// The decision tree udev applies: a pen tool on a direct device is a
/// tablet; multitouch slots on a direct device without a pen tool are a
/// touchscreen; slots on an indirect device are a touchpad.
pub open spec fn spec_input_class(caps: DeviceCaps) -> InputClass {
    let pen = caps.keys.contains(Key::ToolPen);
    let slots = declares_axis(caps.axes, Axis::MtSlot);
    if pen && caps.direct {
        InputClass::Tablet
    } else if slots && caps.direct {
        InputClass::Touchscreen
    } else if slots {
        InputClass::Touchpad
    } else {
        InputClass::Other
    }
}

/// Law: the pen device is classified as a tablet and the touch device as
/// a touchscreen, and their product ids differ, so they stay two devices.
pub proof fn lemma_device_classes(g: Geometry)
    ensures
        spec_input_class(spec_pen_caps(g)) == InputClass::Tablet,
        spec_input_class(spec_touch_caps(g)) == InputClass::Touchscreen,
        spec_pen_caps(g).product != spec_touch_caps(g).product,
{
    let pen = spec_pen_caps(g);
    let touch = spec_touch_caps(g);
    assert(pen.keys[0] == Key::ToolPen);
    assert(touch.axes[2].axis == Axis::MtSlot);
    assert(!touch.keys.contains(Key::ToolPen)) by {
        if touch.keys.contains(Key::ToolPen) {
            let i = choose|i: int| 0 <= i < touch.keys.len() && touch.keys[i] == Key::ToolPen;
            assert(0 <= i < 6);
        }
    }
}

/// Law: the pen declares exactly five axes, carrying the geometry: X over
/// `0..=width-1` and Y over `0..=height-1` at 12 units per millimetre,
/// pressure over `0..=pressure_max`, and each tilt over -90..=90 degrees;
/// exactly the pen tool, eraser, tip and two barrel buttons as keys; every
/// event kind, the serial among them; and its own ids.
pub proof fn lemma_pen_declarations(g: Geometry)
    requires
        pen_geometry_ok(g),
    ensures
        spec_pen_caps(g).axes == spec_abs_pen(g),
        spec_abs_pen(g).len() == 5,
        declares_range(spec_abs_pen(g), Axis::X, 0, g.width - 1, 12),
        declares_range(spec_abs_pen(g), Axis::Y, 0, g.height - 1, 12),
        declares_range(spec_abs_pen(g), Axis::Pressure, 0, g.pressure_max as int, 0),
        declares_range(spec_abs_pen(g), Axis::TiltX, -90, 90, 0),
        declares_range(spec_abs_pen(g), Axis::TiltY, -90, 90, 0),
        forall|k: Key|
            spec_pen_caps(g).keys.contains(k) <==> (k == Key::ToolPen || k == Key::ToolRubber || k
                == Key::Touch || k == Key::Stylus || k == Key::Stylus2),
        spec_pen_caps(g).misc_serial,
        spec_pen_caps(g).direct,
        forall|e: EventKind| spec_pen_caps(g).event_kinds.contains(e),
        spec_pen_caps(g).vendor == 0x04e8 && spec_pen_caps(g).product == 0x4d42,
        spec_pen_caps(g).name == "MoonBeam Pen"@,
{
    let axes = spec_abs_pen(g);
    assert(axes[0].axis == Axis::X);
    assert(axes[1].axis == Axis::Y);
    assert(axes[2].axis == Axis::Pressure);
    assert(axes[3].axis == Axis::TiltX);
    assert(axes[4].axis == Axis::TiltY);
    let kinds = spec_pen_caps(g).event_kinds;
    assert forall|e: EventKind| kinds.contains(e) by {
        if e == EventKind::Key {
            assert(kinds[0] == e);
        } else if e == EventKind::Absolute {
            assert(kinds[1] == e);
        } else if e == EventKind::Synchronize {
            assert(kinds[2] == e);
        } else {
            assert(kinds[3] == e);
        }
    }
    let keys = spec_pen_caps(g).keys;
    assert forall|k: Key| keys.contains(k) <==> (k == Key::ToolPen || k == Key::ToolRubber || k
        == Key::Touch || k == Key::Stylus || k == Key::Stylus2) by {
        if k == Key::ToolPen {
            assert(keys[0] == k);
        } else if k == Key::ToolRubber {
            assert(keys[1] == k);
        } else if k == Key::Touch {
            assert(keys[2] == k);
        } else if k == Key::Stylus {
            assert(keys[3] == k);
        } else if k == Key::Stylus2 {
            assert(keys[4] == k);
        }
    }
}

/// Law: the touch device declares exactly eight axes, carrying the
/// geometry: X and the per-contact X over `0..=width-1`, Y and the
/// per-contact Y over `0..=height-1`, slots `0..=slots-1`, contact ids up
/// to 65535, contact size up to 1024 and pressure up to 255; and exactly
/// `BTN_TOUCH` and the five contact-count keys; every event kind but the
/// serial; and its own ids.
pub proof fn lemma_touch_declarations(g: Geometry)
    requires
        geometry_ok(g),
    ensures
        spec_touch_caps(g).axes == spec_abs_touch(g),
        spec_abs_touch(g).len() == 8,
        declares_range(spec_abs_touch(g), Axis::X, 0, g.width - 1, 12),
        declares_range(spec_abs_touch(g), Axis::Y, 0, g.height - 1, 12),
        declares_range(spec_abs_touch(g), Axis::MtSlot, 0, g.slots - 1, 0),
        declares_range(spec_abs_touch(g), Axis::MtTrackingId, 0, 65535, 0),
        declares_range(spec_abs_touch(g), Axis::MtPositionX, 0, g.width - 1, 12),
        declares_range(spec_abs_touch(g), Axis::MtPositionY, 0, g.height - 1, 12),
        declares_range(spec_abs_touch(g), Axis::MtTouchMajor, 0, 1024, 12),
        declares_range(spec_abs_touch(g), Axis::MtPressure, 0, 255, 0),
        forall|k: Key| spec_touch_caps(g).keys.contains(k) <==> (k == Key::Touch || is_count_key(k)),
        !spec_touch_caps(g).misc_serial,
        spec_touch_caps(g).direct,
        forall|e: EventKind| spec_touch_caps(g).event_kinds.contains(e) <==> e != EventKind::Misc,
        spec_touch_caps(g).vendor == 0x04e8 && spec_touch_caps(g).product == 0x4d54,
        spec_touch_caps(g).name == "MoonBeam Touch"@,
{
    let axes = spec_abs_touch(g);
    assert(axes[0].axis == Axis::X);
    assert(axes[1].axis == Axis::Y);
    assert(axes[2].axis == Axis::MtSlot);
    assert(axes[3].axis == Axis::MtTrackingId);
    assert(axes[4].axis == Axis::MtPositionX);
    assert(axes[5].axis == Axis::MtPositionY);
    assert(axes[6].axis == Axis::MtTouchMajor);
    assert(axes[7].axis == Axis::MtPressure);
    let kinds = spec_touch_caps(g).event_kinds;
    assert forall|e: EventKind| kinds.contains(e) <==> e != EventKind::Misc by {
        if e == EventKind::Key {
            assert(kinds[0] == e);
        } else if e == EventKind::Absolute {
            assert(kinds[1] == e);
        } else if e == EventKind::Synchronize {
            assert(kinds[2] == e);
        } else if kinds.contains(e) {
            let i = choose|i: int| 0 <= i < kinds.len() && kinds[i] == e;
            assert(0 <= i < 3);
        }
    }
    let keys = spec_touch_caps(g).keys;
    assert forall|k: Key| keys.contains(k) <==> (k == Key::Touch || is_count_key(k)) by {
        if k == Key::Touch {
            assert(keys[0] == k);
        } else if k == Key::ToolFinger {
            assert(keys[1] == k);
        } else if k == Key::ToolDoubleTap {
            assert(keys[2] == k);
        } else if k == Key::ToolTripleTap {
            assert(keys[3] == k);
        } else if k == Key::ToolQuadTap {
            assert(keys[4] == k);
        } else if k == Key::ToolQuintTap {
            assert(keys[5] == k);
        }
    }
}

} // verus!
