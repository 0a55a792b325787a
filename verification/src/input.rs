//! Input messages from the tablet and the kernel input reports they become.
//!
//! Each message is one self-contained event; it becomes one complete
//! report for the pen device or the touch device, ending with a
//! synchronisation marker.
use vstd::prelude::*;

verus! {

/// Serial number reported with the pen tool (`MSC_SERIAL`).
pub const PEN_SERIAL: i32 = 0xC0FFEE;

/// Tracking id that marks a multitouch slot as released.
pub const RELEASED_TRACKING_ID: i32 = -1;

/// Key and button codes used by the virtual devices.
#[derive(Clone, Copy, Debug, PartialEq, Eq, Structural)]
pub enum Key {
    /// `BTN_TOOL_PEN`: the pen is in proximity.
    ToolPen,
    /// `BTN_TOOL_RUBBER`: the eraser end is in proximity.
    ToolRubber,
    /// `BTN_TOUCH`: tip or finger on the glass.
    Touch,
    /// `BTN_STYLUS`: primary pen button.
    Stylus,
    /// `BTN_STYLUS2`: secondary pen button.
    Stylus2,
    /// `BTN_TOOL_FINGER`: one finger.
    ToolFinger,
    /// `BTN_TOOL_DOUBLETAP`: two fingers.
    ToolDoubleTap,
    /// `BTN_TOOL_TRIPLETAP`: three fingers.
    ToolTripleTap,
    /// `BTN_TOOL_QUADTAP`: four fingers.
    ToolQuadTap,
    /// `BTN_TOOL_QUINTTAP`: five fingers.
    ToolQuintTap,
}

/// Absolute axes used by the virtual devices.
#[derive(Clone, Copy, Debug, PartialEq, Eq, Structural)]
pub enum Axis {
    /// `ABS_X`.
    X,
    /// `ABS_Y`.
    Y,
    /// `ABS_PRESSURE`.
    Pressure,
    /// `ABS_TILT_X`.
    TiltX,
    /// `ABS_TILT_Y`.
    TiltY,
    /// `ABS_MT_SLOT`: selects the slot that later `ABS_MT_*` values address.
    MtSlot,
    /// `ABS_MT_TRACKING_ID`: contact id of the selected slot, -1 on release.
    MtTrackingId,
    /// `ABS_MT_POSITION_X`.
    MtPositionX,
    /// `ABS_MT_POSITION_Y`.
    MtPositionY,
    /// `ABS_MT_TOUCH_MAJOR`.
    MtTouchMajor,
    /// `ABS_MT_PRESSURE`.
    MtPressure,
}

/// One event written to a virtual device.
#[derive(Clone, Copy, Debug, PartialEq, Eq, Structural)]
pub enum DeviceEvent {
    /// `MSC_SERIAL` with the tool's serial.
    MiscSerial(i32),
    /// A key or button, pressed (`true`) or released (`false`).
    Key(Key, bool),
    /// A new value on an absolute axis.
    Abs(Axis, i32),
    /// `SYN_REPORT`: ends a report.
    SynReport,
}

/// The two virtual devices.
#[derive(Clone, Copy, Debug, PartialEq, Eq, Structural)]
pub enum Device {
    /// The pressure- and tilt-sensitive pen.
    Pen,
    /// The multitouch screen.
    Touch,
}

/// Pen barrel buttons.
#[derive(Clone, Copy, Debug, PartialEq, Eq, Structural)]
pub enum PenButton {
    /// The primary button.
    Stylus,
    /// The secondary button.
    Stylus2,
}

/// One input message sent by the tablet.
#[derive(Clone, Copy, Debug, PartialEq, Eq, Structural)]
pub enum InputMsg {
    /// The pen touches the glass.
    PenDown { x: i32, y: i32, pressure: i32, tilt_x: i32, tilt_y: i32 },
    /// The pen moves while touching.
    PenMove { x: i32, y: i32, pressure: i32, tilt_x: i32, tilt_y: i32 },
    /// The pen leaves the glass and proximity.
    PenUp,
    /// A barrel button changes state.
    PenButton { button: PenButton, state: bool },
    /// A finger touches down in `slot` with contact id `id`.
    TouchDown { slot: i32, id: i32, x: i32, y: i32, major: i32, pressure: i32 },
    /// The finger in `slot` moves.
    TouchMove { slot: i32, x: i32, y: i32, major: i32, pressure: i32 },
    /// The finger in `slot` lifts.
    TouchUp { slot: i32 },
}

/// Contact major axis used when a touch message leaves it out.
pub fn default_major() -> (r: i32)
    ensures
        r == 200,
{
    200
}

/// Touch pressure used when a touch message leaves it out.
pub fn default_pressure() -> (r: i32)
    ensures
        r == 100,
{
    100
}

/// The key a pen barrel button reports.
pub open spec fn spec_button_key(button: PenButton) -> Key {
    match button {
        PenButton::Stylus => Key::Stylus,
        PenButton::Stylus2 => Key::Stylus2,
    }
}

/// The device a message is written to.
pub open spec fn spec_device(msg: InputMsg) -> Device {
    match msg {
        InputMsg::PenDown { .. } | InputMsg::PenMove { .. } | InputMsg::PenUp
        | InputMsg::PenButton { .. } => Device::Pen,
        _ => Device::Touch,
    }
}

/// The contact-count key held while `n` slots are active: one finger,
/// two, three, four, and five or more; none without contacts.
pub open spec fn spec_count_key(n: nat) -> Option<Key> {
    if n == 0 {
        None
    } else if n == 1 {
        Some(Key::ToolFinger)
    } else if n == 2 {
        Some(Key::ToolDoubleTap)
    } else if n == 3 {
        Some(Key::ToolTripleTap)
    } else if n == 4 {
        Some(Key::ToolQuadTap)
    } else {
        Some(Key::ToolQuintTap)
    }
}

/// `BTN_TOUCH` when the number of contacts goes from `before` to `after`:
/// pressed when the first contact lands, released when the last lifts.
pub open spec fn spec_touch_edge(before: nat, after: nat) -> Seq<DeviceEvent> {
    if before == 0 && after > 0 {
        seq![DeviceEvent::Key(Key::Touch, true)]
    } else if before > 0 && after == 0 {
        seq![DeviceEvent::Key(Key::Touch, false)]
    } else {
        seq![]
    }
}

/// The contact-count keys when the count goes from `before` to `after`:
/// the old key is released and the new one pressed, when they differ.
pub open spec fn spec_count_changes(before: nat, after: nat) -> Seq<DeviceEvent> {
    if spec_count_key(before) == spec_count_key(after) {
        seq![]
    } else {
        (match spec_count_key(before) {
            Some(k) => seq![DeviceEvent::Key(k, false)],
            None => seq![],
        }) + (match spec_count_key(after) {
            Some(k) => seq![DeviceEvent::Key(k, true)],
            None => seq![],
        })
    }
}

/// The key events of a touch report whose message takes the number of
/// contacts from `before` to `after`.
pub open spec fn spec_key_changes(before: nat, after: nat) -> Seq<DeviceEvent> {
    spec_touch_edge(before, after) + spec_count_changes(before, after)
}

/// The report a message becomes, in the order the events are written,
/// when the touch device has `before` contacts before it and `after`
/// after it (pen reports do not depend on them).
pub open spec fn spec_report(msg: InputMsg, serial: i32, before: nat, after: nat) -> Seq<
    DeviceEvent,
> {
    match msg {
        InputMsg::PenDown { x, y, pressure, tilt_x, tilt_y } => seq![
            DeviceEvent::MiscSerial(serial),
            DeviceEvent::Key(Key::ToolPen, true),
            DeviceEvent::Abs(Axis::X, x),
            DeviceEvent::Abs(Axis::Y, y),
            DeviceEvent::Abs(Axis::Pressure, pressure),
            DeviceEvent::Abs(Axis::TiltX, tilt_x),
            DeviceEvent::Abs(Axis::TiltY, tilt_y),
            DeviceEvent::Key(Key::Touch, true),
            DeviceEvent::SynReport,
        ],
        InputMsg::PenMove { x, y, pressure, tilt_x, tilt_y } => seq![
            DeviceEvent::Abs(Axis::X, x),
            DeviceEvent::Abs(Axis::Y, y),
            DeviceEvent::Abs(Axis::Pressure, pressure),
            DeviceEvent::Abs(Axis::TiltX, tilt_x),
            DeviceEvent::Abs(Axis::TiltY, tilt_y),
            DeviceEvent::SynReport,
        ],
        InputMsg::PenUp => seq![
            DeviceEvent::Key(Key::Touch, false),
            DeviceEvent::Abs(Axis::Pressure, 0),
            DeviceEvent::Key(Key::ToolPen, false),
            DeviceEvent::SynReport,
        ],
        InputMsg::PenButton { button, state } => seq![
            DeviceEvent::Key(spec_button_key(button), state),
            DeviceEvent::SynReport,
        ],
        InputMsg::TouchDown { slot, id, x, y, major, pressure } => seq![
            DeviceEvent::Abs(Axis::MtSlot, slot),
            DeviceEvent::Abs(Axis::MtTrackingId, id),
            DeviceEvent::Abs(Axis::MtPositionX, x),
            DeviceEvent::Abs(Axis::MtPositionY, y),
            DeviceEvent::Abs(Axis::MtTouchMajor, major),
            DeviceEvent::Abs(Axis::MtPressure, pressure),
        ] + spec_key_changes(before, after) + seq![
            DeviceEvent::Abs(Axis::X, x),
            DeviceEvent::Abs(Axis::Y, y),
            DeviceEvent::SynReport,
        ],
        InputMsg::TouchMove { slot, x, y, major, pressure } => seq![
            DeviceEvent::Abs(Axis::MtSlot, slot),
            DeviceEvent::Abs(Axis::MtPositionX, x),
            DeviceEvent::Abs(Axis::MtPositionY, y),
            DeviceEvent::Abs(Axis::MtTouchMajor, major),
            DeviceEvent::Abs(Axis::MtPressure, pressure),
            DeviceEvent::Abs(Axis::X, x),
            DeviceEvent::Abs(Axis::Y, y),
            DeviceEvent::SynReport,
        ],
        InputMsg::TouchUp { slot } => seq![
            DeviceEvent::Abs(Axis::MtSlot, slot),
            DeviceEvent::Abs(Axis::MtTrackingId, RELEASED_TRACKING_ID),
        ] + spec_key_changes(before, after) + seq![DeviceEvent::SynReport],
    }
}

/// Whether `slot` holds a contact after `msg`, given whether it held one
/// before: a touch-down on it lands one, a touch-up on it lifts it.
pub open spec fn spec_slot_active_after(was_active: bool, msg: InputMsg, slot: i32) -> bool {
    match msg {
        InputMsg::TouchDown { slot: s, .. } => was_active || s == slot,
        InputMsg::TouchUp { slot: s } => was_active && s != slot,
        _ => was_active,
    }
}

/// The number of contacts after `msg`, given the number `n` before and
/// whether the message's own slot held a contact.
pub open spec fn spec_count_after(n: nat, own_slot_active: bool, msg: InputMsg) -> nat {
    match msg {
        InputMsg::TouchDown { .. } => if own_slot_active {
            n
        } else {
            n + 1
        },
        InputMsg::TouchUp { .. } => if own_slot_active {
            (n - 1) as nat
        } else {
            n
        },
        _ => n,
    }
}

/// The slot a touch message is about, if it is one.
pub open spec fn spec_msg_slot(msg: InputMsg) -> Option<i32> {
    match msg {
        InputMsg::TouchDown { slot, .. } => Some(slot),
        InputMsg::TouchMove { slot, .. } => Some(slot),
        InputMsg::TouchUp { slot } => Some(slot),
        _ => None,
    }
}

/// The key a pen barrel button reports.
pub fn button_key(button: PenButton) -> (k: Key)
    ensures
        k == spec_button_key(button),
        button == PenButton::Stylus ==> k == Key::Stylus,
        button == PenButton::Stylus2 ==> k == Key::Stylus2,
{
    match button {
        PenButton::Stylus => Key::Stylus,
        PenButton::Stylus2 => Key::Stylus2,
    }
}

/// The device a message is written to.
pub fn device_of(msg: &InputMsg) -> (d: Device)
    ensures
        d == spec_device(*msg),
        d == Device::Pen <==> (*msg is PenDown || *msg is PenMove || *msg is PenUp
            || *msg is PenButton),
        d == Device::Touch <==> (*msg is TouchDown || *msg is TouchMove || *msg is TouchUp),
{
    match *msg {
        InputMsg::PenDown { .. } | InputMsg::PenMove { .. } | InputMsg::PenUp
        | InputMsg::PenButton { .. } => Device::Pen,
        _ => Device::Touch,
    }
}

/// Turns a pen message into the complete report written to the pen
/// device; `serial` identifies the pen tool.
pub fn pen_report(msg: &InputMsg, serial: i32) -> (r: Vec<DeviceEvent>)
    requires
        spec_device(*msg) == Device::Pen,
    ensures
        r@ == spec_report(*msg, serial, 0, 0),
{
    match *msg {
        InputMsg::PenDown { x, y, pressure, tilt_x, tilt_y } => vec![
            DeviceEvent::MiscSerial(serial),
            DeviceEvent::Key(Key::ToolPen, true),
            DeviceEvent::Abs(Axis::X, x),
            DeviceEvent::Abs(Axis::Y, y),
            DeviceEvent::Abs(Axis::Pressure, pressure),
            DeviceEvent::Abs(Axis::TiltX, tilt_x),
            DeviceEvent::Abs(Axis::TiltY, tilt_y),
            DeviceEvent::Key(Key::Touch, true),
            DeviceEvent::SynReport,
        ],
        InputMsg::PenMove { x, y, pressure, tilt_x, tilt_y } => vec![
            DeviceEvent::Abs(Axis::X, x),
            DeviceEvent::Abs(Axis::Y, y),
            DeviceEvent::Abs(Axis::Pressure, pressure),
            DeviceEvent::Abs(Axis::TiltX, tilt_x),
            DeviceEvent::Abs(Axis::TiltY, tilt_y),
            DeviceEvent::SynReport,
        ],
        InputMsg::PenUp => vec![
            DeviceEvent::Key(Key::Touch, false),
            DeviceEvent::Abs(Axis::Pressure, 0),
            DeviceEvent::Key(Key::ToolPen, false),
            DeviceEvent::SynReport,
        ],
        InputMsg::PenButton { button, state } => vec![
            DeviceEvent::Key(button_key(button), state),
            DeviceEvent::SynReport,
        ],
        _ => {
            assert(false);
            vec![]
        },
    }
}

/// The contact-count key held while `n` slots are active.
pub fn count_key(n: usize) -> (k: Option<Key>)
    ensures
        k == spec_count_key(n as nat),
        n == 0 <==> k is None,
        n == 1 ==> k == Some(Key::ToolFinger),
        n == 2 ==> k == Some(Key::ToolDoubleTap),
        n == 3 ==> k == Some(Key::ToolTripleTap),
        n == 4 ==> k == Some(Key::ToolQuadTap),
        n >= 5 ==> k == Some(Key::ToolQuintTap),
{
    if n == 0 {
        None
    } else if n == 1 {
        Some(Key::ToolFinger)
    } else if n == 2 {
        Some(Key::ToolDoubleTap)
    } else if n == 3 {
        Some(Key::ToolTripleTap)
    } else if n == 4 {
        Some(Key::ToolQuadTap)
    } else {
        Some(Key::ToolQuintTap)
    }
}

/// Appends the key events for a change from `before` to `after` contacts.
fn push_key_changes(events: &mut Vec<DeviceEvent>, before: usize, after: usize)
    ensures
        final(events)@ == old(events)@ + spec_key_changes(before as nat, after as nat),
{
    let ghost start = events@;
    if before == 0 && after > 0 {
        events.push(DeviceEvent::Key(Key::Touch, true));
    } else if before > 0 && after == 0 {
        events.push(DeviceEvent::Key(Key::Touch, false));
    }
    let ghost mid = events@;
    assert(mid == start + spec_touch_edge(before as nat, after as nat));
    let old_key = count_key(before);
    let new_key = count_key(after);
    if old_key != new_key {
        match old_key {
            Some(k) => events.push(DeviceEvent::Key(k, false)),
            None => {},
        }
        match new_key {
            Some(k) => events.push(DeviceEvent::Key(k, true)),
            None => {},
        }
    }
    assert(events@ =~= mid + spec_count_changes(before as nat, after as nat));
    assert(events@ =~= start + spec_key_changes(before as nat, after as nat));
}

/// The slots of the touch device that hold a contact.
#[derive(Debug)]
pub struct TouchState {
    active: Vec<i32>,
}

impl TouchState {
    /// No slot is listed twice.
    pub closed spec fn wf(&self) -> bool {
        self.active@.no_duplicates()
    }

    /// Whether `slot` holds a contact.
    pub closed spec fn is_active(&self, slot: i32) -> bool {
        self.active@.contains(slot)
    }

    /// The number of slots that hold a contact.
    pub closed spec fn count(&self) -> nat {
        self.active@.len()
    }

    /// There is a contact exactly when some slot holds one.
    pub proof fn lemma_count_positive_iff_active(&self)
        ensures
            (self.count() > 0) == (exists|slot: i32| self.is_active(slot)),
    {
        if self.count() > 0 {
            assert(self.is_active(self.active@[0]));
        }
    }

    /// No contact on the glass.
    pub fn new() -> (s: TouchState)
        ensures
            s.wf(),
            s.count() == 0,
            forall|slot: i32| !s.is_active(slot),
    {
        TouchState { active: Vec::new() }
    }

    /// The number of slots that hold a contact.
    pub fn active_count(&self) -> (n: usize)
        ensures
            n == self.count(),
    {
        self.active.len()
    }

    /// Where `slot` is listed, if it holds a contact.
    fn find(&self, slot: i32) -> (r: Option<usize>)
        ensures
            r matches Some(i) ==> i < self.active@.len() && self.active@[i as int] == slot,
            r is None ==> !self.active@.contains(slot),
    {
        let n = self.active.len();
        let mut i: usize = 0;
        while i < n
            invariant
                0 <= i <= n,
                n == self.active@.len(),
                forall|j: int| 0 <= j < i ==> self.active@[j] != slot,
            decreases n - i,
        {
            if self.active[i] == slot {
                return Some(i);
            }
            i = i + 1;
        }
        None
    }

    /// Whether `slot` holds a contact.
    pub fn slot_active(&self, slot: i32) -> (b: bool)
        ensures
            b == self.is_active(slot),
    {
        self.find(slot).is_some()
    }

    /// Turns a touch message into the complete report written to the touch
    /// device, and records which slots hold a contact afterwards.
    /// `BTN_TOUCH` is pressed only when the first contact lands and
    /// released only when the last one lifts, and the contact-count keys
    /// change so that the key for the new number of contacts is the one
    /// held.
    pub fn report(&mut self, msg: &InputMsg) -> (r: Vec<DeviceEvent>)
        requires
            old(self).wf(),
            spec_device(*msg) == Device::Touch,
        ensures
            final(self).wf(),
            forall|slot: i32|
                #[trigger] final(self).is_active(slot) == spec_slot_active_after(
                    old(self).is_active(slot),
                    *msg,
                    slot,
                ),
            final(self).count() == spec_count_after(
                old(self).count(),
                old(self).is_active(spec_msg_slot(*msg)->0),
                *msg,
            ),
            r@ == spec_report(*msg, 0, old(self).count(), final(self).count()),
            *msg matches InputMsg::TouchDown { slot, .. } ==> final(self).is_active(slot)
                && final(self).count() == old(self).count() + (if old(self).is_active(slot) {
                0int
            } else {
                1int
            }),
            *msg matches InputMsg::TouchUp { slot } ==> !final(self).is_active(slot)
                && final(self).count() == old(self).count() - (if old(self).is_active(slot) {
                1int
            } else {
                0int
            }),
            *msg is TouchMove ==> final(self).count() == old(self).count(),
            forall|other: i32|
                (spec_msg_slot(*msg) != Some(other) || *msg is TouchMove)
                    ==> #[trigger] final(self).is_active(other) == old(self).is_active(other),
    {
        let before = self.active.len();
        match *msg {
            InputMsg::TouchDown { slot, id, x, y, major, pressure } => {
                if self.find(slot).is_none() {
                    self.active.push(slot);
                    proof {
                        assert forall|a: int, b: int|
                            0 <= a < b < self.active@.len() implies self.active@[a]
                            != self.active@[b] by {
                            if b == self.active@.len() - 1 {
                                assert(old(self).active@.contains(old(self).active@[a]));
                            }
                        }
                        assert forall|s: i32| #[trigger]
                            self.active@.contains(s) == (old(self).active@.contains(s) || s
                                == slot) by {
                            if old(self).active@.contains(s) {
                                let j = choose|j: int|
                                    0 <= j < old(self).active@.len() && old(self).active@[j] == s;
                                assert(self.active@[j] == s);
                            }
                            if self.active@.contains(s) {
                                let j = choose|j: int|
                                    0 <= j < self.active@.len() && self.active@[j] == s;
                                if j < old(self).active@.len() {
                                    assert(old(self).active@[j] == s);
                                }
                            }
                            if s == slot {
                                assert(self.active@[self.active@.len() - 1] == slot);
                            }
                        }
                    }
                }
                let after = self.active.len();
                let mut events = vec![
                    DeviceEvent::Abs(Axis::MtSlot, slot),
                    DeviceEvent::Abs(Axis::MtTrackingId, id),
                    DeviceEvent::Abs(Axis::MtPositionX, x),
                    DeviceEvent::Abs(Axis::MtPositionY, y),
                    DeviceEvent::Abs(Axis::MtTouchMajor, major),
                    DeviceEvent::Abs(Axis::MtPressure, pressure),
                ];
                push_key_changes(&mut events, before, after);
                events.push(DeviceEvent::Abs(Axis::X, x));
                events.push(DeviceEvent::Abs(Axis::Y, y));
                events.push(DeviceEvent::SynReport);
                proof {
                    assert(events@ =~= spec_report(*msg, 0, before as nat, after as nat));
                }
                events
            },
            InputMsg::TouchMove { slot, x, y, major, pressure } => {
                vec![
                    DeviceEvent::Abs(Axis::MtSlot, slot),
                    DeviceEvent::Abs(Axis::MtPositionX, x),
                    DeviceEvent::Abs(Axis::MtPositionY, y),
                    DeviceEvent::Abs(Axis::MtTouchMajor, major),
                    DeviceEvent::Abs(Axis::MtPressure, pressure),
                    DeviceEvent::Abs(Axis::X, x),
                    DeviceEvent::Abs(Axis::Y, y),
                    DeviceEvent::SynReport,
                ]
            },
            InputMsg::TouchUp { slot } => {
                match self.find(slot) {
                    Some(i) => {
                        let ghost prev = self.active@;
                        self.active.remove(i);
                        proof {
                            prev.remove_ensures(i as int);
                            assert forall|a: int, b: int|
                                0 <= a < b < self.active@.len() implies self.active@[a]
                                != self.active@[b] by {
                                let pa = if a < i { a } else { a + 1 };
                                let pb = if b < i { b } else { b + 1 };
                                assert(self.active@[a] == prev[pa]);
                                assert(self.active@[b] == prev[pb]);
                            }
                            assert forall|s: i32| #[trigger]
                                self.active@.contains(s) == (prev.contains(s) && s != slot) by {
                                if self.active@.contains(s) {
                                    let j = choose|j: int|
                                        0 <= j < self.active@.len() && self.active@[j] == s;
                                    let pj = if j < i { j } else { j + 1 };
                                    assert(prev[pj] == s);
                                    assert(pj != i);
                                }
                                if prev.contains(s) && s != slot {
                                    let j = choose|j: int| 0 <= j < prev.len() && prev[j] == s;
                                    assert(j != i);
                                    if j < i {
                                        assert(self.active@[j] == s);
                                    } else {
                                        assert(self.active@[j - 1] == s);
                                    }
                                }
                            }
                            assert(prev.contains(slot));
                        }
                    },
                    None => {},
                }
                let after = self.active.len();
                let mut events = vec![
                    DeviceEvent::Abs(Axis::MtSlot, slot),
                    DeviceEvent::Abs(Axis::MtTrackingId, RELEASED_TRACKING_ID),
                ];
                push_key_changes(&mut events, before, after);
                events.push(DeviceEvent::SynReport);
                proof {
                    assert(events@ =~= spec_report(*msg, 0, before as nat, after as nat));
                }
                events
            },
            _ => {
                assert(false);
                vec![]
            },
        }
    }
}

} // verus!
