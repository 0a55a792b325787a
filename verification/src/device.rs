//! Capability sets of the virtual pen and touch devices.
//!
//! A device must declare every event kind, key, axis, misc code and
//! property it will ever emit before it is created; afterwards the set is
//! fixed. These functions say exactly what each device declares.
use vstd::prelude::*;
use crate::input::{Axis, Key};

verus! {

/// USB vendor id shared by both devices.
pub const VENDOR_ID: u16 = 0x04e8;

/// Product id of the pen device ("MB").
pub const PEN_PRODUCT_ID: u16 = 0x4d42;

/// Product id of the touch device ("MT").
pub const TOUCH_PRODUCT_ID: u16 = 0x4d54;

/// Version reported by both devices.
pub const DEVICE_VERSION: u16 = 1;

/// Largest contact id the touch device advertises.
pub const MAX_TRACKING_ID: i32 = 65535;

/// Largest contact major axis, in millimetres times resolution.
pub const MAX_TOUCH_MAJOR: i32 = 1024;

/// Largest touch pressure.
pub const MAX_TOUCH_PRESSURE: i32 = 255;

/// Largest pen tilt, in degrees from upright.
pub const MAX_TILT: i32 = 90;

/// Smallest pen tilt, in degrees from upright.
pub const MIN_TILT: i32 = -90;

/// Resolution of the positional axes, in units per millimetre.
pub const POSITION_RESOLUTION: i32 = 12;

/// Event kinds a device may emit.
#[derive(Clone, Copy, Debug, PartialEq, Eq, Structural)]
pub enum EventKind {
    /// `EV_KEY`.
    Key,
    /// `EV_ABS`.
    Absolute,
    /// `EV_SYN`.
    Synchronize,
    /// `EV_MSC`.
    Misc,
}

/// The coordinate space and ranges both devices are created with.
#[derive(Clone, Copy, Debug, PartialEq, Eq, Structural)]
pub struct Geometry {
    /// Width of the coordinate space; X runs from 0 to `width - 1`.
    pub width: i32,
    /// Height of the coordinate space; Y runs from 0 to `height - 1`.
    pub height: i32,
    /// Largest pen pressure.
    pub pressure_max: i32,
    /// Number of multitouch slots; slots run from 0 to `slots - 1`.
    pub slots: i32,
}

/// The pen's ranges are computable: neither the width nor the height, from
/// which one is subtracted, is the smallest `i32`. The pen reads no other
/// field that is subtracted from.
pub open spec fn pen_geometry_ok(g: Geometry) -> bool {
    &&& g.width > i32::MIN
    &&& g.height > i32::MIN
}

/// The touch device's ranges are computable: none of the width, height
/// and slot count, from which one is subtracted, is the smallest `i32`.
pub open spec fn geometry_ok(g: Geometry) -> bool {
    &&& pen_geometry_ok(g)
    &&& g.slots > i32::MIN
}

/// Whether the pen's ranges are computable.
pub fn pen_geometry_in_range(g: &Geometry) -> (r: bool)
    ensures
        r == pen_geometry_ok(*g),
{
    g.width > i32::MIN && g.height > i32::MIN
}

/// Whether the touch device's ranges are computable.
pub fn geometry_in_range(g: &Geometry) -> (r: bool)
    ensures
        r == geometry_ok(*g),
{
    g.width > i32::MIN && g.height > i32::MIN && g.slots > i32::MIN
}

/// Range of one absolute axis; its initial value, fuzz and flat are zero.
#[derive(Clone, Copy, Debug, PartialEq, Eq, Structural)]
pub struct AbsSetup {
    pub axis: Axis,
    pub minimum: i32,
    pub maximum: i32,
    pub resolution: i32,
}

/// Everything a device declares before it is created.
#[derive(Debug, PartialEq, Eq)]
pub struct DeviceSpec {
    /// Name shown to userspace.
    pub name: &'static str,
    pub vendor: u16,
    pub product: u16,
    pub version: u16,
    /// Enabled event kinds.
    pub event_kinds: Vec<EventKind>,
    /// Enabled keys and buttons.
    pub keys: Vec<Key>,
    /// Enabled absolute axes with their ranges.
    pub axes: Vec<AbsSetup>,
    /// Whether `MSC_SERIAL` is enabled.
    pub misc_serial: bool,
    /// Whether `INPUT_PROP_DIRECT` is set (the device is the screen).
    pub direct: bool,
}

/// The declarations of a device as mathematical values.
pub struct DeviceCaps {
    pub name: Seq<char>,
    pub vendor: u16,
    pub product: u16,
    pub version: u16,
    pub event_kinds: Seq<EventKind>,
    pub keys: Seq<Key>,
    pub axes: Seq<AbsSetup>,
    pub misc_serial: bool,
    pub direct: bool,
}

impl View for DeviceSpec {
    type V = DeviceCaps;

    open spec fn view(&self) -> DeviceCaps {
        DeviceCaps {
            name: self.name@,
            vendor: self.vendor,
            product: self.product,
            version: self.version,
            event_kinds: self.event_kinds@,
            keys: self.keys@,
            axes: self.axes@,
            misc_serial: self.misc_serial,
            direct: self.direct,
        }
    }
}

/// The range of one axis.
pub open spec fn spec_abs(axis: Axis, minimum: i32, maximum: i32, resolution: i32) -> AbsSetup {
    AbsSetup { axis, minimum, maximum, resolution }
}

/// The axes of the pen device.
pub open spec fn spec_abs_pen(g: Geometry) -> Seq<AbsSetup> {
    seq![
        spec_abs(Axis::X, 0, (g.width - 1) as i32, POSITION_RESOLUTION),
        spec_abs(Axis::Y, 0, (g.height - 1) as i32, POSITION_RESOLUTION),
        spec_abs(Axis::Pressure, 0, g.pressure_max, 0),
        spec_abs(Axis::TiltX, MIN_TILT, MAX_TILT, 0),
        spec_abs(Axis::TiltY, MIN_TILT, MAX_TILT, 0),
    ]
}

/// The axes of the touch device.
pub open spec fn spec_abs_touch(g: Geometry) -> Seq<AbsSetup> {
    seq![
        spec_abs(Axis::X, 0, (g.width - 1) as i32, POSITION_RESOLUTION),
        spec_abs(Axis::Y, 0, (g.height - 1) as i32, POSITION_RESOLUTION),
        spec_abs(Axis::MtSlot, 0, (g.slots - 1) as i32, 0),
        spec_abs(Axis::MtTrackingId, 0, MAX_TRACKING_ID, 0),
        spec_abs(Axis::MtPositionX, 0, (g.width - 1) as i32, POSITION_RESOLUTION),
        spec_abs(Axis::MtPositionY, 0, (g.height - 1) as i32, POSITION_RESOLUTION),
        spec_abs(Axis::MtTouchMajor, 0, MAX_TOUCH_MAJOR, POSITION_RESOLUTION),
        spec_abs(Axis::MtPressure, 0, MAX_TOUCH_PRESSURE, 0),
    ]
}

/// What the pen device declares.
pub open spec fn spec_pen_caps(g: Geometry) -> DeviceCaps {
    DeviceCaps {
        name: "MoonBeam Pen"@,
        vendor: VENDOR_ID,
        product: PEN_PRODUCT_ID,
        version: DEVICE_VERSION,
        event_kinds: seq![
            EventKind::Key,
            EventKind::Absolute,
            EventKind::Synchronize,
            EventKind::Misc,
        ],
        keys: seq![Key::ToolPen, Key::ToolRubber, Key::Touch, Key::Stylus, Key::Stylus2],
        axes: spec_abs_pen(g),
        misc_serial: true,
        direct: true,
    }
}

/// What the touch device declares.
pub open spec fn spec_touch_caps(g: Geometry) -> DeviceCaps {
    DeviceCaps {
        name: "MoonBeam Touch"@,
        vendor: VENDOR_ID,
        product: TOUCH_PRODUCT_ID,
        version: DEVICE_VERSION,
        event_kinds: seq![EventKind::Key, EventKind::Absolute, EventKind::Synchronize],
        keys: seq![
            Key::Touch,
            Key::ToolFinger,
            Key::ToolDoubleTap,
            Key::ToolTripleTap,
            Key::ToolQuadTap,
            Key::ToolQuintTap,
        ],
        axes: spec_abs_touch(g),
        misc_serial: false,
        direct: true,
    }
}

/// The range of one absolute axis, with zero initial value, fuzz and flat.
pub fn abs(axis: Axis, minimum: i32, maximum: i32, resolution: i32) -> (r: AbsSetup)
    ensures
        r == spec_abs(axis, minimum, maximum, resolution),
{
    AbsSetup { axis, minimum, maximum, resolution }
}

/// The axes of the pen device: position over the coordinate space,
/// pressure up to `pressure_max`, and tilt of at most 90 degrees.
pub fn abs_pen(g: &Geometry) -> (r: Vec<AbsSetup>)
    requires
        pen_geometry_ok(*g),
    ensures
        r@ == spec_abs_pen(*g),
{
    vec![
        abs(Axis::X, 0, g.width - 1, POSITION_RESOLUTION),
        abs(Axis::Y, 0, g.height - 1, POSITION_RESOLUTION),
        abs(Axis::Pressure, 0, g.pressure_max, 0),
        abs(Axis::TiltX, MIN_TILT, MAX_TILT, 0),
        abs(Axis::TiltY, MIN_TILT, MAX_TILT, 0),
    ]
}

/// The axes of the touch device: single-touch position, the slots, the
/// contact ids, per-slot position, contact size and pressure.
pub fn abs_touch(g: &Geometry) -> (r: Vec<AbsSetup>)
    requires
        geometry_ok(*g),
    ensures
        r@ == spec_abs_touch(*g),
{
    vec![
        abs(Axis::X, 0, g.width - 1, POSITION_RESOLUTION),
        abs(Axis::Y, 0, g.height - 1, POSITION_RESOLUTION),
        abs(Axis::MtSlot, 0, g.slots - 1, 0),
        abs(Axis::MtTrackingId, 0, MAX_TRACKING_ID, 0),
        abs(Axis::MtPositionX, 0, g.width - 1, POSITION_RESOLUTION),
        abs(Axis::MtPositionY, 0, g.height - 1, POSITION_RESOLUTION),
        abs(Axis::MtTouchMajor, 0, MAX_TOUCH_MAJOR, POSITION_RESOLUTION),
        abs(Axis::MtPressure, 0, MAX_TOUCH_PRESSURE, 0),
    ]
}

/// Everything the pen device declares.
pub fn pen_device_spec(g: &Geometry) -> (r: DeviceSpec)
    requires
        pen_geometry_ok(*g),
    ensures
        r@ == spec_pen_caps(*g),
{
    let name = "MoonBeam Pen";
    DeviceSpec {
        name,
        vendor: VENDOR_ID,
        product: PEN_PRODUCT_ID,
        version: DEVICE_VERSION,
        event_kinds: vec![
            EventKind::Key,
            EventKind::Absolute,
            EventKind::Synchronize,
            EventKind::Misc,
        ],
        keys: vec![Key::ToolPen, Key::ToolRubber, Key::Touch, Key::Stylus, Key::Stylus2],
        axes: abs_pen(g),
        misc_serial: true,
        direct: true,
    }
}

/// Everything the touch device declares.
pub fn touch_device_spec(g: &Geometry) -> (r: DeviceSpec)
    requires
        geometry_ok(*g),
    ensures
        r@ == spec_touch_caps(*g),
{
    let name = "MoonBeam Touch";
    DeviceSpec {
        name,
        vendor: VENDOR_ID,
        product: TOUCH_PRODUCT_ID,
        version: DEVICE_VERSION,
        event_kinds: vec![EventKind::Key, EventKind::Absolute, EventKind::Synchronize],
        keys: vec![
            Key::Touch,
            Key::ToolFinger,
            Key::ToolDoubleTap,
            Key::ToolTripleTap,
            Key::ToolQuadTap,
            Key::ToolQuintTap,
        ],
        axes: abs_touch(g),
        misc_serial: false,
        direct: true,
    }
}

} // verus!
