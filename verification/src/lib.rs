//! Host-side logic of MoonBeam: the wire framing shared by video and input
//! on one WebSocket, the conversion of input messages into kernel input
//! reports for the virtual pen and touch devices, the capability sets of
//! those devices, the capture-buffer checks and row copies that feed the
//! encoder, and the parsing of DRM writeback pixel-format blobs.
#![allow(unused_imports)]

pub mod frame;
pub mod input;
pub mod device;
pub mod model;
pub mod capture;
pub mod encode;
pub mod writeback;
pub mod session;
pub mod gesture;
