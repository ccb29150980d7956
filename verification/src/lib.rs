//! Edge client library for a security-camera appliance.
//!
//! The library holds the verified core of the client: the motion
//! classifier that compares successive grayscale frames, the capture-loop
//! recording state machine that turns classified frames into
//! `FrameCommand` values, and the upload-session model that drives a
//! per-recording streaming transfer. Camera I/O, threads and the HTTP
//! transport live outside the library and talk to it through plain
//! values.

pub mod grayimage;
pub mod motiondetection;
pub mod networking;
pub mod textops;
