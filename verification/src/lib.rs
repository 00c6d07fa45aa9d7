//! Verified protocol layer for a multi-sensor motion-capture base station
//! that speaks a line-oriented, partially base64-framed serial protocol.
//!
//! The crate decodes fixed-layout binary payloads (quaternion samples,
//! per-sensor metadata, telemetry frames), classifies newline-terminated
//! lines into typed responses, encodes outbound commands, and drives the
//! per-kind message queues and the initialization handshake of a session.
//! Transport I/O (the serial port itself) lives outside this crate.

pub mod device;
pub mod parsing;
pub mod result;
pub mod manager;
