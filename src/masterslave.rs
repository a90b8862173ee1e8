//! The capabilities that every bus backend offers to a bridge.
use vstd::prelude::*;
use crate::frame::Frame;

verus! {

/// A failure reported by a backend, with the backend's status code.
#[derive(Debug, Clone, Copy, PartialEq, Eq, Structural)]
pub struct BackendError {
    pub status: i32,
}

/// Something that frames can be read from.
pub trait FrameReader {
    /// A name for logs.
    fn name(&self) -> &str;

    /// A frame, where one is ready; never waits.
    fn try_read(&mut self) -> Option<Frame>;
}

/// A backend that plays a slave: it publishes the payloads it is given.
pub trait Slave: FrameReader {
    /// Sets the payload that is answered for the frame's identifier.
    fn update(&mut self, f: &Frame) -> Result<(), BackendError>;
}

/// A backend that plays the master: it writes frames and asks for them.
pub trait Master: FrameReader {
    /// Writes identifier and payload on the bus.
    fn write(&mut self, frame: &Frame) -> Result<(), BackendError>;

    /// Asks the owner of a frame to send its payload.
    fn request_update(&mut self, id: u32) -> Result<(), BackendError>;
}

} // verus!
