//! The bounded copy of one stream and the sinks that keep one. Running the
//! child and moving bytes between pipes belongs to the program around the
//! library; everything decided about those bytes is here.
pub mod capture;

pub use capture::{Capture, Keep, Recorder, Stream, Tap, TAIL_KEEP};
