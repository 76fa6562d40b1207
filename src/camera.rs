//! Pull-based frame sources and the samples they produce.
use vstd::prelude::*;
use crate::pacer::FRAME_DURATION_NANOS;

verus! {

/// One unit of encoded media and how long it plays, in nanoseconds.
#[derive(Debug)]
pub struct Sample {
    pub data: Vec<u8>,
    pub duration_nanos: u64,
}

impl Sample {
    /// A sample holding `data`, with no duration set yet.
    pub fn new(data: Vec<u8>) -> (r: Self)
        ensures
            r.data@ == data@,
            r.duration_nanos == 0,
    {
        Sample { data, duration_nanos: 0 }
    }
}

/// Overwrites the sample's duration with the fixed frame duration and leaves
/// its payload as it was.
pub fn stamp_frame_duration(sample: &mut Sample)
    ensures
        final(sample).duration_nanos == FRAME_DURATION_NANOS,
        final(sample).data@ == old(sample).data@,
{
    sample.duration_nanos = FRAME_DURATION_NANOS;
}

/// The one way a camera source fails: it is exhausted or faulted.
#[derive(Debug, Clone, Copy, PartialEq, Eq, Structural)]
pub enum CameraError {
    Disconnected,
}

impl CameraError {
    /// A short description of the error.
    pub fn message(&self) -> (r: String)
        ensures
            r@ == "Camera was disconnected"@,
    {
        "Camera was disconnected".to_owned()
    }
}

/// A pull-based producer of frames. Implementations return promptly and report
/// exhaustion or a fault as `CameraError::Disconnected`, never by ending the
/// process. The caller sets each sample's duration.
pub trait Camera {
    fn next_sample(&mut self) -> Result<Sample, CameraError>;
}

} // verus!
