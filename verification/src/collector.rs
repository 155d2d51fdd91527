//! The collector protocol: a pluggable sink the processor invokes at
//! collector-chosen timestamps within each frame's time window.

use vstd::prelude::*;

use crate::error::SubtrActorResult;
use crate::model::{Frame, Milli};
use crate::processor::ReplayProcessor;
use crate::util::time_bounded;

verus! {

/// What the collector asks the driver to do next: advance to the next
/// frame's timestamp, or reinvoke once the running clock reaches the given
/// time.
#[derive(Debug, Clone, Copy)]
pub enum TimeAdvance {
    Time(Milli),
    NextFrame,
}

/// A sink invoked by the processor once per frame, or more often when it
/// requests intermediate timestamps. The processor hands it a fully applied
/// frame: deletions, creations, updates, relationship refreshes, boost
/// integration and demolition extraction have all happened.
pub trait Collector: Sized {
    fn process_frame(
        &mut self,
        processor: &ReplayProcessor,
        frame: &Frame,
        frame_number: usize,
        target_time: Milli,
    ) -> (r: SubtrActorResult<TimeAdvance>)
        requires
            processor.wf(),
            time_bounded(target_time as int),
    ;
}

} // verus!
