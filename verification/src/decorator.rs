//! Wraps a collector with a target frame duration, so that the wrapped
//! collector is invoked no more often than once per target interval.

use vstd::prelude::*;

use crate::collector::{Collector, TimeAdvance};
use crate::error::SubtrActorResult;
use crate::model::{Frame, Milli};
use crate::processor::ReplayProcessor;

verus! {

/// Coerces a collector's requested advance to honour a minimum inter-sample
/// gap: the next invocation comes no earlier than `current + duration`. A
/// non-positive duration leaves the request unchanged, so the wrapped
/// collector is invoked every frame.
pub fn coerce_advance(advance: TimeAdvance, current: Milli, duration: Milli) -> (r: TimeAdvance)
    requires
        crate::util::time_bounded(current as int),
        0 <= duration <= 1_000_000_000,
    ensures
        duration <= 0 ==> r == advance,
        duration > 0 ==> match advance {
            TimeAdvance::NextFrame => r == TimeAdvance::Time((current + duration) as i64),
            TimeAdvance::Time(t) => r == TimeAdvance::Time(
                if t >= current + duration {
                    t
                } else {
                    (current + duration) as i64
                },
            ),
        },
{
    if duration <= 0 {
        return advance;
    }
    let next_target = current + duration;
    match advance {
        TimeAdvance::NextFrame => TimeAdvance::Time(next_target),
        TimeAdvance::Time(t) => TimeAdvance::Time(
            if t >= next_target {
                t
            } else {
                next_target
            },
        ),
    }
}

/// Decorates a collector with a target frame duration, controlling the rate
/// at which the replay is sampled.
pub struct FrameRateDecorator<C> {
    /// The wrapped collector.
    pub collector: C,
    /// The minimum gap between two invocations, in milliseconds.
    pub target_frame_duration: Milli,
}

impl<C> FrameRateDecorator<C> {
    /// Wraps a collector with a target frame duration in milliseconds;
    /// durations outside `[0, 1_000_000_000]` are clamped into that range.
    pub fn new(target_frame_duration: Milli, collector: C) -> (r: FrameRateDecorator<C>)
        ensures
            r.target_frame_duration == if target_frame_duration < 0 {
                0
            } else if target_frame_duration > 1_000_000_000 {
                1_000_000_000
            } else {
                target_frame_duration
            },
            r.collector == collector,
    {
        let d = if target_frame_duration < 0 {
            0
        } else if target_frame_duration > 1_000_000_000 {
            1_000_000_000
        } else {
            target_frame_duration
        };
        FrameRateDecorator { collector, target_frame_duration: d }
    }

    /// Wraps a collector with a frame rate given in milli-frames per
    /// second: the target duration is `1_000_000 / fps` milliseconds. A
    /// rate at or below zero gives duration zero, which invokes the wrapped
    /// collector every frame.
    pub fn new_from_fps(fps: Milli, collector: C) -> (r: FrameRateDecorator<C>)
        ensures
            r.target_frame_duration == if fps > 0 {
                let d = 1_000_000int / fps as int;
                if d > 1_000_000_000 {
                    1_000_000_000int
                } else {
                    d
                }
            } else {
                0int
            },
            r.collector == collector,
    {
        let duration: Milli = if fps > 0 {
            1_000_000i64 / fps
        } else {
            0
        };
        proof {
            if fps > 0 {
                vstd::arithmetic::div_mod::lemma_div_is_ordered(0, 1_000_000int, fps as int);
                vstd::arithmetic::div_mod::lemma_div_is_ordered(
                    1_000_000int,
                    1_000_000_000int * (fps as int),
                    fps as int,
                );
                assert(1_000_000int <= 1_000_000_000int * (fps as int)) by (nonlinear_arith)
                    requires
                        fps >= 1,
                ;
                assert((1_000_000_000int * (fps as int)) / (fps as int) == 1_000_000_000int) by {
                    vstd::arithmetic::div_mod::lemma_div_multiples_vanish(
                        1_000_000_000int,
                        fps as int,
                    );
                    assert(1_000_000_000int * (fps as int) == (fps as int) * 1_000_000_000int)
                        by (nonlinear_arith);
                }
            }
        }
        Self::new(duration, collector)
    }
}

impl<C: Collector> Collector for FrameRateDecorator<C> {
    /// Delegates to the wrapped collector, then coerces the returned
    /// advance so that the next invocation comes no earlier than the target
    /// duration after the current time.
    fn process_frame(
        &mut self,
        processor: &ReplayProcessor,
        frame: &Frame,
        frame_number: usize,
        target_time: Milli,
    ) -> (r: SubtrActorResult<TimeAdvance>)
        ensures
            final(self).target_frame_duration == old(self).target_frame_duration,
            r matches Ok(adv) ==> (0 < old(self).target_frame_duration <= 1_000_000_000 ==> (
            adv matches TimeAdvance::Time(t) && t >= target_time + old(self).target_frame_duration)),
    {
        let original_advance = self.collector.process_frame(
            processor,
            frame,
            frame_number,
            target_time,
        )?;
        if self.target_frame_duration < 0 || self.target_frame_duration > 1_000_000_000 {
            return Ok(original_advance);
        }
        Ok(coerce_advance(original_advance, target_time, self.target_frame_duration))
    }
}

} // verus!
