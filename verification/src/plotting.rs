//! The timeline of a raw signal: the geometry of its picture.
//!
//! Each duration becomes one bar on a common time axis, a tall one for a
//! pulse and a low one for a pause. Drawing the bars is left to the caller.

use crate::utils::{nearest_multiple, round_to};
use vstd::prelude::*;

verus! {

/// The width of the picture in pixels.
pub const IMAGE_WIDTH: u32 = 1512 * 2;

/// The height of the picture in pixels.
pub const IMAGE_HEIGHT: u32 = 800 * 2;

/// The unit to which a duration is rounded before it is drawn.
pub const ROUND_TO: u32 = 550;

/// The time that the axis spans at the least, before rounding.
pub const MIN_SPAN: u32 = 300_000;

/// The height of the bar of a pulse.
pub const PULSE_HEIGHT: u32 = 200;

/// The height of the bar of a pause.
pub const PAUSE_HEIGHT: u32 = 20;

/// The height that the vertical axis spans.
pub const AXIS_HEIGHT: u32 = 300;

/// One bar of the timeline: it reaches from `x0` to `x1` on the time axis
/// and from the axis up to `height`.
#[derive(Debug, PartialEq, Eq, Structural, Clone, Copy)]
pub struct Bar {
    pub x0: u32,
    pub x1: u32,
    pub height: u32,
    pub pulse: bool,
}

/// The timeline of a signal: the extent of the time axis, and one bar for
/// each duration.
#[derive(Debug, PartialEq, Eq)]
pub struct Timeline {
    pub x_limit: u32,
    pub bars: Vec<Bar>,
}

/// The time that the first `count` durations take up, each rounded.
pub open spec fn span(data: Seq<u32>, count: int) -> int
    decreases count,
{
    if count <= 0 {
        0
    } else {
        span(data, count - 1) + nearest_multiple(data[count - 1] as int, ROUND_TO as int)
    }
}

/// The height of the bar at `index`: that of a pulse at an even index, that
/// of a pause at an odd one.
pub open spec fn height_at(index: int) -> u32 {
    if index % 2 == 0 {
        PULSE_HEIGHT
    } else {
        PAUSE_HEIGHT
    }
}

/// Whether `bar` is the bar of the duration at `index`: it begins where the
/// durations before it end and is as long as its own duration, rounded.
pub open spec fn is_bar_at(data: Seq<u32>, index: int, bar: Bar) -> bool {
    &&& bar.x0 == span(data, index)
    &&& bar.x1 == span(data, index + 1)
    &&& bar.height == height_at(index)
    &&& bar.pulse == (index % 2 == 0)
}

/// The extent of the time axis: the time that all durations take up, but
/// no less than the least span, rounded.
pub open spec fn x_limit_of(data: Seq<u32>) -> int {
    let total = span(data, data.len() as int);
    let least = nearest_multiple(MIN_SPAN as int, ROUND_TO as int);
    if total >= least {
        total
    } else {
        least
    }
}

/// The time taken up grows with the number of durations.
pub proof fn lemma_span_grows(data: Seq<u32>, fewer: int, more: int)
    requires
        0 <= fewer <= more,
    ensures
        0 <= span(data, fewer) <= span(data, more),
    decreases more,
{
    if more > 0 {
        if fewer < more {
            lemma_span_grows(data, fewer, more - 1);
        } else {
            lemma_span_grows(data, fewer - 1, more - 1);
        }
    }
}

/// Lays out the timeline of a signal from its durations. There is none
/// where the time that the durations take up exceeds 32 bits.
pub fn timeline(data: &[u32]) -> (result: Option<Timeline>)
    ensures
        match result {
            Some(timeline) => {
                &&& span(data@, data@.len() as int) <= u32::MAX
                &&& timeline.x_limit == x_limit_of(data@)
                &&& timeline.bars@.len() == data@.len()
                &&& forall|i: int|
                    0 <= i < data@.len() ==> is_bar_at(data@, i, #[trigger] timeline.bars@[i])
            },
            None => span(data@, data@.len() as int) > u32::MAX,
        },
{
    let mut bars: Vec<Bar> = Vec::new();
    let mut x: u32 = 0;
    let mut i: usize = 0;
    while i < data.len()
        invariant
            i <= data@.len(),
            x == span(data@, i as int),
            bars@.len() == i,
            forall|j: int| 0 <= j < i ==> is_bar_at(data@, j, #[trigger] bars@[j]),
        decreases data@.len() - i,
    {
        let width = round_to(data[i], ROUND_TO);
        if width > u32::MAX - x {
            proof {
                lemma_span_grows(data@, i + 1, data@.len() as int);
            }
            return None;
        }
        let pulse = i % 2 == 0;
        let height = if pulse {
            PULSE_HEIGHT
        } else {
            PAUSE_HEIGHT
        };
        bars.push(Bar { x0: x, x1: x + width, height, pulse });
        x = x + width;
        i += 1;
    }
    let least = round_to(MIN_SPAN, ROUND_TO);
    let x_limit = if x >= least {
        x
    } else {
        least
    };
    Some(Timeline { x_limit, bars })
}

} // verus!
