use crate::canvas::{Canvas, DrawCommand, Rate, Renderable};
use vstd::prelude::*;

verus! {

/// Length of a measuring window, in milliseconds: a rate is worked out once
/// more than this much time has been gathered.
pub const SAMPLE_WINDOW_MS: i32 = 1000;

/// A frames-per-second counter with its label.
#[derive(Clone, Copy, Debug, PartialEq, Eq)]
pub struct FrameStats {
    /// Milliseconds gathered since the last measurement.
    pub last_measure_at: i32,
    /// Frames rendered since the last measurement.
    pub frames: i32,
    /// The rate on the label; `None` until the first measurement.
    pub text: Option<Rate>,
}

impl FrameStats {
    /// The rate measured from `frames` frames in `millis` milliseconds:
    /// `frames * 1000 / millis` frames per second, kept as a fraction.
    pub open spec fn measured(frames: int, millis: int) -> Rate {
        Rate { scaled_frames: (frames * 1000) as i64, millis: millis as i32 }
    }

    /// A counter that has seen nothing yet.
    pub fn new() -> (stats: FrameStats)
        ensures
            stats == (FrameStats { last_measure_at: 0, frames: 0, text: None }),
    {
        FrameStats { frames: 0, last_measure_at: 0, text: None }
    }
}

impl Renderable for FrameStats {
    /// Both counters stay representable.
    open spec fn renderable(&self, size: (u32, u32), elapsed: i32) -> bool {
        &&& self.frames < i32::MAX
        &&& i32::MIN <= self.last_measure_at + elapsed <= i32::MAX
    }

    /// One more frame and `elapsed` more milliseconds are counted. Once more
    /// than a second has been gathered, the label takes the rate of the
    /// window and both counters start over from zero.
    open spec fn rendered(&self, size: (u32, u32), elapsed: i32) -> Self {
        let millis = self.last_measure_at + elapsed;
        let frames = self.frames + 1;
        if millis > SAMPLE_WINDOW_MS {
            FrameStats {
                last_measure_at: 0,
                frames: 0,
                text: Some(FrameStats::measured(frames, millis)),
            }
        } else {
            FrameStats { last_measure_at: millis as i32, frames: frames as i32, text: self.text }
        }
    }

    /// One submission: the label as it stands after the update.
    open spec fn commands(&self, size: (u32, u32), elapsed: i32) -> Seq<DrawCommand> {
        seq![DrawCommand::Text(self.rendered(size, elapsed).text)]
    }

    fn can_render(&self, canvas: &Canvas, elapsed: i32) -> (ok: bool) {
        self.frames < i32::MAX && self.last_measure_at.checked_add(elapsed).is_some()
    }

    fn render(&mut self, canvas: &mut Canvas, elapsed: i32) {
        self.last_measure_at = self.last_measure_at + elapsed;
        self.frames = self.frames + 1;

        if self.last_measure_at > SAMPLE_WINDOW_MS {
            let rate = Rate {
                scaled_frames: self.frames as i64 * 1000,
                millis: self.last_measure_at,
            };
            self.text = Some(rate);
            self.last_measure_at = 0;
            self.frames = 0;
        }
        canvas.draw_text(self.text);
    }
}

/// A render that brings the gathered time above one second puts the rate
/// `frames * 1000 / millis` of the window on the label, the frame just
/// rendered counted in, and starts both counters over from zero. Any other
/// render counts the frame and the time and leaves the label alone.
pub proof fn lemma_rate_of_window(stats: FrameStats, size: (u32, u32), elapsed: i32)
    requires
        stats.renderable(size, elapsed),
    ensures
        ({
            let after = stats.rendered(size, elapsed);
            let frames = stats.frames + 1;
            let millis = stats.last_measure_at + elapsed;
            &&& millis > SAMPLE_WINDOW_MS ==> {
                &&& after.text matches Some(rate)
                &&& rate.scaled_frames == frames * 1000
                &&& rate.millis == millis
                &&& after.frames == 0
                &&& after.last_measure_at == 0
            }
            &&& millis <= SAMPLE_WINDOW_MS ==> {
                &&& after.text == stats.text
                &&& after.frames == frames
                &&& after.last_measure_at == millis
            }
            &&& stats.commands(size, elapsed) == seq![DrawCommand::Text(after.text)]
        }),
{
}

} // verus!
