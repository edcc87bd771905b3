//! The pacing of an animation: which of the items drawn end a frame.

use vstd::prelude::*;
use crate::error::ConfigError;
use crate::text::chars_of;
use crate::text::first_field;
use crate::text::leading_numbers;
use crate::text::lemma_leading_numbers_len;
use crate::text::more_fields;
use crate::text::parse_leading_numbers;
use crate::text::split_field;

verus! {

/// One phase of an animation: the number of items up to the next frame,
/// the number of frames that the phase still shows, and the number of
/// items from one frame of the phase to the next.
#[derive(Clone, Copy, Debug, PartialEq, Eq, Structural)]
pub struct Phase {
    pub wait: usize,
    pub frames: usize,
    pub every: usize,
}

/// The phases that a text describes: one phase for each part between
/// commas, in the form `every` or `every:frames`, where `frames` is 100 if
/// left out. The last phase shows as many frames as the machine can count.
/// `None` if a part names something that is no number.
pub open spec fn phases_of(data: Seq<char>) -> Option<Seq<Phase>>
    decreases data.len(),
{
    match leading_numbers(first_field(data, ','), ':', 2) {
        None => None,
        Some(values) => {
            let every = values[0];
            let frames = if values.len() > 1 {
                values[1]
            } else {
                100
            };
            match more_fields(data, ',') {
                None => Some(seq![Phase { wait: every, frames: usize::MAX, every }]),
                Some(rest) => match phases_of(rest) {
                    None => None,
                    Some(tail) => Some(seq![Phase { wait: every, frames, every }] + tail),
                },
            }
        },
    }
}

/// What one item does to the phases that are left: it is counted off the
/// wait of the first phase; or it ends a frame and the wait starts anew;
/// or, where the first phase has no frame left, it ends a frame and the
/// phase with it.
pub open spec fn after_item(phases: Seq<Phase>) -> Seq<Phase> {
    let p = phases[0];
    if p.wait > 1 {
        phases.update(0, Phase { wait: (p.wait - 1) as usize, frames: p.frames, every: p.every })
    } else if p.frames > 0 {
        phases.update(0, Phase { wait: p.every, frames: (p.frames - 1) as usize, every: p.every })
    } else {
        phases.drop_first()
    }
}

/// Whether an item ends a frame: it does unless the first phase waits for
/// more items.
pub open spec fn ends_frame(phases: Seq<Phase>) -> bool {
    phases[0].wait <= 1
}

/// The number of frames of `interval` milliseconds each that it takes to
/// show a picture for `wait_after` milliseconds: their quotient, rounded up.
pub open spec fn frames_to_wait(wait_after: nat, interval: nat) -> nat {
    ((wait_after + interval - 1) / (interval as int)) as nat
}

/// Counts the frames that show the finished picture at the end of an
/// animation.
pub fn closing_frames(wait_after: u32, interval: u32) -> (frames: u32)
    requires
        interval > 0,
        wait_after + interval <= u32::MAX,
    ensures
        frames == frames_to_wait(wait_after as nat, interval as nat),
{
    (wait_after + interval - 1) / interval
}

/// The pacing of an animation in phases.
pub struct Animation {
    phases: Vec<Phase>,
    current: usize,
}

impl Animation {
    /// The phases that are left, the running one first.
    pub closed spec fn view(&self) -> Seq<Phase> {
        self.phases@.skip(self.current as int)
    }

    /// The running phase is one of the phases.
    pub closed spec fn wf(&self) -> bool {
        self.current <= self.phases@.len()
    }

    /// The pacing that a text describes.
    pub fn new(data: &str) -> (made: Result<Animation, ConfigError>)
        ensures
            match made {
                Ok(animation) => animation.wf() && phases_of(data@) == Some(animation@)
                    && animation@.len() > 0,
                Err(e) => phases_of(data@) is None && e == ConfigError::InvalidParameter,
            },
    {
        let chars = chars_of(data);
        let mut phases: Vec<Phase> = Vec::new();
        let mut rest: &[char] = chars.as_slice();
        loop
            invariant
                phases_of(data@) == match phases_of(rest@) {
                    None => None,
                    Some(tail) => Some(phases@ + tail),
                },
            decreases rest@.len(),
        {
            let ghost before = phases@;
            let (part, more) = split_field(rest, ',');
            proof {
                lemma_leading_numbers_len(part@, ':', 2);
            }
            let values = match parse_leading_numbers(part, ':', 2) {
                Ok(values) => values,
                Err(e) => {
                    return Err(e);
                },
            };
            let every = values[0];
            let frames = if values.len() > 1 {
                values[1]
            } else {
                100
            };
            match more {
                None => {
                    phases.push(Phase { wait: every, frames: usize::MAX, every });
                    let made = Animation { phases, current: 0 };
                    assert(made@ == made.phases@);
                    return Ok(made);
                },
                Some(tail) => {
                    phases.push(Phase { wait: every, frames, every });
                    proof {
                        let next = phases_of(tail@);
                        if next is Some {
                            assert(before + (seq![Phase { wait: every, frames, every }]
                                + next->Some_0) == phases@ + next->Some_0);
                        }
                    }
                    rest = tail;
                },
            }
        }
    }

    /// Whether no phase is left. The last phase of a pacing shows as many
    /// frames as the machine can count, so this comes true after that many
    /// frames only.
    pub fn is_spent(&self) -> (spent: bool)
        requires
            self.wf(),
        ensures
            spent == (self@.len() == 0),
    {
        self.current >= self.phases.len()
    }

    /// Counts one item, and says whether it ends a frame.
    pub fn next(&mut self) -> (frame: bool)
        requires
            old(self).wf(),
            old(self)@.len() > 0,
        ensures
            final(self).wf(),
            final(self)@ == after_item(old(self)@),
            frame == ends_frame(old(self)@),
    {
        let count = self.phases.len();
        let p = self.phases[self.current];
        assert(self@[0] == p);
        if p.wait > 1 {
            self.phases.set(self.current, Phase { wait: p.wait - 1, frames: p.frames, every: p.every });
            assert(self@ =~= after_item(old(self)@));
            false
        } else if p.frames > 0 {
            self.phases.set(self.current, Phase { wait: p.every, frames: p.frames - 1, every: p.every });
            assert(self@ =~= after_item(old(self)@));
            true
        } else {
            assert(self.current < count);
            self.current = self.current + 1;
            assert(self@ =~= after_item(old(self)@));
            true
        }
    }
}

} // verus!
