//! Which slide a presentation shows, and how a key press moves it.
use vstd::prelude::*;

verus! {

/// The slides, in the order they are shown.
#[derive(Clone, Copy, PartialEq, Eq, Hash, Debug, Structural)]
pub enum SlideState {
    Intro,
    MutexBottleneck,
}

/// The slide shown at position `index`; an unknown position shows the first slide.
pub open spec fn slide_at(index: int) -> SlideState {
    if index == 1 {
        SlideState::MutexBottleneck
    } else {
        SlideState::Intro
    }
}

impl SlideState {
    pub const TOTAL_COUNT: usize = 2;

    pub fn from_index(index: usize) -> (s: Self)
        ensures
            s == slide_at(index as int),
    {
        match index {
            1 => SlideState::MutexBottleneck,
            _ => SlideState::Intro,
        }
    }
}

/// The position of the slide on screen, out of how many there are.
#[derive(Clone, Copy, PartialEq, Eq, Debug, Structural)]
pub struct SlideController {
    pub current_index: usize,
    pub total_slides: usize,
}

impl Default for SlideController {
    fn default() -> (c: Self)
        ensures
            c.current_index == 0,
            c.total_slides == SlideState::TOTAL_COUNT,
    {
        SlideController { current_index: 0, total_slides: SlideState::TOTAL_COUNT }
    }
}

/// Where a controller at `index` of `total` slides lands after a frame in which a forward
/// and a backward key may have been pressed: forward first, then backward, each only while
/// there is a slide to move to.
pub open spec fn landed(index: int, total: int, forward: bool, backward: bool) -> int {
    let after_forward = if forward && index + 1 < total { index + 1 } else { index };
    if backward && after_forward > 0 {
        after_forward - 1
    } else {
        after_forward
    }
}

impl SlideController {
    /// Apply one frame's key presses. Returns whether either press moved the controller, in
    /// which case the slide shown becomes the one at the new position.
    pub fn navigate(&mut self, forward: bool, backward: bool) -> (changed: bool)
        requires
            old(self).current_index < usize::MAX,
        ensures
            final(self).total_slides == old(self).total_slides,
            final(self).current_index == landed(
                old(self).current_index as int,
                old(self).total_slides as int,
                forward,
                backward,
            ),
            changed == ((forward && old(self).current_index + 1 < old(self).total_slides) || (
            backward && (if forward && old(self).current_index + 1 < old(self).total_slides {
                old(self).current_index + 1
            } else {
                old(self).current_index as int
            }) > 0)),
    {
        let mut changed = false;
        if forward && self.current_index + 1 < self.total_slides {
            self.current_index = self.current_index + 1;
            changed = true;
        }
        if backward && self.current_index > 0 {
            self.current_index = self.current_index - 1;
            changed = true;
        }
        changed
    }

}

/// Navigation never leaves the deck: a controller on a slide of a non-empty deck stays on one.
pub proof fn navigation_stays_in_the_deck(index: int, total: int, forward: bool, backward: bool)
    requires
        0 <= index < total,
    ensures
        0 <= landed(index, total, forward, backward) < total,
{
}

} // verus!
