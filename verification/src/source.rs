//! Where the generator's numbers come from.

use vstd::prelude::*;

verus! {

/// A deterministic stream of numbers.
///
/// A source is a value: what the next draw returns and the source that it
/// leaves behind are both functions of the source alone, so everything
/// generated from a source is a function of that source.
pub trait Source: Sized {
    /// The number that the next draw returns.
    spec fn drawn(&self) -> usize;

    /// The source as the next draw leaves it.
    spec fn advanced(&self) -> Self;

    /// Draws one number.
    fn draw(&mut self) -> (r: usize)
        ensures
            r == old(self).drawn(),
            *final(self) == old(self).advanced(),
    ;
}

/// A source that replays given numbers, over and over. With no numbers it
/// draws zero forever.
pub struct Replay {
    /// The numbers to replay.
    pub draws: Vec<usize>,
    /// The place of the next number; it is below the count of numbers
    /// unless there are none.
    pub at: usize,
}

impl Replay {
    /// A source that replays `draws` from the first.
    pub fn new(draws: Vec<usize>) -> (res: Replay)
        ensures
            res.draws == draws,
            res.at == 0,
    {
        Replay { draws, at: 0 }
    }
}

impl Source for Replay {
    open spec fn drawn(&self) -> usize {
        if self.at < self.draws@.len() {
            self.draws@[self.at as int]
        } else {
            0
        }
    }

    open spec fn advanced(&self) -> Replay {
        if self.at < self.draws@.len() && self.at + 1 < self.draws@.len() {
            Replay { draws: self.draws, at: (self.at + 1) as usize }
        } else {
            Replay { draws: self.draws, at: 0 }
        }
    }

    fn draw(&mut self) -> (r: usize) {
        if self.at < self.draws.len() {
            let r = self.draws[self.at];
            if self.at + 1 < self.draws.len() {
                self.at = self.at + 1;
            } else {
                self.at = 0;
            }
            r
        } else {
            self.at = 0;
            0
        }
    }
}

} // verus!
