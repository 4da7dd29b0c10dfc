//! A grammar-driven generator of JSON-like text, driven by a small
//! deterministic pseudo-random generator.
//!
//! `model` says what each grammar symbol produces as a function of the
//! source of numbers; `engine` produces it; `laws` holds what is true of
//! every text produced. The modules `json`, `json2`, `json3` and `json4`
//! offer the symbols as types, in four styles.

use vstd::prelude::*;
use crate::model::{after, Piece};
use crate::rng::Rng;

pub mod bounds;
pub mod engine;
pub mod json;
pub mod json2;
pub mod json3;
pub mod json4;
pub mod laws;
pub mod model;
pub mod pipeline;
pub mod rng;
pub mod scan;
pub mod source;
pub mod text;

verus! {

/// The exclusive upper bound of every repetition count.
pub const MAX_REPEAT: usize = 16;

/// The depth from which on a value is a number.
pub const MAX_DEPTH: u64 = 128;

/// A grammar symbol that appends its text to a buffer.
pub trait Generate {
    /// What the symbol produces from a generator and a depth, under the
    /// limits that `MAX_DEPTH` and `MAX_REPEAT` give.
    spec fn produces(rng: Rng, depth: u64) -> Piece<Rng>;

    /// Appends the symbol's text to `buf`, advances `rng` by the symbol's
    /// draws, and counts the symbols entered on `recursion`.
    fn generate(rng: &mut Rng, recursion: &mut u64, buf: &mut Vec<u8>)
        ensures
            final(buf)@ == old(buf)@ + Self::produces(*old(rng), *old(recursion)).out,
            *final(rng) == Self::produces(*old(rng), *old(recursion)).src,
            *final(recursion) == after(
                *old(recursion),
                Self::produces(*old(rng), *old(recursion)).calls,
            ),
    ;
}

} // verus!
