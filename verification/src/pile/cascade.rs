use crate::pile::{Renderer, Strategy};
use vstd::prelude::*;

verus! {

/// Draws a pile as cards partially overlapping each other vertically,
/// displaying the true number of cards in the pile.
/// The first `n_hidden` cards from the bottom are displayed as card backs,
/// while the remainder are shown with value and suit.
#[derive(Debug)]
pub struct Cascade {
    n_hidden: usize,
}

impl Cascade {
    /// The number of cards shown face down.
    pub closed spec fn n_hidden(&self) -> usize {
        self.n_hidden
    }

    /// Construct a new cascade strategy with a given `n_hidden`.
    pub fn new(n_hidden: usize) -> (cascade: Cascade)
        ensures
            cascade.n_hidden() == n_hidden,
    {
        Cascade { n_hidden }
    }
}

impl Renderer for Cascade {
    open spec fn strategy(&self) -> Strategy {
        Strategy::Cascade { n_hidden: self.n_hidden() }
    }

    fn get_strategy(&self) -> (s: Strategy) {
        Strategy::Cascade { n_hidden: self.n_hidden }
    }
}

} // verus!
