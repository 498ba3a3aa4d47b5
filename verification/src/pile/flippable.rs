use crate::pile::{Renderer, Strategy};
use vstd::prelude::*;

verus! {

/// Draws a pile as two stacks side by side and shows cards being flipped from
/// one onto the other.
#[derive(Debug)]
pub struct Flippable;

impl Renderer for Flippable {
    open spec fn strategy(&self) -> Strategy {
        Strategy::Flippable
    }

    fn get_strategy(&self) -> (s: Strategy) {
        Strategy::Flippable
    }
}

} // verus!
