use crate::pile::{Renderer, Strategy};
use vstd::prelude::*;

verus! {

/// Draws a pile as a single stack.
#[derive(Debug)]
pub struct Straight;

impl Renderer for Straight {
    open spec fn strategy(&self) -> Strategy {
        Strategy::Straight
    }

    fn get_strategy(&self) -> (s: Strategy) {
        Strategy::Straight
    }
}

} // verus!
