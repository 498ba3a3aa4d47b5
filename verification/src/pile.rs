//! The pile: an ordered container of cards with one cursor, which is at once
//! the top of the stack, the depth of the selection and the place where cards
//! are inserted.

pub mod laws;
pub mod render_type;

mod cascade;
mod flippable;
mod straight;

use crate::card::{Card, CardError, Suit, ToCard, Value};
use vstd::prelude::*;

verus! {

/// How a pile is to be drawn.
#[derive(Copy, Clone, Debug, PartialEq, Eq, Structural)]
pub enum Strategy {
    /// A single stack.
    Straight,
    /// Cards overlapping downwards, the first `n_hidden` from the bottom face down.
    Cascade { n_hidden: usize },
    /// Two stacks side by side, cards being flipped from one onto the other.
    Flippable,
}

/// A rendering strategy that a pile can be given.
pub trait Renderer {
    /// The strategy that this value selects.
    spec fn strategy(&self) -> Strategy;

    /// Returns the strategy that this value selects.
    fn get_strategy(&self) -> (s: Strategy)
        ensures
            s == self.strategy(),
    ;
}

/// What a pile is, mathematically: its cards in storage order, the cursor,
/// and the rendering strategy it was given.
///
/// The cards before the cursor are the active region, the playable stack with
/// its top just below the cursor. The cards from the cursor on are the
/// consumed tail, which iteration has walked past.
#[verifier::ext_equal]
pub struct PileView {
    pub cards: Seq<Card>,
    pub index: nat,
    pub renderer: Option<Strategy>,
}

impl PileView {
    /// The cursor lies within the cards or just past them.
    pub open spec fn wf(self) -> bool {
        self.index <= self.cards.len()
    }

    /// The active region: the cards before the cursor, the top of the pile last.
    pub open spec fn active(self) -> Seq<Card> {
        self.cards.take(self.index as int)
    }

    /// The consumed tail: the cards from the cursor on.
    pub open spec fn consumed(self) -> Seq<Card> {
        self.cards.skip(self.index as int)
    }

    /// The pile after `card` was inserted at the cursor and the cursor moved
    /// past it.
    pub open spec fn place_top(self, card: Card) -> PileView {
        PileView {
            cards: self.cards.insert(self.index as int, card),
            index: self.index + 1,
            ..self
        }
    }

    /// The pile after `card` was inserted at the front of storage and the cursor
    /// moved one further.
    pub open spec fn place_bottom(self, card: Card) -> PileView {
        PileView { cards: self.cards.insert(0, card), index: self.index + 1, ..self }
    }

    /// The card just below the cursor.
    pub open spec fn top(self) -> Card
        recommends
            0 < self.index <= self.cards.len(),
    {
        self.cards[self.index - 1]
    }

    /// The pile after the card just below the cursor was taken out of it.
    pub open spec fn draw(self) -> PileView
        recommends
            0 < self.index <= self.cards.len(),
    {
        PileView {
            cards: self.cards.remove(self.index - 1),
            index: (self.index - 1) as nat,
            ..self
        }
    }

    /// The pile after the cursor moved one card deeper, where it can.
    pub open spec fn advance(self) -> PileView {
        if self.index == 0 {
            self
        } else {
            PileView { index: (self.index - 1) as nat, ..self }
        }
    }

    /// The card at position `i` counted from the cursor, wrapping round at the
    /// end of storage.
    pub open spec fn at(self, i: int) -> Card
        recommends
            0 <= i < self.cards.len(),
    {
        self.cards[(i + self.index) % (self.cards.len() as int)]
    }
}

/// The cards that a sequence of items stands for, item by item.
pub open spec fn cards_of<T: ToCard>(items: Seq<T>) -> Seq<Card> {
    Seq::new(items.len(), |i: int| items[i].card()->Ok_0)
}

/// The card at storage position `k` of a fresh deck: the suits follow one
/// another by ascending number, and within a suit the ranks descend from the
/// king to the ace.
pub open spec fn deck52_card(k: int) -> Card {
    Card { value: Value::of_rank(13 - k % 13)->Some_0, suit: Suit::of_number(k / 13 + 1)->Some_0 }
}

/// The 52 cards of a fresh deck, in storage order.
pub open spec fn deck52_cards() -> Seq<Card> {
    Seq::new(52, |k: int| deck52_card(k))
}

/// Where a fresh deck stores the card of the given rank and suit number.
pub open spec fn deck52_position(rank: int, suit: int) -> int {
    13 * (suit - 1) + (13 - rank)
}

/// A fresh deck holds 52 cards, and each of the 52 combinations of a rank and
/// a suit exactly once: every combination has its position, no card is stored
/// twice, and every stored card is such a combination.
pub proof fn lemma_deck52_complete()
    ensures
        deck52_cards().len() == 52,
        deck52_cards().no_duplicates(),
        forall|rank: u8, suit: u8|
            1 <= rank <= 13 && 1 <= suit <= 4 ==> {
                let card = #[trigger] Card::of_pair(rank, suit);
                &&& card is Ok
                &&& deck52_cards()[deck52_position(rank as int, suit as int)] == card->Ok_0
                &&& deck52_cards().to_multiset().count(card->Ok_0) == 1
            },
        forall|k: int|
            0 <= k < 52 ==> Card::of_pair((13 - k % 13) as u8, (k / 13 + 1) as u8) == Ok::<
                Card,
                CardError,
            >(#[trigger] deck52_cards()[k]),
{
    let deck = deck52_cards();
    assert forall|i: int, j: int|
        0 <= i < deck.len() && 0 <= j < deck.len() && i != j implies deck[i] != deck[j] by {
        if deck52_card(i) == deck52_card(j) {
            assert(i % 13 == j % 13);
            assert(i / 13 == j / 13);
        }
    }
    deck.lemma_multiset_has_no_duplicates();
    assert forall|rank: u8, suit: u8| 1 <= rank <= 13 && 1 <= suit <= 4 implies {
        let card = #[trigger] Card::of_pair(rank, suit);
        &&& card is Ok
        &&& deck[deck52_position(rank as int, suit as int)] == card->Ok_0
        &&& deck.to_multiset().count(card->Ok_0) == 1
    } by {
        let k = deck52_position(rank as int, suit as int);
        assert(k % 13 == 13 - rank);
        assert(k / 13 == suit - 1);
        assert(deck[k] == Card::of_pair(rank, suit)->Ok_0);
        vstd::seq_lib::to_multiset_contains(deck, deck[k]);
    }
}

/// A pile of an arbitrary number of cards.
///
/// Cards can be placed onto the top or bottom. A pile can also be walked from
/// the top down with [`next`](Pile::next), which moves the cursor and removes
/// nothing.
#[derive(Debug)]
pub struct Pile {
    cards: Vec<Card>,
    index: usize,
    renderer: Option<Strategy>,
}

impl View for Pile {
    type V = PileView;

    closed spec fn view(&self) -> PileView {
        PileView { cards: self.cards@, index: self.index as nat, renderer: self.renderer }
    }
}

impl Pile {
    /// Every pile keeps its cursor within its cards.
    #[verifier::type_invariant]
    pub open spec fn inv(self) -> bool {
        self@.wf()
    }

    /// Create an empty pile.
    pub fn new() -> (pile: Pile)
        ensures
            pile@ == (PileView { cards: Seq::empty(), index: 0, renderer: None }),
    {
        Pile { cards: Vec::new(), index: 0, renderer: None }
    }

    /// Create a new pile from the given items, in their order. All of them are
    /// active: the cursor stands past the last.
    pub fn from<T: ToCard>(items: Vec<T>) -> (pile: Pile)
        requires
            forall|i: int| 0 <= i < items@.len() ==> (#[trigger] items@[i]).card() is Ok,
        ensures
            pile@ == (PileView {
                cards: cards_of(items@),
                index: items@.len(),
                renderer: None,
            }),
    {
        let n = items.len();
        let mut cards: Vec<Card> = Vec::new();
        let mut i: usize = 0;
        while i < n
            invariant
                n == items@.len(),
                i <= n,
                cards@ == cards_of(items@.take(i as int)),
                forall|j: int| 0 <= j < items@.len() ==> (#[trigger] items@[j]).card() is Ok,
            decreases n - i,
        {
            cards.push(items[i].to_card().unwrap());
            i += 1;
        }
        assert(items@.take(n as int) == items@);
        Pile { cards, index: n, renderer: None }
    }

    /// Set the rendering strategy. The cards and the cursor stay as they are.
    pub fn render_as<R: Renderer>(self, renderer: R) -> (pile: Pile)
        ensures
            pile@ == (PileView { renderer: Some(renderer.strategy()), ..self@ }),
    {
        proof {
            use_type_invariant(&self);
        }
        Pile { cards: self.cards, index: self.index, renderer: Some(renderer.get_strategy()) }
    }

    /// Generates a new 52 card deck, all of it active.
    pub fn deck52() -> (pile: Pile)
        ensures
            pile@ == (PileView { cards: deck52_cards(), index: 52, renderer: None }),
    {
        let mut cards: Vec<Card> = Vec::new();
        let mut suit: u8 = 1;
        while suit <= 4
            invariant
                1 <= suit <= 5,
                cards@ == deck52_cards().take(13 * (suit - 1)),
            decreases 5 - suit,
        {
            let mut rank: u8 = 13;
            while rank >= 1
                invariant
                    1 <= suit <= 4,
                    0 <= rank <= 13,
                    cards@ == deck52_cards().take(13 * (suit - 1) + (13 - rank)),
                decreases rank,
            {
                cards.push(Card::from_pair(rank, suit).unwrap());
                rank -= 1;
            }
            suit += 1;
        }
        assert(deck52_cards().take(52) == deck52_cards());
        assert(cards_of(cards@) == cards@);
        Pile::from(cards)
    }

    /// Returns the rendering strategy of the pile, if it was given one.
    pub fn renderer(&self) -> (strategy: Option<Strategy>)
        ensures
            strategy == self@.renderer,
    {
        self.renderer
    }

    /// Returns the cards of the pile in storage order, the consumed tail included.
    pub fn cards(&self) -> (cards: &[Card])
        ensures
            cards@ == self@.cards,
    {
        self.cards.as_slice()
    }

    /// Returns the active region: the cards before the cursor, the top of the
    /// pile last.
    pub fn active(&self) -> (cards: &[Card])
        ensures
            cards@ == self@.active(),
    {
        proof {
            use_type_invariant(self);
        }
        vstd::slice::slice_subrange(self.cards.as_slice(), 0, self.index)
    }

    /// Returns the consumed tail: the cards from the cursor on.
    pub fn consumed(&self) -> (cards: &[Card])
        ensures
            cards@ == self@.consumed(),
    {
        proof {
            use_type_invariant(self);
        }
        let all = self.cards.as_slice();
        vstd::slice::slice_subrange(all, self.index, all.len())
    }

    /// Returns how many cards the pile stores, the consumed tail included.
    pub fn len(&self) -> (n: usize)
        ensures
            n == self@.cards.len(),
            self@.wf(),
    {
        proof {
            use_type_invariant(self);
        }
        self.cards.len()
    }

    /// Returns the cursor: the number of cards in the active region.
    pub fn cursor(&self) -> (i: usize)
        ensures
            i == self@.index,
            self@.wf(),
    {
        proof {
            use_type_invariant(self);
        }
        self.index
    }

    /// Takes the cards out of the pile and returns them with the cursor. The
    /// pile is left empty, so that its invariant holds while the cards are
    /// worked on.
    fn take(&mut self) -> (taken: (Vec<Card>, usize))
        ensures
            taken.0@ == old(self)@.cards,
            taken.1 == old(self)@.index,
            taken.1 <= taken.0@.len(),
            final(self)@ == (PileView { cards: Seq::empty(), index: 0, ..old(self)@ }),
    {
        proof {
            use_type_invariant(&*self);
        }
        let index = self.index;
        self.index = 0;
        let mut cards: Vec<Card> = Vec::new();
        std::mem::swap(&mut cards, &mut self.cards);
        (cards, index)
    }

    /// Gives an emptied pile its cards and its cursor.
    fn put(&mut self, cards: Vec<Card>, index: usize)
        requires
            old(self)@.index == 0,
            index <= cards@.len(),
        ensures
            final(self)@ == (PileView { cards: cards@, index: index as nat, ..old(self)@ }),
    {
        self.cards = cards;
        self.index = index;
    }

    /// Put a card on top of the pile.
    ///
    /// The card goes to the cursor, above the current top; the consumed tail,
    /// if there is one, moves one slot back.
    pub fn place_top<T: ToCard>(&mut self, card: T)
        requires
            card.card() is Ok,
        ensures
            old(self)@.wf(),
            final(self)@ == old(self)@.place_top(card.card()->Ok_0),
    {
        proof {
            use_type_invariant(&*self);
        }
        let card = card.to_card().unwrap();
        let (mut cards, index) = self.take();
        cards.insert(index, card);
        assert(index < cards.len());
        self.put(cards, index + 1);
    }

    /// Put a card on the bottom of the pile.
    ///
    /// The card goes to the front of storage; the top of the pile stays the top.
    pub fn place_bottom<T: ToCard>(&mut self, card: T)
        requires
            card.card() is Ok,
        ensures
            old(self)@.wf(),
            final(self)@ == old(self)@.place_bottom(card.card()->Ok_0),
    {
        proof {
            use_type_invariant(&*self);
        }
        let card = card.to_card().unwrap();
        let (mut cards, index) = self.take();
        cards.insert(0, card);
        assert(index < cards.len());
        self.put(cards, index + 1);
    }

    /// Draw the card from the top of the pile. The card leaves the pile for good.
    pub fn draw(&mut self) -> (card: Card)
        requires
            old(self)@.index > 0,
        ensures
            old(self)@.wf(),
            card == old(self)@.top(),
            final(self)@ == old(self)@.draw(),
    {
        proof {
            use_type_invariant(&*self);
        }
        let (mut cards, index) = self.take();
        let card = cards.remove(index - 1);
        self.put(cards, index - 1);
        card
    }

    /// Peek at the top card of the pile.
    pub fn top(&self) -> (card: &Card)
        requires
            self@.index > 0,
        ensures
            self@.wf(),
            *card == self@.top(),
    {
        proof {
            use_type_invariant(self);
        }
        &self.cards[self.index - 1]
    }

    /// Move the cursor one card deeper and return the card it passed: the top
    /// of the pile before the call. Nothing is removed. With the cursor at the
    /// bottom, the pile stays as it is and `None` is returned.
    pub fn next(&mut self) -> (card: Option<Card>)
        ensures
            old(self)@.wf(),
            final(self)@ == old(self)@.advance(),
            card == if old(self)@.index == 0 {
                None
            } else {
                Some(old(self)@.top())
            },
    {
        proof {
            use_type_invariant(&*self);
        }
        if self.index == 0 {
            return None;
        }
        self.index -= 1;
        Some(self.cards[self.index])
    }
}

/// Positions are counted from the cursor and wrap round at the end of
/// storage: they run through the consumed tail first and then through the
/// active region from the bottom up. Position 0 is the card just past the
/// cursor, or the first card of storage where the cursor stands at the end.
/// Where the active region is not empty, the last position is the top of
/// the pile.
impl std::ops::Index<usize> for Pile {
    type Output = Card;

    fn index(&self, i: usize) -> (card: &Card)
        ensures
            self@.wf(),
            *card == self@.at(i as int),
    {
        proof {
            use_type_invariant(self);
        }
        let consumed = self.consumed();
        let tail = consumed.len();
        let ghost len = self@.cards.len() as int;
        if i < tail {
            assert((i + self@.index) % len == i + self@.index) by (nonlinear_arith)
                requires
                    0 <= i + self@.index < len,
            ;
            &consumed[i]
        } else {
            assert((i + self@.index) % len == i - tail) by (nonlinear_arith)
                requires
                    0 <= i - tail < len,
                    i + self@.index == (i - tail) + len,
            ;
            &self.active()[i - tail]
        }
    }
}

impl vstd::std_specs::core::IndexSpecImpl<usize> for Pile {
    open spec fn index_req(&self, i: &usize) -> bool {
        *i < self@.cards.len()
    }
}

} // verus!
