//! What holds of every pile: the round trip of placing and drawing, the
//! conservation of cards, and how positions relate to the top of the pile.

use crate::card::Card;
use crate::pile::PileView;
use vstd::prelude::*;

verus! {

/// One step of play at the top of a pile.
pub enum Move {
    /// A card is placed on top.
    Place(Card),
    /// The top card is drawn.
    Draw,
}

impl PileView {
    /// The pile after one move.
    pub open spec fn apply(self, step: Move) -> PileView {
        match step {
            Move::Place(card) => self.place_top(card),
            Move::Draw => self.draw(),
        }
    }

    /// The pile after a sequence of moves, the first of them first.
    pub open spec fn run(self, moves: Seq<Move>) -> PileView
        decreases moves.len(),
    {
        if moves.len() == 0 {
            self
        } else {
            self.run(moves.drop_last()).apply(moves.last())
        }
    }
}

/// The cards that a sequence of moves has placed and not drawn again, the
/// one placed first standing first.
pub open spec fn pending(moves: Seq<Move>) -> Seq<Card>
    decreases moves.len(),
{
    if moves.len() == 0 {
        Seq::empty()
    } else {
        match moves.last() {
            Move::Place(card) => pending(moves.drop_last()).push(card),
            Move::Draw => pending(moves.drop_last()).drop_last(),
        }
    }
}

/// Whether every draw of a sequence of moves takes a card that an earlier
/// move of the sequence placed.
pub open spec fn paired(moves: Seq<Move>) -> bool
    decreases moves.len(),
{
    moves.len() == 0 || {
        &&& paired(moves.drop_last())
        &&& moves.last() is Draw ==> pending(moves.drop_last()).len() > 0
    }
}

/// The operations in terms of the two regions of a pile. Placing on top
/// appends to the active region and placing on the bottom prepends to it;
/// neither touches the consumed tail, and placing on the bottom leaves the top
/// card the top. Drawing takes the last card off the active region. Moving
/// the cursor hands the top card over to the front of the consumed tail.
pub proof fn lemma_operations_on_regions(pile: PileView, card: Card)
    requires
        pile.wf(),
    ensures
        pile.active() + pile.consumed() == pile.cards,
        pile.place_top(card).active() == pile.active().push(card),
        pile.place_top(card).consumed() == pile.consumed(),
        pile.place_top(card).top() == card,
        pile.place_bottom(card).active() == seq![card] + pile.active(),
        pile.place_bottom(card).consumed() == pile.consumed(),
        pile.index > 0 ==> pile.place_bottom(card).top() == pile.top(),
        pile.index > 0 ==> pile.top() == pile.active().last(),
        pile.index > 0 ==> pile.draw().active() == pile.active().drop_last(),
        pile.index > 0 ==> pile.draw().consumed() == pile.consumed(),
        pile.index > 0 ==> pile.advance().active() == pile.active().drop_last(),
        pile.index > 0 ==> pile.advance().consumed() == seq![pile.top()] + pile.consumed(),
        pile.index == 0 ==> pile.advance() == pile,
{
}

/// No operation creates, destroys or duplicates a card, and each keeps the
/// cursor within the cards: placing adds the one card placed, drawing takes
/// the top card out and is alone in shrinking the pile, and moving the cursor
/// leaves the cards as they are.
pub proof fn lemma_operations_conserve_cards(pile: PileView, card: Card)
    requires
        pile.wf(),
    ensures
        pile.place_top(card).wf(),
        pile.place_top(card).cards.len() == pile.cards.len() + 1,
        pile.place_top(card).cards.to_multiset() == pile.cards.to_multiset().insert(card),
        pile.place_bottom(card).wf(),
        pile.place_bottom(card).cards.len() == pile.cards.len() + 1,
        pile.place_bottom(card).cards.to_multiset() == pile.cards.to_multiset().insert(card),
        pile.advance().wf(),
        pile.advance().cards == pile.cards,
        pile.index > 0 ==> pile.draw().wf() && pile.draw().cards.len() == pile.cards.len() - 1,
        pile.index > 0 ==> pile.cards.to_multiset().count(pile.top()) > 0
            && pile.draw().cards.to_multiset() == pile.cards.to_multiset().remove(pile.top()),
{
    vstd::seq_lib::to_multiset_insert(pile.cards, pile.index as int, card);
    vstd::seq_lib::to_multiset_insert(pile.cards, 0, card);
    if pile.index > 0 {
        vstd::seq_lib::to_multiset_remove(pile.cards, pile.index - 1);
        vstd::seq_lib::to_multiset_contains(pile.cards, pile.top());
        assert(pile.cards[pile.index - 1] == pile.top());
    }
}

/// Moving the top card of one pile onto another keeps the cards of the two
/// piles together as they were.
pub proof fn lemma_move_conserves_cards(from: PileView, to: PileView)
    requires
        from.wf(),
        to.wf(),
        from.index > 0,
    ensures
        from.draw().cards.to_multiset().add(to.place_top(from.top()).cards.to_multiset())
            == from.cards.to_multiset().add(to.cards.to_multiset()),
{
    lemma_operations_conserve_cards(from, from.top());
    lemma_operations_conserve_cards(to, from.top());
}

/// Placing a card and drawing at once gives the card back and leaves the pile
/// exactly as it was: its length, its cards and its cursor.
pub proof fn lemma_place_top_then_draw(pile: PileView, card: Card)
    requires
        pile.wf(),
    ensures
        pile.place_top(card).wf(),
        pile.place_top(card).top() == card,
        pile.place_top(card).draw() == pile,
{
}

/// Drawing the top card and placing it again leaves the pile exactly as it was.
pub proof fn lemma_draw_then_place_top(pile: PileView)
    requires
        pile.wf(),
        pile.index > 0,
    ensures
        pile.draw().wf(),
        pile.draw().place_top(pile.top()) == pile,
{
}

/// Moves in which every draw takes a card that an earlier one placed leave
/// the pile as it was but for the cards still pending, which stand at the old
/// cursor in the order in which they were placed.
pub proof fn lemma_paired_moves(pile: PileView, moves: Seq<Move>)
    requires
        pile.wf(),
        paired(moves),
    ensures
        pile.run(moves).wf(),
        pile.run(moves) == (PileView {
            cards: pile.active() + pending(moves) + pile.consumed(),
            index: pile.index + pending(moves).len(),
            renderer: pile.renderer,
        }),
    decreases moves.len(),
{
    if moves.len() == 0 {
        assert(pile.active() + pending(moves) + pile.consumed() == pile.cards);
    } else {
        lemma_paired_moves(pile, moves.drop_last());
    }
}

/// The round trip: after moves in which every `place_top` is balanced by a
/// later `draw`, and every draw takes a card that the moves placed, the pile
/// is exactly as it was. Its length and the cards it holds are unchanged.
pub proof fn lemma_balanced_moves_restore(pile: PileView, moves: Seq<Move>)
    requires
        pile.wf(),
        paired(moves),
        pending(moves).len() == 0,
    ensures
        pile.run(moves) == pile,
        pile.run(moves).cards.len() == pile.cards.len(),
        pile.run(moves).cards.to_multiset() == pile.cards.to_multiset(),
{
    lemma_paired_moves(pile, moves);
    assert(pile.active() + pending(moves) + pile.consumed() == pile.cards);
}

/// Re-basing: the positions of a pile run through the consumed tail first
/// and then through the active region from the bottom up.
pub proof fn lemma_positions_run_through_regions(pile: PileView, i: int)
    requires
        pile.wf(),
        0 <= i < pile.cards.len(),
    ensures
        pile.at(i) == (pile.consumed() + pile.active())[i],
{
    let len = pile.cards.len() as int;
    let tail = len - pile.index;
    if i < tail {
        assert((i + pile.index) % len == i + pile.index) by (nonlinear_arith)
            requires
                0 <= i + pile.index < len,
        ;
    } else {
        assert((i + pile.index) % len == i - tail) by (nonlinear_arith)
            requires
                0 <= i - tail < len,
                i + pile.index == (i - tail) + len,
        ;
    }
}

/// Re-basing: the last position of a pile is its top, wherever the cursor
/// stands in the active region.
pub proof fn lemma_last_position_is_top(pile: PileView)
    requires
        pile.wf(),
        pile.index > 0,
    ensures
        pile.at(pile.cards.len() - 1) == pile.top(),
{
    let len = pile.cards.len() as int;
    assert((len - 1 + pile.index) % len == pile.index - 1) by (nonlinear_arith)
        requires
            0 < pile.index <= len,
    ;
}

/// Re-basing: once the cursor has moved one card deeper, position 0 is the
/// card that it passed, the top of the pile before the move.
pub proof fn lemma_first_position_after_advance(pile: PileView)
    requires
        pile.wf(),
        pile.index > 0,
    ensures
        pile.advance().at(0) == pile.top(),
{
    let len = pile.cards.len() as int;
    assert((pile.index - 1) % len == pile.index - 1) by (nonlinear_arith)
        requires
            0 < pile.index <= len,
    ;
}

/// Position 0 of a pile is its top where the pile holds a single card, or
/// where the card that position 0 names, the one just past the cursor, equals
/// the card below the cursor.
pub proof fn lemma_first_position_is_top(pile: PileView)
    requires
        pile.wf(),
        pile.index > 0,
        pile.cards.len() == 1 || pile.cards[pile.index as int % (pile.cards.len() as int)]
            == pile.cards[pile.index - 1],
    ensures
        pile.at(0) == pile.top(),
{
}

/// In a pile of more than one card, none of them twice, position 0 is not the
/// top.
pub proof fn lemma_first_position_is_not_top(pile: PileView)
    requires
        pile.wf(),
        pile.index > 0,
        pile.cards.len() > 1,
        pile.cards.no_duplicates(),
    ensures
        pile.at(0) != pile.top(),
{
    let len = pile.cards.len() as int;
    let first = pile.index as int % len;
    assert(0 <= first < len && first != pile.index - 1) by (nonlinear_arith)
        requires
            0 < pile.index <= len,
            len > 1,
            first == pile.index as int % len,
    ;
}

} // verus!
