//! The table: seven tableau piles, four foundations and the draw pile, and the
//! deal that lays a fresh deck out on them.

use crate::card::Card;
use crate::pile::laws::lemma_operations_conserve_cards;
use crate::pile::render_type::{Cascade, Flippable, Straight};
use crate::pile::{deck52_card, deck52_cards, Pile, PileView, Strategy};
use vstd::multiset::Multiset;
use vstd::prelude::*;

verus! {

/// The views of a row of piles.
pub open spec fn pile_views(piles: Seq<Pile>) -> Seq<PileView> {
    Seq::new(piles.len(), |j: int| piles[j]@)
}

/// All the cards that a row of piles stores, with their multiplicities.
pub open spec fn cards_in(piles: Seq<PileView>) -> Multiset<Card>
    decreases piles.len(),
{
    if piles.len() == 0 {
        Multiset::empty()
    } else {
        cards_in(piles.drop_last()).add(piles.last().cards.to_multiset())
    }
}

/// The number of cards dealt before row `row` begins. Row `r` deals one card
/// to each of the columns `r..7`, so the rows before `row` have dealt
/// `7 + 6 + ..` down to `8 - row` cards.
pub open spec fn dealt_before(row: int) -> int {
    row * (15 - row) / 2
}

/// The card that the deal places in row `row` of column `column`. The deal
/// draws from the end of the deck's storage.
pub open spec fn dealt_card(row: int, column: int) -> Card {
    deck52_card(51 - (dealt_before(row) + (column - row)))
}

/// Tableau pile `column` when the deal has given it its first `rows` cards.
pub open spec fn dealt_stack(column: int, rows: int) -> PileView {
    PileView {
        cards: Seq::new(rows as nat, |row: int| dealt_card(row, column)),
        index: rows as nat,
        renderer: Some(Strategy::Cascade { n_hidden: column as usize }),
    }
}

/// What a table is, mathematically: the views of its piles.
#[verifier::ext_equal]
pub struct TableView {
    pub stacks: Seq<PileView>,
    pub home: Seq<PileView>,
    pub draw: PileView,
}

impl TableView {
    /// All the cards on the table, with their multiplicities.
    pub open spec fn all_cards(self) -> Multiset<Card> {
        cards_in(self.stacks).add(cards_in(self.home)).add(self.draw.cards.to_multiset())
    }

    /// There are seven tableau piles and four foundations, every pile keeps its
    /// cursor within its cards, and the piles together hold exactly one deck.
    pub open spec fn wf(self) -> bool {
        &&& self.stacks.len() == 7
        &&& self.home.len() == 4
        &&& forall|j: int| 0 <= j < 7 ==> (#[trigger] self.stacks[j]).wf()
        &&& forall|k: int| 0 <= k < 4 ==> (#[trigger] self.home[k]).wf()
        &&& self.draw.wf()
        &&& self.all_cards() == deck52_cards().to_multiset()
    }

    /// The table after the deal: tableau pile `j` holds `j + 1` cards and
    /// cascades with `j` of them hidden, the foundations are empty, and the
    /// 24 cards that were not dealt are the draw pile, in deck order.
    pub open spec fn dealt() -> TableView {
        TableView {
            stacks: Seq::new(7, |j: int| dealt_stack(j, j + 1)),
            home: Seq::new(
                4,
                |k: int|
                    PileView { cards: Seq::empty(), index: 0, renderer: Some(Strategy::Straight) },
            ),
            draw: PileView {
                cards: deck52_cards().take(24),
                index: 24,
                renderer: Some(Strategy::Flippable),
            },
        }
    }
}

/// Composition of all piles used in a game.
///
/// The stacks: the seven tableau piles that cards are moved between.
/// The home: the four foundations on which the game is completed.
/// The draw: the pile of the cards not yet in play.
#[derive(Debug)]
pub struct Table {
    stacks: [Pile; 7],
    home: [Pile; 4],
    draw: Pile,
}

impl View for Table {
    type V = TableView;

    closed spec fn view(&self) -> TableView {
        TableView {
            stacks: pile_views(self.stacks@),
            home: pile_views(self.home@),
            draw: self.draw@,
        }
    }
}

/// The values of `dealt_before` for the rows of the deal.
proof fn lemma_dealt_before_values()
    ensures
        dealt_before(0) == 0,
        dealt_before(1) == 7,
        dealt_before(2) == 13,
        dealt_before(3) == 18,
        dealt_before(4) == 22,
        dealt_before(5) == 25,
        dealt_before(6) == 27,
        dealt_before(7) == 28,
{
}

/// How many cards column `column` holds when the deal is in row `row` and has
/// served the columns before `next` in it.
spec fn rows_served(column: int, row: int, next: int) -> int {
    if column < row {
        column + 1
    } else if column < next {
        row + 1
    } else {
        row
    }
}

/// A row of empty piles holds no cards.
proof fn lemma_cards_in_empty(piles: Seq<PileView>)
    requires
        forall|j: int| 0 <= j < piles.len() ==> (#[trigger] piles[j]).cards.len() == 0,
    ensures
        cards_in(piles) == Multiset::<Card>::empty(),
    decreases piles.len(),
{
    if piles.len() > 0 {
        lemma_cards_in_empty(piles.drop_last());
        vstd::seq_lib::to_multiset_len(piles.last().cards);
        vstd::multiset::lemma_multiset_empty_len(piles.last().cards.to_multiset());
    }
}

/// Where one pile of a row gains one card, the row gains that card.
proof fn lemma_cards_in_gain(piles: Seq<PileView>, j: int, pile: PileView, card: Card)
    requires
        0 <= j < piles.len(),
        pile.cards.to_multiset() == piles[j].cards.to_multiset().insert(card),
    ensures
        cards_in(piles.update(j, pile)) == cards_in(piles).insert(card),
    decreases piles.len(),
{
    let updated = piles.update(j, pile);
    if j == piles.len() - 1 {
        assert(updated.drop_last() == piles.drop_last());
    } else {
        lemma_cards_in_gain(piles.drop_last(), j, pile, card);
        assert(updated.drop_last() == piles.drop_last().update(j, pile));
    }
}

impl Table {
    /// The piles of every table hold exactly one deck between them.
    #[verifier::type_invariant]
    pub open spec fn inv(self) -> bool {
        self@.wf()
    }

    /// Generate a new table from a fresh 52 card deck.
    ///
    /// To deal a game, cards are placed by row onto the seven tableau piles:
    /// row `i` skips the first `i` piles and gives one card to each of the
    /// others. The cards that are left form the draw pile.
    pub fn new() -> (table: Table)
        ensures
            table@ == TableView::dealt(),
            table@.wf(),
            forall|j: int| 0 <= j < 7 ==> (#[trigger] table@.stacks[j]).cards.len() == j + 1,
            cards_in(table@.stacks).len() == 28,
            table@.draw.cards.len() == 24,
            forall|k: int| 0 <= k < 4 ==> (#[trigger] table@.home[k]).cards.len() == 0,
            table@.all_cards().len() == 52,
    {
        let mut deck = Pile::deck52();
        let mut stacks: [Pile; 7] = [
            Pile::new().render_as(Cascade::new(0)),
            Pile::new().render_as(Cascade::new(1)),
            Pile::new().render_as(Cascade::new(2)),
            Pile::new().render_as(Cascade::new(3)),
            Pile::new().render_as(Cascade::new(4)),
            Pile::new().render_as(Cascade::new(5)),
            Pile::new().render_as(Cascade::new(6)),
        ];
        proof {
            lemma_dealt_before_values();
            assert(deck52_cards().take(52) == deck52_cards());
            assert forall|k: int| 0 <= k < 7 implies (#[trigger] stacks@[k])@ == dealt_stack(
                k,
                rows_served(k, 0, 0),
            ) by {
                assert(stacks@[k]@.cards == dealt_stack(k, 0).cards);
            }
            lemma_cards_in_empty(pile_views(stacks@));
        }
        let mut i: usize = 0;
        while i < 7
            invariant
                i <= 7,
                deck@ == (PileView {
                    cards: deck52_cards().take(52 - dealt_before(i as int)),
                    index: (52 - dealt_before(i as int)) as nat,
                    renderer: None,
                }),
                forall|k: int|
                    0 <= k < 7 ==> (#[trigger] stacks@[k])@ == dealt_stack(
                        k,
                        rows_served(k, i as int, i as int),
                    ),
                cards_in(pile_views(stacks@)).add(deck@.cards.to_multiset())
                    == deck52_cards().to_multiset(),
            decreases 7 - i,
        {
            let mut j: usize = i;
            while j < 7
                invariant
                    i < 7,
                    i <= j <= 7,
                    deck@ == (PileView {
                        cards: deck52_cards().take(52 - dealt_before(i as int) - (j - i)),
                        index: (52 - dealt_before(i as int) - (j - i)) as nat,
                        renderer: None,
                    }),
                    forall|k: int|
                        0 <= k < 7 ==> (#[trigger] stacks@[k])@ == dealt_stack(
                            k,
                            rows_served(k, i as int, j as int),
                        ),
                    cards_in(pile_views(stacks@)).add(deck@.cards.to_multiset())
                        == deck52_cards().to_multiset(),
                decreases 7 - j,
            {
                proof {
                    lemma_dealt_before_values();
                }
                let ghost before = stacks@;
                let ghost source = deck@;
                let ghost served = dealt_before(i as int) + (j - i);
                let card = deck.draw();
                assert(card == dealt_card(i as int, j as int));
                assert(deck@.cards == deck52_cards().take(52 - served - 1));
                stacks[j].place_top(card);
                proof {
                    assert(stacks@[j as int]@.cards == dealt_stack(j as int, i + 1).cards);
                    assert forall|k: int| 0 <= k < 7 implies (#[trigger] stacks@[k])@
                        == dealt_stack(k, rows_served(k, i as int, j + 1)) by {
                        if k != j {
                            assert(stacks@[k] == before[k]);
                        }
                    }
                    lemma_operations_conserve_cards(source, card);
                    lemma_operations_conserve_cards(before[j as int]@, card);
                    lemma_cards_in_gain(pile_views(before), j as int, stacks@[j as int]@, card);
                    assert(pile_views(stacks@) == pile_views(before).update(
                        j as int,
                        stacks@[j as int]@,
                    ));
                }
                j += 1;
            }
            proof {
                lemma_dealt_before_values();
            }
            i += 1;
        }
        let home: [Pile; 4] = [
            Pile::new().render_as(Straight),
            Pile::new().render_as(Straight),
            Pile::new().render_as(Straight),
            Pile::new().render_as(Straight),
        ];
        let draw = deck.render_as(Flippable);
        proof {
            lemma_dealt_before_values();
            lemma_cards_in_empty(pile_views(home@));
            assert(pile_views(stacks@) == TableView::dealt().stacks);
            assert(pile_views(home@) == TableView::dealt().home);
            assert(draw@ == TableView::dealt().draw);
            assert(cards_in(pile_views(stacks@)).add(cards_in(pile_views(home@))).add(
                draw@.cards.to_multiset(),
            ) == deck52_cards().to_multiset());
            vstd::seq_lib::to_multiset_len(deck52_cards());
            vstd::seq_lib::to_multiset_len(draw@.cards);
        }
        Table { stacks, home, draw }
    }

    /// Returns the seven tableau piles.
    pub fn stacks(&self) -> (piles: &[Pile; 7])
        ensures
            pile_views(piles@) == self@.stacks,
            self@.wf(),
    {
        proof {
            use_type_invariant(self);
        }
        &self.stacks
    }

    /// Returns the four foundations.
    pub fn home(&self) -> (piles: &[Pile; 4])
        ensures
            pile_views(piles@) == self@.home,
            self@.wf(),
    {
        proof {
            use_type_invariant(self);
        }
        &self.home
    }

    /// Returns the draw pile.
    pub fn draw(&self) -> (pile: &Pile)
        ensures
            pile@ == self@.draw,
            self@.wf(),
    {
        proof {
            use_type_invariant(self);
        }
        &self.draw
    }
}

} // verus!
