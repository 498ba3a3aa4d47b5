use termitaire_lib::card::{Card, Suit, Value};
use termitaire_lib::pile::{Pile, Strategy};
use termitaire_lib::table::Table;

#[test]
fn deal_gives_column_j_its_j_plus_one_cards() {
    let table = Table::new();
    let mut total = 0;
    for j in 0..7 {
        assert_eq!(table.stacks()[j].len(), j + 1);
        assert_eq!(table.stacks()[j].cursor(), j + 1);
        total += table.stacks()[j].len();
    }
    assert_eq!(total, 28);
}

#[test]
fn deal_leaves_24_cards_to_draw() {
    let table = Table::new();
    assert_eq!(table.draw().len(), 24);
    assert_eq!(table.draw().cursor(), 24);
}

#[test]
fn deal_leaves_the_foundations_empty() {
    let table = Table::new();
    for k in 0..4 {
        assert_eq!(table.home()[k].len(), 0);
        assert_eq!(table.home()[k].cursor(), 0);
    }
}

#[test]
fn table_holds_one_deck() {
    let table = Table::new();
    let mut all: Vec<Card> = Vec::new();
    for pile in table.stacks().iter() {
        all.extend_from_slice(pile.cards());
    }
    for pile in table.home().iter() {
        all.extend_from_slice(pile.cards());
    }
    all.extend_from_slice(table.draw().cards());
    assert_eq!(all.len(), 52);
    let mut deck = Pile::deck52().cards().to_vec();
    all.sort();
    deck.sort();
    assert_eq!(all, deck);
    for pair in all.windows(2) {
        assert_ne!(pair[0], pair[1]);
    }
}

#[test]
fn deal_assigns_the_strategies() {
    let table = Table::new();
    for j in 0..7 {
        assert_eq!(table.stacks()[j].renderer(), Some(Strategy::Cascade { n_hidden: j }));
    }
    for k in 0..4 {
        assert_eq!(table.home()[k].renderer(), Some(Strategy::Straight));
    }
    assert_eq!(table.draw().renderer(), Some(Strategy::Flippable));
}

#[test]
fn deal_draws_from_the_end_of_the_deck_row_by_row() {
    let table = Table::new();
    let deck = Pile::deck52().cards().to_vec();
    let mut next = 52;
    let mut expected: Vec<Vec<Card>> = vec![Vec::new(); 7];
    for i in 0..7 {
        for column in expected.iter_mut().skip(i) {
            next -= 1;
            column.push(deck[next]);
        }
    }
    assert_eq!(next, 24);
    for j in 0..7 {
        assert_eq!(table.stacks()[j].cards(), expected[j].as_slice());
    }
    assert_eq!(table.draw().cards(), &deck[..24]);
}

#[test]
fn deal_places_known_cards() {
    let table = Table::new();
    assert_eq!(table.stacks()[0].cards()[0], Card::new(Value::Ace, Suit::Spades));
    assert_eq!(table.stacks()[1].cards()[0], Card::new(Value::Number(2), Suit::Spades));
    assert_eq!(table.stacks()[6].cards()[0], Card::new(Value::Number(7), Suit::Spades));
    assert_eq!(table.stacks()[1].cards()[1], Card::new(Value::Number(8), Suit::Spades));
    assert_eq!(table.stacks()[6].cards()[1], Card::new(Value::King, Suit::Spades));
    assert_eq!(table.stacks()[2].cards()[2], Card::new(Value::Ace, Suit::Hearts));
    assert_eq!(table.stacks()[6].cards()[6], Card::new(Value::Number(2), Suit::Diamonds));
    assert_eq!(*table.stacks()[6].top(), Card::new(Value::Number(2), Suit::Diamonds));
    assert_eq!(table.draw().cards()[0], Card::new(Value::King, Suit::Clubs));
    assert_eq!(*table.draw().top(), Card::new(Value::Number(3), Suit::Diamonds));
}
