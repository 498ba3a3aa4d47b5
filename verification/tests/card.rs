use std::cmp::Ordering;
use termitaire_lib::card::{Card, CardError, Color, Suit, ToCard, Value};

const SUITS: [Suit; 4] = [Suit::Clubs, Suit::Diamonds, Suit::Hearts, Suit::Spades];

fn value_of(rank: u8) -> Value {
    match rank {
        1 => Value::Ace,
        11 => Value::Jack,
        12 => Value::Queen,
        13 => Value::King,
        n => Value::Number(n),
    }
}

#[test]
fn from_pair_rejects_a_rank_of_zero() {
    assert_eq!(Card::from_pair(0, 1), Err(CardError::InvalidValue));
}

#[test]
fn from_pair_rejects_a_suit_of_zero() {
    assert_eq!(Card::from_pair(1, 0), Err(CardError::InvalidSuit));
}

#[test]
fn from_pair_gives_the_ace_of_clubs() {
    assert_eq!(Card::from_pair(1, 1), Ok(Card::new(Value::Ace, Suit::Clubs)));
}

#[test]
fn from_pair_maps_every_rank() {
    assert_eq!(Card::from_pair(1, 2), Ok(Card::new(Value::Ace, Suit::Diamonds)));
    for rank in 2..=10u8 {
        assert_eq!(Card::from_pair(rank, 2), Ok(Card::new(Value::Number(rank), Suit::Diamonds)));
    }
    assert_eq!(Card::from_pair(11, 2), Ok(Card::new(Value::Jack, Suit::Diamonds)));
    assert_eq!(Card::from_pair(12, 2), Ok(Card::new(Value::Queen, Suit::Diamonds)));
    assert_eq!(Card::from_pair(13, 2), Ok(Card::new(Value::King, Suit::Diamonds)));
}

#[test]
fn from_pair_maps_every_suit() {
    assert_eq!(Card::from_pair(5, 1), Ok(Card::new(Value::Number(5), Suit::Clubs)));
    assert_eq!(Card::from_pair(5, 2), Ok(Card::new(Value::Number(5), Suit::Diamonds)));
    assert_eq!(Card::from_pair(5, 3), Ok(Card::new(Value::Number(5), Suit::Hearts)));
    assert_eq!(Card::from_pair(5, 4), Ok(Card::new(Value::Number(5), Suit::Spades)));
}

#[test]
fn from_pair_over_all_pairs() {
    for rank in 0..=255u8 {
        for suit in 0..=255u8 {
            let got = Card::from_pair(rank, suit);
            if !(1..=13).contains(&rank) {
                assert_eq!(got, Err(CardError::InvalidValue));
            } else if !(1..=4).contains(&suit) {
                assert_eq!(got, Err(CardError::InvalidSuit));
            } else {
                let card = got.unwrap();
                assert_eq!(card.value, value_of(rank));
                assert_eq!(card.value.get_rank(), rank);
                assert_eq!(card.suit.get_number(), suit);
                assert_eq!(card.suit, SUITS[suit as usize - 1]);
            }
        }
    }
}

#[test]
fn from_pair_reports_the_rank_first() {
    assert_eq!(Card::from_pair(14, 5), Err(CardError::InvalidValue));
    assert_eq!(Card::from_pair(0, 0), Err(CardError::InvalidValue));
    assert_eq!(Card::from_pair(13, 5), Err(CardError::InvalidSuit));
}

#[test]
fn try_from_is_from_pair() {
    assert_eq!(Card::try_from((12, 3)), Ok(Card::new(Value::Queen, Suit::Hearts)));
    assert_eq!(Card::try_from((14, 3)), Err(CardError::InvalidValue));
    assert_eq!(Card::try_from((12, 9)), Err(CardError::InvalidSuit));
    let card: Card = (4, 1).try_into().unwrap();
    assert_eq!(card, Card::new(Value::Number(4), Suit::Clubs));
}

#[test]
fn to_card_of_a_pair_and_of_a_card() {
    assert_eq!((10u8, 4u8).to_card(), Ok(Card::new(Value::Number(10), Suit::Spades)));
    assert_eq!((0u8, 4u8).to_card(), Err(CardError::InvalidValue));
    assert_eq!((10u8, 0u8).to_card(), Err(CardError::InvalidSuit));
    let card = Card::new(Value::King, Suit::Hearts);
    assert_eq!(card.to_card(), Ok(card));
}

#[test]
fn new_keeps_value_and_suit() {
    let card = Card::new(Value::Number(7), Suit::Hearts);
    assert_eq!(card.value, Value::Number(7));
    assert_eq!(card.suit, Suit::Hearts);
}

#[test]
fn cards_are_equal_when_value_and_suit_match() {
    assert_eq!(Card::new(Value::Jack, Suit::Clubs), Card::new(Value::Jack, Suit::Clubs));
    assert_ne!(Card::new(Value::Jack, Suit::Clubs), Card::new(Value::Jack, Suit::Spades));
    assert_ne!(Card::new(Value::Jack, Suit::Clubs), Card::new(Value::Queen, Suit::Clubs));
    assert_ne!(Card::new(Value::Number(2), Suit::Clubs), Card::new(Value::Number(3), Suit::Clubs));
}

#[test]
fn error_messages() {
    assert_eq!(CardError::InvalidValue.message(), "Invalid card value");
    assert_eq!(CardError::InvalidSuit.message(), "Invalid card suit");
}

#[test]
fn colors_of_the_suits() {
    assert!(matches!(Suit::Spades.get_color(), Color::Black));
    assert!(matches!(Suit::Clubs.get_color(), Color::Black));
    assert!(matches!(Suit::Diamonds.get_color(), Color::Red));
    assert!(matches!(Suit::Hearts.get_color(), Color::Red));
}

#[test]
fn numbers_of_the_suits() {
    assert_eq!(Suit::Clubs.get_number(), 1);
    assert_eq!(Suit::Diamonds.get_number(), 2);
    assert_eq!(Suit::Hearts.get_number(), 3);
    assert_eq!(Suit::Spades.get_number(), 4);
}

#[test]
fn face_cards() {
    assert!(Value::Jack.is_face());
    assert!(Value::Queen.is_face());
    assert!(Value::King.is_face());
    assert!(!Value::Ace.is_face());
    for n in 2..=10u8 {
        assert!(!Value::Number(n).is_face());
    }
}

#[test]
fn ranks_of_the_values() {
    assert_eq!(Value::Ace.get_rank(), 1);
    assert_eq!(Value::Number(2).get_rank(), 2);
    assert_eq!(Value::Number(10).get_rank(), 10);
    assert_eq!(Value::Jack.get_rank(), 11);
    assert_eq!(Value::Queen.get_rank(), 12);
    assert_eq!(Value::King.get_rank(), 13);
}

#[test]
fn order_keys_of_the_values() {
    assert_eq!(Value::Ace.get_order_key(), 0);
    assert_eq!(Value::Number(0).get_order_key(), 1);
    assert_eq!(Value::Number(2).get_order_key(), 3);
    assert_eq!(Value::Number(255).get_order_key(), 256);
    assert_eq!(Value::Jack.get_order_key(), 257);
    assert_eq!(Value::Queen.get_order_key(), 258);
    assert_eq!(Value::King.get_order_key(), 259);
}

#[test]
fn values_are_ordered_by_rank_ace_low() {
    for a in 1..=13u8 {
        for b in 1..=13u8 {
            let (x, y) = (value_of(a), value_of(b));
            assert_eq!(x.partial_cmp(&y), Some(a.cmp(&b)));
            assert_eq!(x.cmp(&y), a.cmp(&b));
            assert_eq!(x < y, a < b);
        }
    }
    assert!(Value::Queen < Value::King);
    assert!(Value::Ace < Value::Number(2));
    assert!(Value::Number(10) < Value::Jack);
}

#[test]
fn value_order_agrees_with_the_total_order_on_every_value() {
    let mut all = vec![Value::Ace, Value::Jack, Value::Queen, Value::King];
    for n in 0..=255u8 {
        all.push(Value::Number(n));
    }
    for x in &all {
        for y in &all {
            assert_eq!(x.partial_cmp(y), Some(x.cmp(y)));
            assert_eq!(x.partial_cmp(y), Some(x.get_order_key().cmp(&y.get_order_key())));
            assert_eq!(x.cmp(y) == Ordering::Equal, x == y);
        }
    }
}

#[test]
fn suits_are_ordered_by_number() {
    for (i, x) in SUITS.iter().enumerate() {
        for (j, y) in SUITS.iter().enumerate() {
            assert_eq!(x.partial_cmp(y), Some(i.cmp(&j)));
            assert_eq!(x.cmp(y), i.cmp(&j));
        }
    }
    assert!(Suit::Clubs < Suit::Diamonds);
    assert!(Suit::Diamonds < Suit::Hearts);
    assert!(Suit::Hearts < Suit::Spades);
}

#[test]
fn cards_are_ordered_by_value_then_suit() {
    let two_of_spades = Card::new(Value::Number(2), Suit::Spades);
    let three_of_clubs = Card::new(Value::Number(3), Suit::Clubs);
    let three_of_hearts = Card::new(Value::Number(3), Suit::Hearts);
    assert!(two_of_spades < three_of_clubs);
    assert!(three_of_clubs < three_of_hearts);
    assert!(three_of_hearts > two_of_spades);
    assert_eq!(three_of_clubs.partial_cmp(&three_of_clubs), Some(Ordering::Equal));
    assert_eq!(two_of_spades.partial_cmp(&three_of_clubs), Some(Ordering::Less));
    assert_eq!(three_of_hearts.partial_cmp(&three_of_clubs), Some(Ordering::Greater));
}

#[test]
fn card_order_agrees_with_the_total_order_on_the_deck() {
    let mut deck = Vec::new();
    for rank in 1..=13u8 {
        for suit in 1..=4u8 {
            deck.push(Card::from_pair(rank, suit).unwrap());
        }
    }
    for (i, x) in deck.iter().enumerate() {
        for (j, y) in deck.iter().enumerate() {
            assert_eq!(x.partial_cmp(y), Some(i.cmp(&j)));
            assert_eq!(x.cmp(y), i.cmp(&j));
            assert_eq!(x == y, i == j);
        }
    }
    let mut sorted = deck.clone();
    sorted.reverse();
    sorted.sort();
    assert_eq!(sorted, deck);
}

#[test]
fn valid_values_are_the_thirteen_of_a_suit() {
    assert!(Value::Ace.is_valid());
    assert!(Value::Jack.is_valid());
    assert!(Value::Queen.is_valid());
    assert!(Value::King.is_valid());
    for n in 0..=255u8 {
        assert_eq!(Value::Number(n).is_valid(), (2..=10).contains(&n));
    }
    for rank in 1..=13u8 {
        assert!(Card::from_pair(rank, 1).unwrap().value.is_valid());
    }
}
