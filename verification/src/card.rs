//! Playing cards: suit, value, their order, and the conversion from a numeric pair.

use std::cmp::Ordering;
use vstd::prelude::*;
use vstd::std_specs::cmp::PartialOrdSpec;

verus! {

/// The color of a suit.
///
/// Colors are not compared in executable code: comparisons go through [`Suit`].
#[derive(Copy, Clone, Debug)]
pub enum Color {
    Black,
    Red,
}

/// The four suits, declared in ascending order of their number.
#[derive(Copy, Clone, Debug, PartialEq, Eq, Structural, Ord)]
pub enum Suit {
    Clubs,
    Diamonds,
    Hearts,
    Spades,
}

/// The thirteen values of a suit, declared in ascending order of rank, ace low.
///
/// [`Number`](Value::Number) stands for the pip cards two to ten.
#[derive(Copy, Clone, Debug, PartialEq, Eq, Structural, Ord)]
pub enum Value {
    Ace,
    Number(u8),
    Jack,
    Queen,
    King,
}

/// A playing card: a value and a suit.
#[derive(Copy, Clone, Debug, PartialEq, Eq, Structural, Ord)]
pub struct Card {
    pub value: Value,
    pub suit: Suit,
}

/// Why a pair of numbers names no card.
#[derive(Copy, Clone, Debug, PartialEq, Eq, Structural)]
pub enum CardError {
    /// The first number is not a rank between 1 and 13.
    InvalidValue,
    /// The second number is not a suit between 1 and 4.
    InvalidSuit,
}

/// How two integers compare.
pub open spec fn order_of(a: int, b: int) -> Ordering {
    if a < b {
        Ordering::Less
    } else if a == b {
        Ordering::Equal
    } else {
        Ordering::Greater
    }
}

impl Suit {
    /// The color of the suit: spades and clubs are black, diamonds and hearts red.
    pub open spec fn color(self) -> Color {
        match self {
            Suit::Spades | Suit::Clubs => Color::Black,
            Suit::Diamonds | Suit::Hearts => Color::Red,
        }
    }

    /// The number of the suit, which also fixes the order of the suits.
    pub open spec fn number(self) -> int {
        match self {
            Suit::Clubs => 1,
            Suit::Diamonds => 2,
            Suit::Hearts => 3,
            Suit::Spades => 4,
        }
    }

    /// The suit with the given number, if there is one.
    pub open spec fn of_number(n: int) -> Option<Suit> {
        if n == 1 {
            Some(Suit::Clubs)
        } else if n == 2 {
            Some(Suit::Diamonds)
        } else if n == 3 {
            Some(Suit::Hearts)
        } else if n == 4 {
            Some(Suit::Spades)
        } else {
            None
        }
    }

    /// Returns the color of the suit.
    pub fn get_color(&self) -> (c: Color)
        ensures
            c == self.color(),
    {
        match self {
            Suit::Spades | Suit::Clubs => Color::Black,
            Suit::Diamonds | Suit::Hearts => Color::Red,
        }
    }

    /// Returns the number of the suit, between 1 and 4.
    pub fn get_number(&self) -> (n: u8)
        ensures
            n == self.number(),
    {
        match self {
            Suit::Clubs => 1,
            Suit::Diamonds => 2,
            Suit::Hearts => 3,
            Suit::Spades => 4,
        }
    }
}

impl Value {
    /// Whether the value is one of the thirteen of a suit: a pip card shows two to ten.
    pub open spec fn valid(self) -> bool {
        self matches Value::Number(n) ==> 2 <= n <= 10
    }

    /// The rank of the value, ace low: 1 for the ace, the pips of a pip card,
    /// 11, 12 and 13 for jack, queen and king.
    pub open spec fn rank(self) -> int {
        match self {
            Value::Ace => 1,
            Value::Number(n) => n as int,
            Value::Jack => 11,
            Value::Queen => 12,
            Value::King => 13,
        }
    }

    /// The value of the given rank, if the rank is between 1 and 13.
    pub open spec fn of_rank(rank: int) -> Option<Value> {
        if rank == 1 {
            Some(Value::Ace)
        } else if 2 <= rank <= 10 {
            Some(Value::Number(rank as u8))
        } else if rank == 11 {
            Some(Value::Jack)
        } else if rank == 12 {
            Some(Value::Queen)
        } else if rank == 13 {
            Some(Value::King)
        } else {
            None
        }
    }

    /// The integer by which values are ordered. It tells every value from every
    /// other, also a pip card outside two to ten: the ace comes first, then the
    /// pip cards by their pips, then jack, queen and king.
    pub open spec fn order_key(self) -> int {
        match self {
            Value::Ace => 0,
            Value::Number(n) => 1 + n,
            Value::Jack => 257,
            Value::Queen => 258,
            Value::King => 259,
        }
    }

    /// Returns whether the value is one of the thirteen of a suit.
    pub fn is_valid(&self) -> (b: bool)
        ensures
            b == self.valid(),
    {
        match self {
            Value::Number(n) => 2 <= *n && *n <= 10,
            _ => true,
        }
    }

    /// Returns if the card is a face card.
    ///
    /// The ace is not considered a face card.
    pub fn is_face(&self) -> (b: bool)
        ensures
            b == (self is Jack || self is Queen || self is King),
    {
        match self {
            Value::Jack | Value::Queen | Value::King => true,
            _ => false,
        }
    }

    /// Returns the rank of the value.
    pub fn get_rank(&self) -> (r: u8)
        ensures
            r == self.rank(),
    {
        match self {
            Value::Ace => 1,
            Value::Number(n) => *n,
            Value::Jack => 11,
            Value::Queen => 12,
            Value::King => 13,
        }
    }

    /// Returns the integer by which values are ordered.
    pub fn get_order_key(&self) -> (k: u16)
        ensures
            k == self.order_key(),
    {
        match self {
            Value::Ace => 0,
            Value::Number(n) => 1 + (*n as u16),
            Value::Jack => 257,
            Value::Queen => 258,
            Value::King => 259,
        }
    }
}

impl Card {
    /// The card that a pair of a rank and a suit number names, or the reason
    /// why it names none. A rank outside 1 to 13 is an error whatever the
    /// suit; the suit is looked at only where the rank is valid.
    pub open spec fn of_pair(rank: u8, suit: u8) -> Result<Card, CardError> {
        match Value::of_rank(rank as int) {
            None => Err(CardError::InvalidValue),
            Some(value) => match Suit::of_number(suit as int) {
                None => Err(CardError::InvalidSuit),
                Some(suit) => Ok(Card { value, suit }),
            },
        }
    }

    /// Construct a new card with a value and a suit.
    pub fn new(value: Value, suit: Suit) -> (card: Card)
        ensures
            card.value == value,
            card.suit == suit,
    {
        Card { value, suit }
    }

    /// Construct a card from a rank between 1 and 13 and a suit number between
    /// 1 and 4.
    pub fn from_pair(rank: u8, suit: u8) -> (r: Result<Card, CardError>)
        ensures
            r == Card::of_pair(rank, suit),
            r is Ok <==> 1 <= rank <= 13 && 1 <= suit <= 4,
            r matches Ok(card) ==> card.value.valid() && card.value.rank() == rank
                && card.suit.number() == suit,
            r matches Err(e) ==> (e == CardError::InvalidValue <==> !(1 <= rank <= 13)),
    {
        let value = match rank {
            1 => Value::Ace,
            2..=10 => Value::Number(rank),
            11 => Value::Jack,
            12 => Value::Queen,
            13 => Value::King,
            _ => return Err(CardError::InvalidValue),
        };
        let suit = match suit {
            1 => Suit::Clubs,
            2 => Suit::Diamonds,
            3 => Suit::Hearts,
            4 => Suit::Spades,
            _ => return Err(CardError::InvalidSuit),
        };
        Ok(Card { value, suit })
    }
}

impl PartialOrd for Suit {
    /// Suits are ordered by their number.
    fn partial_cmp(&self, other: &Suit) -> (r: Option<Ordering>) {
        let a = self.get_number();
        let b = other.get_number();
        if a < b {
            Some(Ordering::Less)
        } else if a == b {
            Some(Ordering::Equal)
        } else {
            Some(Ordering::Greater)
        }
    }
}

impl vstd::std_specs::cmp::PartialOrdSpecImpl for Suit {
    open spec fn obeys_partial_cmp_spec() -> bool {
        true
    }

    open spec fn partial_cmp_spec(&self, other: &Suit) -> Option<Ordering> {
        Some(order_of(self.number(), other.number()))
    }
}

impl PartialOrd for Value {
    /// Values are ordered by their order key: by rank, where both are valid.
    fn partial_cmp(&self, other: &Value) -> (r: Option<Ordering>) {
        let a = self.get_order_key();
        let b = other.get_order_key();
        if a < b {
            Some(Ordering::Less)
        } else if a == b {
            Some(Ordering::Equal)
        } else {
            Some(Ordering::Greater)
        }
    }
}

impl vstd::std_specs::cmp::PartialOrdSpecImpl for Value {
    open spec fn obeys_partial_cmp_spec() -> bool {
        true
    }

    open spec fn partial_cmp_spec(&self, other: &Value) -> Option<Ordering> {
        Some(order_of(self.order_key(), other.order_key()))
    }
}

impl PartialOrd for Card {
    /// Cards are ordered by value first; the suit breaks ties.
    fn partial_cmp(&self, other: &Card) -> (r: Option<Ordering>) {
        let a = self.value.get_order_key();
        let b = other.value.get_order_key();
        if a < b {
            Some(Ordering::Less)
        } else if a > b {
            Some(Ordering::Greater)
        } else {
            self.suit.partial_cmp(&other.suit)
        }
    }
}

impl vstd::std_specs::cmp::PartialOrdSpecImpl for Card {
    open spec fn obeys_partial_cmp_spec() -> bool {
        true
    }

    open spec fn partial_cmp_spec(&self, other: &Card) -> Option<Ordering> {
        if self.value.order_key() != other.value.order_key() {
            Some(order_of(self.value.order_key(), other.value.order_key()))
        } else {
            Some(order_of(self.suit.number(), other.suit.number()))
        }
    }
}

impl TryFrom<(u8, u8)> for Card {
    type Error = CardError;

    /// Construct a card from a pair whose first number is the rank and whose
    /// second is the suit.
    fn try_from(pair: (u8, u8)) -> (r: Result<Card, CardError>) {
        Card::from_pair(pair.0, pair.1)
    }
}

impl vstd::std_specs::convert::TryFromSpecImpl<(u8, u8)> for Card {
    open spec fn obeys_try_from_spec() -> bool {
        true
    }

    open spec fn try_from_spec(pair: (u8, u8)) -> Result<Card, CardError> {
        Card::of_pair(pair.0, pair.1)
    }
}

/// What can be placed on a pile: a card, or a pair of numbers that names one.
pub trait ToCard {
    /// The card that the value stands for, or the reason why it stands for none.
    spec fn card(&self) -> Result<Card, CardError>;

    /// Converts the value to the card it stands for.
    fn to_card(&self) -> (r: Result<Card, CardError>)
        ensures
            r == self.card(),
    ;
}

impl ToCard for Card {
    open spec fn card(&self) -> Result<Card, CardError> {
        Ok(*self)
    }

    fn to_card(&self) -> (r: Result<Card, CardError>) {
        Ok(*self)
    }
}

impl ToCard for (u8, u8) {
    open spec fn card(&self) -> Result<Card, CardError> {
        Card::of_pair(self.0, self.1)
    }

    fn to_card(&self) -> (r: Result<Card, CardError>) {
        Card::from_pair(self.0, self.1)
    }
}

impl CardError {
    /// Returns the error in words.
    pub fn message(&self) -> (text: &'static str)
        ensures
            text@ == match self {
                CardError::InvalidValue => "Invalid card value"@,
                CardError::InvalidSuit => "Invalid card suit"@,
            },
    {
        match self {
            CardError::InvalidValue => "Invalid card value",
            CardError::InvalidSuit => "Invalid card suit",
        }
    }
}

/// A valid value is the value of its rank, and its rank lies between 1 and 13.
pub proof fn lemma_valid_value_rank(value: Value)
    requires
        value.valid(),
    ensures
        1 <= value.rank() <= 13,
        Value::of_rank(value.rank()) == Some(value),
{
}

/// Valid values are ordered by rank, ace low: the ace, the pip cards from two
/// to ten, then jack, queen and king.
pub proof fn lemma_value_order_by_rank(a: Value, b: Value)
    requires
        a.valid(),
        b.valid(),
    ensures
        a.partial_cmp_spec(&b) == Some(order_of(a.rank(), b.rank())),
{
}

/// The order of the cards is total: two cards compare equal exactly when
/// they are the same card, the order is antisymmetric, and it is transitive.
pub proof fn lemma_card_order_total(a: Card, b: Card, c: Card)
    ensures
        a.partial_cmp_spec(&b) == Some(Ordering::Equal) <==> a == b,
        a.partial_cmp_spec(&b) == Some(Ordering::Less) <==> b.partial_cmp_spec(&a) == Some(
            Ordering::Greater,
        ),
        a.partial_cmp_spec(&b) == Some(Ordering::Less) && b.partial_cmp_spec(&c) == Some(
            Ordering::Less,
        ) ==> a.partial_cmp_spec(&c) == Some(Ordering::Less),
{
}

} // verus!
