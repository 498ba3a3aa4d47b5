//! The engine of a keyboard-driven Klondike Solitaire: the cards, the piles
//! they are grouped into, and the table that deals a fresh deck into a game
//! layout. Every operation carries a contract that Verus proves.

pub mod card;
pub mod pile;
pub mod table;
