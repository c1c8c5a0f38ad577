//! Dice Ball: the rules of a two-dice table game, its betting ledger and
//! a strategy simulator, with their contracts.

pub mod chips;
pub mod dice;
pub mod player;
pub mod rules;
pub mod sim;
pub mod table;
pub mod text;
