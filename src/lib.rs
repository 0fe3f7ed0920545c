//! A console word-guessing game and a number-guessing game, with the rules
//! of each stated and proved.
pub mod game;
pub mod input;
pub mod number;
mod random;
pub mod words;
