//! Hangman over a fixed bank of programming-language names: the game state
//! machine, the word bank with its descriptions, and the reading of a guess
//! from a line of input.

pub mod words;
pub mod game;
pub mod laws;
pub mod input;
