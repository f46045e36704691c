//! Guess evaluation and accumulated letter knowledge for a word-guessing game.
//!
//! A game hides a word of fixed length. Each submitted guess is compared with
//! the hidden word position by position; what was learned is stored per round
//! (per (letter, position) facts and "at least N copies" bounds per letter)
//! and carried forward into the next round. Tile and keyboard hints are
//! derived from that stored knowledge.

pub mod daily;
pub mod evaluate;
pub mod game;
pub mod hints;
pub mod knowledge;
pub mod laws;
pub mod words;
