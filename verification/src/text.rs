//! Text handling. Every operation is specified on the sequence of characters of a string.

pub mod ascii;
pub mod chars;
pub mod edit;
pub mod laws;
pub mod number;
pub mod order;
pub mod search;
pub mod split;
pub mod trim;
