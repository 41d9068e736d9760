//! A small Mahjong-style tile domain: the closed universe of tiles with a
//! total order, the wall (the shuffled supply of 136 physical tiles), and a
//! player's hand with in-place sorting.

pub mod hand;
pub mod tile;
pub mod wall;
