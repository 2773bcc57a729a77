//! A chess rules engine with a fixed-depth adversarial search.
//!
//! The board is an 8x8 grid of optional pieces together with capture
//! tallies and the has-moved flags that govern castling. Per-piece
//! movement rules, check detection, legal-move enumeration, a static
//! evaluator and a negamax search are all specified over a mathematical
//! model of the board and verified against it.

pub mod board;
pub mod mvp;
pub mod mvg;
pub mod pieces_table;
pub mod ai_minmax;
pub mod laws;
pub mod notation;
