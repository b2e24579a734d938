//! Board representation and move-legality engine for a two-player, 8x8
//! disc-flipping board game.
//!
//! The crate owns a compact encoding of board state ([`board::Board`]),
//! adjacency enumeration for any cell ([`board::neighbours::Neighbours`]),
//! directional ray-scanning from a cell ([`board::strider::Strider`]), and
//! the sandwich-capture rule that decides whether placing a disc at an empty
//! cell is legal for a given player.

pub mod board;
pub mod position;
