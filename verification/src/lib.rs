//! Move encoding, board planes, replay memory and training schedule of a
//! chess-playing Q-learning agent.

pub mod chess;
pub mod encode;
pub mod model;
pub mod replay;
pub mod train;
