//! A verified tic-tac-toe core: a 3x3 board, a two-player game state
//! machine, and a session registry that hands games out to one caller
//! at a time by removing them from a shared collection (checkout) and
//! putting them back (checkin).

pub mod board;
pub mod game;
pub mod registry;
