//! A grid engine for the game of snake, with the wall boards and the board
//! menu that surround it.
//!
//! The engine keeps the whole snake inside a square grid of integers: a body
//! cell holds its distance from the head, counted in ticks. One tick ages
//! every body cell, vacates the tail, and resolves the cell in front of the
//! head as a move, a meal or a collision.

pub mod board;
pub mod cell;
pub mod engine;
pub mod laws;
pub mod model;
pub mod point;
pub mod proofs;
mod random;
pub mod select_board;
pub mod text;
