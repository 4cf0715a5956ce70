//! A chess position held as twelve bitboards, one per colour and piece
//! type, with square notation decoding and single-move application.

pub mod board;
pub mod theorems;
pub mod moves;
pub mod notation;
pub mod types;
