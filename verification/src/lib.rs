//! A chess position engine: a compact 8x8 board of packed piece codes,
//! move application with full legality checking, and detection of
//! checkmate, stalemate and the implemented draw condition.

pub mod codes;
pub mod rules;
pub mod engine;
pub mod board;
pub mod laws;
