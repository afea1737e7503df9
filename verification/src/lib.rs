pub mod board;
pub mod engine;
pub mod errors;
pub mod eval;
pub mod fen;
pub mod laws;
pub mod piece;
pub mod position;
pub mod rules;
pub mod session;
