//! What holds of the library as a whole, said of plain numbers and lists: what each operation gives
//! back or leaves behind, in terms of what it was given.

pub mod acceptance;
pub mod attestations;
pub mod blocks;
pub mod decoding;
pub mod duties;
pub mod encodings;
pub mod envelopes;
pub mod operations;
pub mod payments;
pub mod ptc;
pub mod roots;
pub mod services;
pub mod state;
pub mod sync;
pub mod text;
