//! The wire format as mathematics: which bytes stand for which value, and
//! which value a run of bytes stands for.

pub mod arith;
pub mod fixed;
pub mod varint;
pub mod number;
pub mod text;
pub mod roundtrip;
