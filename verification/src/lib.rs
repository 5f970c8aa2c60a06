//! Domain core of a personal portfolio application: portfolio content,
//! a scientific calculator with exact rational arithmetic and units, a text
//! analyzer, a color converter, session snapshots and the command stream.
pub mod text;
pub mod bignum;
pub mod float;
pub mod engine;
pub mod domain;
pub mod ui;
