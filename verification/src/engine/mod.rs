//! The scientific calculator: parsing, exact and approximate values, units.
pub mod syntax;
pub mod types;
pub mod value;
pub mod units;
pub mod ops;
pub mod funcs;
pub mod calls;
pub mod convert;
pub mod display;
pub mod vars;
pub mod literal;
pub mod parse;
pub mod calc;
pub mod complete;
pub mod machine;
