//! A verified core of a source-to-source compiler for LDPL, a verbose,
//! statement-oriented language, lowering programs to C++ source text.
use vstd::prelude::*;

pub mod ast;
pub mod compiler;
pub mod error;
pub mod lexer;
pub mod mangle;
pub mod numbers;
pub mod parser;
pub mod text;
pub mod types;

pub use error::LDPLError;
pub use types::LDPLType;

verus! {

/// What every fallible operation of this crate returns.
pub type LDPLResult<T> = core::result::Result<T, LDPLError>;

} // verus!
