//! Arithmetic core of a STARK proof system: prime fields and their quadratic and
//! cubic extensions, vector primitives over them, boundary assertions against an
//! execution trace, and the table of trace polynomials.
//!
//! Every field element is modelled by its canonical residue (base fields) or by
//! the tuple of canonical residues of its coefficients (extensions); all contracts
//! are stated over those integers.

pub mod field;

pub mod errors;
pub mod bytes;
pub mod utils;
pub mod assertions;
pub mod matrix;
pub mod polynom;
pub mod trace;
pub mod text;
