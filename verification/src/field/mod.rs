//! Finite fields: the interfaces that field elements implement, arithmetic
//! modulo a prime over the integers, the prime fields, and their quadratic and
//! cubic extensions.

pub mod traits;
pub mod modular;
pub mod number_theory;
pub mod power;
pub mod buffers;

pub mod fp62;
pub mod fp62_units;
pub mod fp64;
pub mod fp64_units;
pub mod fp128;
pub mod fp128_units;
pub mod fp252;
pub mod fp252_units;
pub mod roots;
pub mod prime;

pub mod quadratic;
pub mod cubic_spec;
pub mod cubic_norm;
pub mod extensible;
pub mod frobenius;
pub mod cubic_field;
pub mod cubic;

pub mod laws;
