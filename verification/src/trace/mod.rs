//! The polynomials of an execution trace.

pub mod poly_table;
