//! A dynamically typed, homogeneous vector value with four element kinds
//! (integer, double-precision float, string, boolean) and a dense set of
//! elementwise operators that follow dynamic-typing coercion rules: a
//! type-promotion table decides the result kind of each operation, and a
//! shared length-reconciliation rule pairs equal-length operands positionally
//! or broadcasts a length-1 operand. Illegal combinations yield typed errors,
//! never aborts.
pub mod arith;
pub mod compare;
pub mod convert;
pub mod fpbits;
pub mod laws;
pub mod logic;
pub mod numtext;
pub mod select;
pub mod strops;
pub mod value;
