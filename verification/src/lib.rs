//! A composable container that pairs a computed value with a set of
//! accumulated diagnostic flags, so a pipeline of steps can keep running
//! through non-fatal conditions and turn them into a hard error only when
//! the caller asks for an outcome.

pub mod flag_set;
pub mod flagged;
