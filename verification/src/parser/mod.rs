pub mod decorator;
pub mod grammar_helpers;
pub mod wrapper;
