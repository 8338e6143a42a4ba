//! The canonical structured encoding used inside token segments: flat objects
//! whose members are byte strings or unsigned integers, written without any
//! optional whitespace and with exactly one spelling for every value.

pub mod string;
pub mod number;
pub mod object;
