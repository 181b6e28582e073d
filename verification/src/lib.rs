//! Parsing and rendering of traditional Japanese numerals.
//!
//! The supported notation spans the magnitude markers from 垓 (ten to the
//! twentieth power) down to the fractional marker 毛 (ten to the minus third),
//! with the grammar's irregularities: place markers inside a four-digit group
//! must appear in strictly descending order, magnitude and fractional markers
//! must appear in strictly descending significance, the digit one is elided
//! before place markers, and fractional positions accept a single digit only.

pub mod digit;
pub mod keta;
pub mod value;
pub mod parse;
pub mod laws;

pub use digit::KansujiField;
pub use keta::KansujiKeta;
pub use value::Kansuji;
pub use value::KansujiError;
pub use parse::parse_keta;
pub use parse::parse_kansuji;
