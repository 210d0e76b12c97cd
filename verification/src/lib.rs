//! A parser for the REACLIB nuclear reaction rate format.
//!
//! A REACLIB file is a fixed-column text file. Every rate entry, a [`Record`],
//! takes three lines; its layout depends on the [`Chapter`] it belongs to, which
//! fixes how many reactants and products it names. Two dialects exist, told
//! apart by [`Format`]: in the first a three-line chapter header precedes a run
//! of entries, in the second a one-line header precedes each entry.
//!
//! [`Iter`] walks a queue of lines and yields one decoded entry, or one typed
//! error, per pull. [`to_hash_map`] gathers the entries of a whole input by
//! reaction.
//!
//! The library never reads a file and never computes with real numbers: lines
//! come in as values, and a numeric column is kept as the decimal text it was
//! written as, checked against the grammar of a decimal number.
pub mod chapter;
pub mod error;
pub mod iter;
pub mod laws;
pub mod map;
pub mod nuclide;
pub mod number;
pub mod record;
pub mod resonance;
pub mod text;

pub use crate::chapter::Chapter;
pub use crate::error::{Fault, ReaclibError};
pub use crate::iter::{Format, Iter, Line};
pub use crate::map::to_hash_map;
pub use crate::nuclide::{Nuclide, Reaction};
pub use crate::number::Number;
pub use crate::record::Record;
pub use crate::resonance::Resonance;
