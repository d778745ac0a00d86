//! Reading and writing homogeneous CSV data as dense two-dimensional arrays.
//!
//! A record source (a `csv::Reader`) yields rows of values; the readers
//! check them against an array shape, given or inferred, and gather them
//! into a row-major [`DenseArray`]. The writer encodes an array one record
//! per row with a `csv::Writer` over an in-memory buffer, whose bytes the
//! caller sends on.
//!
//! Each step is stated over a model: [`rules`] says what a read gives for
//! every sequence of decoded rows, and [`laws`] proves what follows of it.
use vstd::prelude::*;

pub mod array;
pub mod error;
pub mod fill;
pub mod laws;
pub mod reader;
pub mod rules;
pub mod source;
pub mod sink;
pub mod writer;

pub use array::{ArrayView, DenseArray};
pub use error::ReadError;
pub use fill::{DynamicFill, FixedFill};
pub use reader::Array2Reader;
pub use writer::Array2Writer;
