//! Sparse count matrices in compressed-sparse-row form, turned into dense
//! delimited tables: validation of the row arrays, choice of orientation,
//! and lazy expansion of each sparse row with zeros filled in.
mod text;
mod sparse;

pub mod csr;
pub mod element;
pub mod error;
pub mod options;
pub mod row;
pub mod table;
