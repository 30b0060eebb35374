//! Verified core of a fast XLSX writer for Python: how Python values become
//! spreadsheet cells, how column type hints and cached formats evolve as
//! cells are written, cell address notation, and the workbook bookkeeping
//! around the `rust_xlsxwriter` engine.
pub mod text;
pub mod read;
pub mod xlsx;
pub mod error;
pub mod pyvalue;
pub mod pyconv;

pub mod write;
