//! A binary-coded-decimal clock for a text terminal.
//!
//! Each decimal digit of the current time (HHMMSS) is shown as a column of
//! four cells, the rows standing for the bit weights 8, 4, 2 and 1 from top
//! to bottom. The digit-to-bits decomposition and the fixed-grid rendering
//! are verified; reading the wall clock and writing to the terminal are left
//! to the surrounding program.

pub mod clock;
pub mod column;
mod time_source;
