//! A minimal spreadsheet: a grid of cells that hold raw text, some of it
//! formulas, and the rules by which a cell's text becomes the value it shows.
//!
//! `sheet` stores the cells. `sheet_state` resolves a cell to its value,
//! through `engine_simple` for references to other cells and through
//! `engine_python` for script expressions. `address` and `reference` read and
//! write cell addresses, and `viewport` keeps the selected cell on screen.

pub mod address;
pub mod debounce;
pub mod engine_python;
pub mod engine_simple;
pub mod error;
pub mod reference;
pub mod sheet;
pub mod sheet_state;
pub mod text;
pub mod viewport;
