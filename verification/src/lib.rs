//! Reads the transactions of credit card statements from the pages of
//! their PDF files.
//!
//! A page is a list of drawing operators. [`text_state`] follows the
//! typographic state through the operators and [`font`] turns the bytes of
//! each drawn string into text; [`pipeline`] cuts the text into fragments,
//! and [`rows`] groups the fragments into transactions. [`guarantees`]
//! holds what is proved of the row machine beyond the contracts of its
//! functions, and [`render`] prints rows as cells and proves that they
//! are read back as they were.

pub mod amount;
pub mod categories;
pub mod date;
pub mod font;
pub mod font_cache;
pub mod guarantees;
pub mod labels;
pub mod number;
pub mod ordering;
pub mod page;
pub mod pipeline;
pub mod points;
pub mod render;
pub mod rows;
pub mod text;
pub mod text_state;
pub mod transaction;
