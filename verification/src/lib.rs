//! Small verified building blocks for working with owned text, borrowed views
//! of it, and checked indexing.

pub mod boundary;
pub mod space;
pub mod word_offset;
pub mod word_slice;
pub mod ownership;
pub mod borrowing;
pub mod numeral;
pub mod indexing;
