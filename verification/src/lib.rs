//! Physical dimensions of standard paper formats.
//!
//! A sheet is named by a [`Format`] and held in an [`Orientation`]; its two
//! sides come back as exact [`Length`]s. The metric families (ISO 216,
//! JIS P 0138, SIS 014711) give sides that are irrational numbers of
//! millimetres, so a side is handed out as the product of roots that defines
//! it rather than as a rounded number; the inch formats give sides that are
//! whole tenths of a millimetre.
//!
//! What a length is in millimetres is said over the real numbers, by
//! `Length::measures`, and the laws of the metric series are proved of those
//! numbers.

pub mod exact;
pub mod format;
pub mod laws;
pub mod length;
pub mod sizing;

pub use format::{Format, Orientation};
pub use length::{Length, Radical};
