//! Conversion of Commodore 64 SEQ screen dumps into XBIN screen images.
//!
//! A SEQ stream is a sequence of PETSCII display bytes mixed with one-byte
//! control codes for colour, reverse video and clear-screen. The [`seq`]
//! module decodes such a stream into typed elements, [`screen`] folds the
//! elements into character/attribute cells, and [`xbin_header`] lays out the
//! XBIN container around them. [`convert`] ties the three together.

pub mod convert;
pub mod screen;
pub mod seq;
pub mod xbin_header;
