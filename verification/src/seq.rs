//! Decoding of SEQ streams: the control-code table, the stream decoder and
//! the error of a conversion.

pub mod seq2xb_error;
pub mod seq_iterator;

pub use seq2xb_error::Seq2XBinError;
pub use seq_iterator::{C64Color, IntoSeqIterator, SeqElement, SeqIterator};
