//! Codec for IBM 80-column punch cards: printable text, Hollerith punch
//! patterns, the dense 12-bit-per-column object format and EBCDIC bytes.

pub mod bits;
pub mod ebcdic;
pub mod formats;
pub mod hollerith;
pub mod ibm1130;
pub mod punch_card;
pub mod rows;
pub mod text;
