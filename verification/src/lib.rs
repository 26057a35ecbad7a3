//! Byte layout of pieces packed one after another into a sector.
//!
//! Every piece is embedded in a slot whose length is a power of two and whose
//! start is a multiple of that length, so that a commitment tree built over the
//! sector can address the piece without crossing a subtree boundary.
//!
//! `bytes_amount` holds the two domains of byte counts and the converter
//! between them, `slot` the arithmetic of slots in the padded domain, `layout`
//! the model of a sequence of pieces and what holds of it, and `pieces` the
//! functions that compute paddings, lengths and offsets.

pub mod bytes_amount;
pub mod layout;
pub mod pieces;
pub mod slot;
