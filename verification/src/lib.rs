//! Conversion of one database result-set row into a structured document and
//! from there into a caller-defined record.
//!
//! The crate mirrors the column kinds of the TDS wire protocol. Each column
//! value is normalized into a generic document node (`normalize`), the
//! normalized pairs are folded into an ordered document (`document`), and the
//! document offers typed field extraction for building a record.
//!
//! The legacy combined date-time kind stores a signed day count from
//! 1900-01-01 plus a count of 1/300-second fragments; its reconstruction is
//! implemented and verified here (`temporal`, `calendar`). The richer temporal
//! kinds delegate their decoding to the database client crate (`delegated`).

pub mod calendar;
pub mod codec;
pub mod column;
pub mod delegated;
pub mod document;
pub mod node;
pub mod normalize;
pub mod render;
pub mod temporal;
