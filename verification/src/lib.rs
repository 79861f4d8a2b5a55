//! Decoder for a legacy binary "object module" container format: a stream of
//! length-framed, checksummed records describing a compiled translation unit.
//!
//! The crate decodes three layers:
//! - the record framing and checksum protocol ([`objrec`]),
//! - the per-record-kind structural grammars ([`recdec`]),
//! - the tagged-leaf micro-format for composite type definitions ([`typdef`]).
//!
//! All decoding is a pure function of an in-memory byte buffer; opening and
//! reading files, and rendering most records for display, are left to callers.

pub mod error;

pub mod objrec;

pub mod recdec;

mod text;

pub mod typdef;
