//! Fixed-column astrodynamic text records: a column field codec, line
//! checksums, a two-line element set codec with its numeric array form, and
//! keyed catalogs of decoded records with configurable key policies.
//!
//! Every numeric field is held as a whole number of units of its last
//! written digit, so that decoding and encoding are exact inverses on the
//! canonical spelling of each field.

pub mod catalog;
pub mod checksum;
pub mod enums;
pub mod field;
pub mod text;
pub mod tle;
pub mod workspace;
