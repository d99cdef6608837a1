//! Derivation of deterministic variant identifiers.
//!
//! A variant record names a locus (chromosome and position) together with a
//! reference allele and a list of alternate alleles. This library composes a
//! deterministic identifier for each record out of those fields, optionally
//! replaces the composition by a truncated SHA-1 digest in lowercase hex, and
//! rewrites the record's ID field in place, leaving every other field alone.

pub mod digits;
pub mod hashing;
pub mod hex;
pub mod ids;
pub mod record;
pub mod text;
