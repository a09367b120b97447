//! Conversion layer for a JSON-RPC blockchain node client.
//!
//! The node returns loosely typed responses whose shape changes across server
//! versions: hex strings stand for fixed-size binary identifiers, decimal
//! strings stand for monetary amounts, and some fields exist only from a given
//! server version onward.  This crate turns each version-specific wire record
//! into a single canonical, version-independent model record, or into an error
//! that names exactly which field failed and why.
//!
//! - [`codec`] parses individual scalar wire values (the primitive codec).
//! - [`model`] holds the canonical, version-independent record types.
//! - [`v19`], [`v26`] and [`v28`] hold one wire-record family per supported
//!   server version, each with its paired conversion function and error type.

pub mod codec;
pub mod model;
pub mod v19;
pub mod v26;
pub mod v28;
