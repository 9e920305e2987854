//! An immutable, content-addressed position identifier, together with the
//! boundary layer that lets a host runtime construct, inspect, and release
//! identifier instances.
//!
//! The identifier is a plain value object: it owns an independent copy of its
//! text, and equality, hashing and display are determined solely by that text.
//! The boundary layer mediates ownership with a host runtime through an arena
//! of owned identifiers indexed by opaque integer handles, so that a lookup
//! against a released handle fails cleanly instead of being undefined
//! behavior.

pub mod boundary;
pub mod identifier;
