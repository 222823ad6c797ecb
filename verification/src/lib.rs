//! A memory-safe model of a guest module that hands text across two foreign
//! boundaries: a native one working on whole strings, and a linear-memory one
//! working on (offset, length) descriptors into a byte arena.
//!
//! The crate tracks ownership of arena regions explicitly: every allocation
//! is recorded, frees are checked against the live set, and the codec refuses
//! descriptors that do not lie inside a live region. The transforms (a
//! regex rewrite and a scripted rewrite) run behind thin trusted wrappers
//! around their engines; everything around those calls is verified.

pub mod arena;
pub mod codec;
pub mod pack;
pub mod rewrite;
pub mod script;
pub mod surface;
