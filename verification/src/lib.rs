//! Normalizes raw, OS-specific keyboard signals into a stable representation:
//! a logical key identity plus an accurate modifier bitset.
//!
//! One OS family reports modifiers through a raw hardware table and per-event
//! flags; [`modifiers`] parses that table and tracks the live modifier state.
//! The other family resolves keys by enumerating every modifier combination
//! and querying a character-composition routine; [`winmods`], [`compose`],
//! [`layout`] and [`cache`] build and memoize a complete key table per locale
//! from those responses.

pub mod cache;
pub mod compose;
pub mod layout;
pub mod modifiers;
pub mod winmods;
