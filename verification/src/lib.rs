//! Core of a plain-text desktop notification bridge: an ordered registry of
//! active notifications, a selection cursor kept consistent with every
//! mutation, expiry decisions, inline-markup stripping, and the record handed
//! to the renderer.

pub mod markup;
pub mod printer;
pub mod registry;
