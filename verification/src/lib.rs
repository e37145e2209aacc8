//! Inlay hint cache and refresh coordination for an editing surface.
//!
//! Hints are computed by an outside provider, one fetch per visible region of a
//! document. This crate decides when to fetch, keeps at most one fetch in flight
//! per document and row range, and merges what a fetch returns into the cached
//! and the displayed hints. Every decision is a plain function from state and
//! event to state and action, so that a caller runs the provider calls and the
//! timers around it.

pub mod clock;
pub mod document;
pub mod editor;
pub mod fetch;
pub mod hint;
pub mod hint_data;
pub mod inlay;
pub mod laws;
pub mod multi_buffer;
pub mod reason;
pub mod reconcile;
pub mod settings;
