//! A real-time state hub for live DJ mixing status: an in-memory store of
//! deck, channel and master-clock state, a now-playing composer, a change
//! classifier, and a subscriber registry that fans snapshots out to push
//! clients.

pub mod api;
pub mod assoc;
pub mod broadcast;
pub mod logic;
pub mod responses;
pub mod settings;
pub mod store;
