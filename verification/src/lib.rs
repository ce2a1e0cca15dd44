//! Device reconciliation engine for exposing cloud-controlled speakers as
//! local accessories: a credential cache, a registry reconciler and a
//! volume fader, each written as a state machine that a host event loop drives.

pub mod config;
pub mod node_fetch;
pub mod spotify_accessory;
pub mod spotify_api;
pub mod spotify_platform;
pub mod volume_fader;
