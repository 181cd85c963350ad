//! Event aggregation for a status bar: the window manager's line codec, a
//! bounded broadcast channel, and the audio-server hub that decides which
//! queries to chain and when to reconnect; with the small pieces of logic
//! that the bar's widgets apply to those events.

pub mod audio;
pub mod battery;
pub mod broadcast;
pub mod config;
pub mod ctl;
pub mod display;
pub mod events;
pub mod hex;
pub mod listener;
