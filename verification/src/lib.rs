//! The decision core of a digital audio workstation's desktop shell.
//!
//! Everything here is a function of plain values. The surrounding application
//! draws widgets, talks to the sound card and moves bytes to disk; it hands what
//! it observed to this crate and performs what this crate decides.

pub mod asset_dialog;
pub mod asset_preview;
pub mod assets;
pub mod backlog;
pub mod clock;
pub mod compile;
pub mod controller;
pub mod device;
pub mod editors;
pub mod ellipsis;
pub mod equalizer;
pub mod inspectors;
pub mod instrument;
pub mod intents;
pub mod isolate;
pub mod launcher;
pub mod layout;
pub mod live_input;
pub mod mailbox;
pub mod media;
pub mod meter;
pub mod monitor;
pub mod names;
pub mod numbers;
pub mod pages;
pub mod parameters;
pub mod persist;
pub mod piano;
pub mod piano_roll;
pub mod queue;
pub mod renders;
pub mod sampler;
pub mod shell;
pub mod signal;
pub mod slice;
pub mod startup;
pub mod status;
pub mod tempo;
pub mod text;
pub mod timeline;
pub mod transport;
pub mod updates;
pub mod watch;
