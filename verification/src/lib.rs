//! Decision logic of `sd_rust`, a daemon that turns a Stream Deck MK.2 into a
//! programmable control surface.

pub mod audio;
pub mod backoff;
pub mod config;
pub mod device;
pub mod keys;
pub mod launch;
pub mod main_loop;
pub mod obs;
pub mod osd;
pub mod path;
pub mod prompt;
pub mod render;
pub mod runtime;
pub mod screensaver;
pub mod service;
pub mod state;
pub mod suspend;
pub mod text;
pub mod udev;
pub mod widgets;
