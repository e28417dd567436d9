//! Decision logic of the Podping gossip watcher and of its tray application.
//!
//! Everything here computes on plain values; the program around the library
//! performs the reads, writes and window calls and hands back what came of them.

pub mod app;
pub mod app_state;
pub mod config;
pub mod health;
pub mod http;
pub mod http_laws;
pub mod number;
pub mod reply_laws;
pub mod sse;
pub mod startup;
pub mod text;
pub mod text_laws;
pub mod text_map;
pub mod watcher;
pub mod win_window;
pub mod wire;
