//! A pager for live byte streams.
//!
//! Bytes arrive in append-only buffers, are split into logical lines on
//! demand, decoded into styled cells, wrapped to the terminal width and
//! handed to a single-threaded event loop that decides what to redraw.
//!
//! The library holds the logic and does no input or output of its own:
//! the terminal, the reader threads and the loop that waits for events
//! live with the caller.

pub mod buffer;
pub mod buffer_cache;
pub mod line_index;
pub mod overstrike;
pub mod layout;
pub mod line_cache;
pub mod file;
pub mod source;
pub mod search;
pub mod event;
pub mod command;
pub mod parse;
pub mod prompt;
pub mod refresh;
pub mod viewport;
pub mod display;
pub mod screen;
pub mod progress;
pub mod bar;
pub mod ruler;
pub mod status;
pub mod config;
pub mod startup;
pub mod pager;
