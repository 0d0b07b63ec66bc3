//! Clip capture service: the verified core of a clipping application.
//!
//! The library holds the parts of the capture service that decide and
//! compute: the packet ring buffer that keeps the last N milliseconds of
//! encoded media, the bounded log history, encoder and device selection,
//! and the decisions that drive capture restarts and settings updates.
pub mod ring_buffer;
pub mod caps;
pub mod logger;
pub mod text;
pub mod settings;
pub mod capture;
pub mod runtime;
pub mod audio;
pub mod encoders;
pub mod video;
pub mod remux;
pub mod commands;
pub mod backend;
pub mod shortcut;
pub mod devices;
pub mod ui_state;
pub mod ui_text;
