//! Verified core of a BBS terminal: byte-pattern recognition, the
//! Lehmer generator, cursor blinking, connection buffering, screen
//! modes, ANSI-music timing, text search and selection extraction,
//! texture layouts for the renderer, and the decisions of the dialogs
//! (dialing directory, capture, file transfer) and of the key bindings.

pub mod pattern_recognizer;
pub mod rng;
pub mod buffer_view;
pub mod connect;
pub mod com_thread;
pub mod text;
pub mod screen_modes;
pub mod hover_list;
pub mod dialing_directory;
pub mod music;
pub mod find_dialog;
pub mod main_window;
pub mod terminal_window;
pub mod buffer_update_thread;
pub mod terminal_renderer;
pub mod file_transfer;
pub mod capture_dialog;
