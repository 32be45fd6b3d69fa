//! Core of a terminal-resident text editor.
//!
//! The crate covers the two coupled pieces of the editor: the
//! event-scheduling loop (request flags, frame timers, the cancellable
//! shutdown handshake) and the cursor/viewport/buffer engine that turns
//! editing keystrokes into document and scroll-position changes.
//! Terminal session handling and rendering glue live outside the library.

pub mod app;
pub mod game_loop;
pub mod lines;
pub mod paste;
pub mod text_edit;
pub mod viewport;
pub mod editor;
