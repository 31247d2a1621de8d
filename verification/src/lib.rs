//! A two-list (todo / done) task tracker: key decoding, list and cursor
//! model, mode state machine, unicode-aware line wrapping, screen layout,
//! and the line-prefixed text format the lists are persisted in.
//!
//! Everything here is pure state and layout logic; terminal and file I/O
//! live outside the library and talk to it through plain values.

pub mod action;
pub mod app;
pub mod codec;
pub mod laws;
pub mod render;
pub mod tab;
pub mod text;
pub mod width;
pub mod wrap;

pub use action::{Action, Dir, InsertAction, Key, KeyInput, TabAction};
pub use app::{App, Flow, InsertMode, Mode};
pub use codec::{parse_lines, serialize_lines, ParseError};
pub use render::{render_frame, DrawCmd};
pub use tab::Tab;
pub use wrap::split_to_fit;
