//! A text browser that plays a video behind the page.
//!
//! The library is the logic of the browser, verified:
//!
//! - `video`: the playback engine, a state machine of sessions, pause,
//!   resume, seek and stop over one frame buffer;
//! - `decode`: the decisions of the thread that moves frames from the
//!   decoder's pipe into the frame buffer;
//! - `app`: the state of the browser and what keys and events do to it,
//!   among them the end of a playback session, which counts only for the
//!   session that is current;
//! - `text`: cursor movement and editing by grapheme cluster and by word;
//! - `web` and `links`: from the HTML of a page to its text and its links;
//! - `ui`: what is painted, as plain values;
//! - `i18n`, `utils`, `types`: the language of the interface, the showing of
//!   addresses, and the types that the modules share.
//!
//! The library starts no process, opens no file and reads no clock. Where
//! work has to be done outside, an operation hands back what is to be done,
//! and takes what came of it as an argument of the next one. Times are
//! milliseconds.

pub mod app;
pub mod decode;
pub mod i18n;
pub mod links;
pub mod text;
pub mod types;
pub mod ui;
pub mod utils;
pub mod video;
pub mod web;
