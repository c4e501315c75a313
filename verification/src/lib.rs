//! A clipboard engine for text, file lists and images.
//!
//! The library holds what is decided and computed when the clipboard changes or is
//! written to: the codecs for images and for native file lists, the classifier, the
//! change detector, the monitor's states, and what a write places. It touches neither the
//! clipboard nor the file system: its callers read and place, and hand it plain values.
//! Beside that stand the rules of the file search and the types of settings and history.

pub mod text;
pub mod wide;
pub mod kind;
pub mod image_codec;
pub mod file_list;
pub mod detect;
pub mod classify;
pub mod monitor;
pub mod dispatch;
pub mod native_write;
pub mod native_read;
pub mod locate;
pub mod settings;
pub mod history;
pub mod search;
pub mod ranking;
