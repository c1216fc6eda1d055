//! CapDrop: the verified core of a lightweight screenshot tool.
//!
//! The library holds the logic of the tool: the configuration and its
//! defaults, hotkey parsing, file naming, path expansion, Markdown embedding,
//! the capture and clipboard command lines, and the run that saves a
//! screenshot to every configured target. Everything that touches the screen,
//! the disk, the clipboard or the window system lives in the application
//! crate around it.

#![allow(unused_imports)]

pub mod text;
pub mod hotkey;
pub mod clock;
pub mod paths;
pub mod codec;
pub mod capture;
pub mod config;
pub mod storage;
pub mod local;
pub mod markdown;
pub mod clipboard;
