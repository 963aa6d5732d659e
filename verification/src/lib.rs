//! Mochi terminal emulator library: a verified screen model, escape
//! sequence parser and the glue that applies parsed actions to a terminal.

pub mod color;
pub mod views;
pub mod cell;
pub mod cursor;
pub mod text;
pub mod line;
pub mod grid;
pub mod screen;
pub mod scrollback;
pub mod selection;
pub mod snapshot;
pub mod term;
pub mod params;
pub mod action;
pub mod parser;
pub mod performer;
pub mod input;
pub mod config;
pub mod size;
pub mod split;
pub mod split_pane;
pub mod shortcuts;
pub mod clipboard;
pub mod tabs;
pub mod replies;
pub mod event;
