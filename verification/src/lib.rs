//! The logic of the ember terminal, apart from windows, files and sockets.

pub mod text;
pub mod calendar;
pub mod layout;
pub mod snapshot;
pub mod paths;
pub mod archive;
pub mod writer;
pub mod json;
pub mod control;
pub mod screenshot;
pub mod mcp;
pub mod selection;
pub mod keys;
pub mod titles;
pub mod windows;
pub mod drag;
pub mod gesture;
pub mod mouse;
pub mod wisp;
pub mod pacing;
pub mod backend;
pub mod overlay;
pub mod keyboard;
pub mod tabs;
pub mod commands;
pub mod report;
pub mod startup;
pub mod events;
pub mod wire;
