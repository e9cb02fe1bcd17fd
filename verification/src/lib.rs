//! imbuia: the logic of a terminal multiplexer for git worktrees.

pub mod app;
pub mod buffers;
pub mod cells;
pub mod client;
pub mod clipboard;
pub mod cmdline;
pub mod cmdtable;
pub mod commands;
pub mod config;
pub mod drawing;
pub mod editbox;
pub mod emulator;
pub mod event;
pub mod git;
pub mod github;
pub mod input;
pub mod help;
pub mod invariants;
pub mod ipc;
pub mod keybinds;
pub mod keys;
pub mod keytable;
pub mod laws;
pub mod layout;
pub mod lifecycle;
pub mod lockstep;
pub mod mouse;
pub mod mutate;
pub mod overlays;
pub mod palette;
pub mod paths;
pub mod popups;
pub mod process;
pub mod proxy;
pub mod reducer;
pub mod render;
pub mod runtime;
pub mod screen;
pub mod session;
pub mod sidebar;
pub mod supervisor;
pub mod tabs;
pub mod text;
pub mod theme;
pub mod transport;
pub mod updater;
pub mod usage;
