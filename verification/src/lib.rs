//! The decision core of a tiling terminal shell.
pub mod actions;
pub mod app;
pub mod cli_cwd;
pub mod close;
pub mod colors;
pub mod config_load;
pub mod config_watch;
pub mod dispatch;
pub mod frame;
pub mod grid;
pub mod grid_interaction;
pub mod input_forward;
pub mod keys;
pub mod launches;
pub mod layout;
pub mod paint_grid;
pub mod palette;
pub mod pane_body;
pub mod panes;
pub mod paste;
pub mod pty_gate;
pub mod quake;
pub mod reporting;
pub mod resize;
pub mod scrollbar;
pub mod shells;
pub mod tabs;
pub mod text;
pub mod tick;
pub mod tree;
pub mod typing;
