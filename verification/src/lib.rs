//! Structured snapshots of a `bspwm` session.
//!
//! `bspc subscribe report` prints one status line per state change. This
//! crate turns such a line into a [`WmRoot`]: the monitors the window manager
//! knows about, the desktops on each of them, and the layout in use.
//!
//! The entry point is [`parse_line`]. Its contract is stated over
//! [`grammar::parse_spec`], a mathematical description of the report format,
//! and the `laws` module proves what follows from that description.

pub mod grammar;
pub mod laws;
pub mod model;
pub mod parser;
pub mod stream;

pub use model::{Desktop, DesktopView, Layout, Monitor, MonitorView, ParseError, WmRoot};
pub use parser::{apply_section, parse_line, split_sections};
pub use stream::next_snapshot;
