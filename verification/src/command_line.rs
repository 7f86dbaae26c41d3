//! The command-line options, as plain values.
//!
//! Argument parsing itself happens outside this crate; what arrives here is
//! the parsed form, which the configuration merge consumes.

use vstd::prelude::*;
use crate::milli::Milli;
use crate::tools::{Tools, Highlighters};

verus! {

/// An action a key binding can trigger, as spelled on the command line.
#[derive(Debug, Clone, Copy, PartialEq, Eq, Structural)]
pub enum Action {
    SaveToClipboard,
    SaveToFile,
    Exit,
}

/// The command-line options. A `bool` flag set on the command line
/// overrides the configuration file; an unset flag inherits from it.
#[derive(Debug, Clone)]
pub struct CommandLine {
    /// Path to the configuration file, overriding the default lookup.
    pub config: Option<String>,
    /// Path to the input image, or `-` to read it from stdin.
    pub filename: String,
    /// Start in fullscreen mode.
    pub fullscreen: bool,
    /// Where a save action writes its output.
    pub output_filename: Option<String>,
    /// Exit after the first save or copy action.
    pub early_exit: bool,
    /// Corner roundness for shapes, in thousandths.
    pub corner_roundness: Option<Milli>,
    /// Tool selected at startup.
    pub initial_tool: Option<Tools>,
    /// Command used to copy to the clipboard.
    pub copy_command: Option<String>,
    /// Scale factor for annotations, in thousandths.
    pub annotation_size_factor: Option<Milli>,
    /// Also save to file after copying.
    pub save_after_copy: bool,
    /// Hide the toolbars initially.
    pub default_hide_toolbars: bool,
    /// Font family for text annotations.
    pub font_family: Option<String>,
    /// Font style for text annotations.
    pub font_style: Option<String>,
    /// The primary highlighter style.
    pub primary_highlighter: Option<Highlighters>,
    /// Disable notifications.
    pub disable_notifications: bool,
    /// Print startup profiling output.
    pub profile_startup: bool,
    /// Present the window without decoration.
    pub no_window_decoration: bool,
    /// Copy on right click.
    pub right_click_copy: bool,
    /// Action performed when pressing Enter.
    pub action_on_enter: Option<Action>,
    /// Action performed when pressing Escape.
    pub action_on_escape: Option<Action>,
    /// Run as the long-lived daemon.
    pub daemon: bool,
    /// Send the request to a running daemon instead of opening directly.
    pub show: bool,
}

} // verus!
