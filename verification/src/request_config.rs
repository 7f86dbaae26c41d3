//! Per-window configuration, derived once per request.
//!
//! Every window owns an immutable configuration value: the global defaults,
//! overridden by whatever the request sets. Nothing is shared between
//! windows, so a later request can never change an open window's settings.

use vstd::prelude::*;
use crate::configuration::{Action, Configuration, ConfigurationView, view_opt_str, some_or, opt_or, view_opt_milli};
use crate::milli::Milli;
use crate::protocol::{DaemonRequest, DaemonRequestView};
use crate::tools::Tools;
use crate::wire::str_eq;

verus! {

/// The settings one window runs with, fully resolved.
#[derive(Debug, Clone, PartialEq)]
pub struct RequestConfig {
    pub input_filename: String,
    pub output_filename: Option<String>,
    pub copy_command: Option<String>,
    pub initial_tool: Tools,
    pub fullscreen: bool,
    pub early_exit: bool,
    pub corner_roundness: Milli,
    pub annotation_size_factor: Milli,
    pub default_hide_toolbars: bool,
    pub no_window_decoration: bool,
    pub action_on_enter: Action,
    pub action_on_escape: Action,
    pub save_after_copy: bool,
    pub right_click_copy: bool,
}

/// What Unicode lowercasing returns for the given characters. Case
/// folding takes pages to state, so the result only carries a name; the
/// parser's contract is exact in terms of it.
pub uninterp spec fn lower_of(s: Seq<char>) -> Seq<char>;

/// Relies on `str::to_lowercase`: the result is a function of the input
/// characters alone.
#[verifier::external_body]
fn lowercase(s: &str) -> (r: String)
    ensures
        r@ == lower_of(s@),
{
    s.to_lowercase()
}

/// Which tool a name picks: its Unicode lowercase form must be one of the
/// eleven tool names.
pub open spec fn spec_parse_tool(s: Seq<char>) -> Option<Tools> {
    let l = lower_of(s);
    if l == "pointer"@ {
        Some(Tools::Pointer)
    } else if l == "crop"@ {
        Some(Tools::Crop)
    } else if l == "line"@ {
        Some(Tools::Line)
    } else if l == "arrow"@ {
        Some(Tools::Arrow)
    } else if l == "rectangle"@ {
        Some(Tools::Rectangle)
    } else if l == "ellipse"@ {
        Some(Tools::Ellipse)
    } else if l == "text"@ {
        Some(Tools::Text)
    } else if l == "marker"@ {
        Some(Tools::Marker)
    } else if l == "blur"@ {
        Some(Tools::Blur)
    } else if l == "highlight"@ {
        Some(Tools::Highlight)
    } else if l == "brush"@ {
        Some(Tools::Brush)
    } else {
        None
    }
}

/// Parse a tool name, ignoring case: `"ARROW"` picks the arrow.
pub fn parse_tool(s: &str) -> (r: Option<Tools>)
    ensures
        r == spec_parse_tool(s@),
{
    let low = lowercase(s);
    let l = low.as_str();
    if str_eq(l, "pointer") {
        Some(Tools::Pointer)
    } else if str_eq(l, "crop") {
        Some(Tools::Crop)
    } else if str_eq(l, "line") {
        Some(Tools::Line)
    } else if str_eq(l, "arrow") {
        Some(Tools::Arrow)
    } else if str_eq(l, "rectangle") {
        Some(Tools::Rectangle)
    } else if str_eq(l, "ellipse") {
        Some(Tools::Ellipse)
    } else if str_eq(l, "text") {
        Some(Tools::Text)
    } else if str_eq(l, "marker") {
        Some(Tools::Marker)
    } else if str_eq(l, "blur") {
        Some(Tools::Blur)
    } else if str_eq(l, "highlight") {
        Some(Tools::Highlight)
    } else if str_eq(l, "brush") {
        Some(Tools::Brush)
    } else {
        None
    }
}

/// The tool a request picks: a parsable `initial_tool` wins, anything else
/// falls back to the global default.
pub open spec fn spec_requested_tool(req: DaemonRequestView, g: ConfigurationView) -> Tools {
    match req.initial_tool {
        Some(name) => match spec_parse_tool(name) {
            Some(t) => t,
            None => g.initial_tool,
        },
        None => g.initial_tool,
    }
}

/// The derivation rule for a per-window configuration: every field the
/// request sets overrides the global default, everything else inherits.
pub open spec fn spec_derived_config(c: &RequestConfig, req: DaemonRequestView, g: ConfigurationView) -> bool {
    &&& c.input_filename@ == req.filename
    &&& view_opt_str(c.output_filename) == some_or(req.output_filename, g.output_filename)
    &&& view_opt_str(c.copy_command) == some_or(req.copy_command, g.copy_command)
    &&& c.initial_tool == spec_requested_tool(req, g)
    &&& c.fullscreen == opt_or(req.fullscreen, g.fullscreen)
    &&& c.early_exit == opt_or(req.early_exit, g.early_exit)
    &&& c.corner_roundness.0 == opt_or(req.corner_roundness, g.corner_roundness)
    &&& c.annotation_size_factor.0 == opt_or(req.annotation_size_factor, g.annotation_size_factor)
    &&& c.default_hide_toolbars == opt_or(req.default_hide_toolbars, g.default_hide_toolbars)
    &&& c.no_window_decoration == opt_or(req.no_window_decoration, g.no_window_decoration)
    &&& c.action_on_enter == g.action_on_enter
    &&& c.action_on_escape == g.action_on_escape
    &&& c.save_after_copy == g.save_after_copy
    &&& c.right_click_copy == g.right_click_copy
}

impl RequestConfig {
    /// Derive the configuration for one request: its overrides win, the
    /// global defaults fill the rest.
    pub fn from_request(request: &DaemonRequest, global: &Configuration) -> (c: Self)
        ensures
            spec_derived_config(&c, request@, global@),
    {
        let initial_tool = match &request.initial_tool {
            Some(name) => match parse_tool(name.as_str()) {
                Some(t) => t,
                None => global.initial_tool(),
            },
            None => global.initial_tool(),
        };
        RequestConfig {
            input_filename: request.filename.clone(),
            output_filename: clone_or(&request.output_filename, global.output_filename()),
            copy_command: clone_or(&request.copy_command, global.copy_command()),
            initial_tool,
            fullscreen: opt_bool(request.fullscreen, global.fullscreen()),
            early_exit: opt_bool(request.early_exit, global.early_exit()),
            corner_roundness: opt_milli(request.corner_roundness, global.corner_roundness()),
            annotation_size_factor: opt_milli(
                request.annotation_size_factor,
                global.annotation_size_factor(),
            ),
            default_hide_toolbars: opt_bool(
                request.default_hide_toolbars,
                global.default_hide_toolbars(),
            ),
            no_window_decoration: opt_bool(
                request.no_window_decoration,
                global.no_window_decoration(),
            ),
            action_on_enter: global.action_on_enter(),
            action_on_escape: global.action_on_escape(),
            save_after_copy: global.save_after_copy(),
            right_click_copy: global.right_click_copy(),
        }
    }

    /// The configuration of a window opened without a request: the global
    /// defaults as they stand.
    pub fn from_global(global: &Configuration) -> (c: Self)
        ensures
            c.input_filename@ == global@.input_filename,
            view_opt_str(c.output_filename) == global@.output_filename,
            view_opt_str(c.copy_command) == global@.copy_command,
            c.initial_tool == global@.initial_tool,
            c.fullscreen == global@.fullscreen,
            c.early_exit == global@.early_exit,
            c.corner_roundness.0 == global@.corner_roundness,
            c.annotation_size_factor.0 == global@.annotation_size_factor,
            c.default_hide_toolbars == global@.default_hide_toolbars,
            c.no_window_decoration == global@.no_window_decoration,
            c.action_on_enter == global@.action_on_enter,
            c.action_on_escape == global@.action_on_escape,
            c.save_after_copy == global@.save_after_copy,
            c.right_click_copy == global@.right_click_copy,
    {
        RequestConfig {
            input_filename: global.input_filename().to_owned(),
            output_filename: cloned(global.output_filename()),
            copy_command: cloned(global.copy_command()),
            initial_tool: global.initial_tool(),
            fullscreen: global.fullscreen(),
            early_exit: global.early_exit(),
            corner_roundness: global.corner_roundness(),
            annotation_size_factor: global.annotation_size_factor(),
            default_hide_toolbars: global.default_hide_toolbars(),
            no_window_decoration: global.no_window_decoration(),
            action_on_enter: global.action_on_enter(),
            action_on_escape: global.action_on_escape(),
            save_after_copy: global.save_after_copy(),
            right_click_copy: global.right_click_copy(),
        }
    }
}

impl Default for RequestConfig {
    /// The built-in defaults, for the throwaway pre-warm window.
    fn default() -> (c: Self)
        ensures
            c.input_filename@ == Seq::<char>::empty(),
            c.output_filename is None,
            c.copy_command is None,
            c.initial_tool == Tools::Pointer,
            c.fullscreen == false,
            c.early_exit == false,
            c.corner_roundness == Milli(12000),
            c.annotation_size_factor == Milli(1000),
            c.default_hide_toolbars == false,
            c.no_window_decoration == false,
            c.action_on_enter == Action::SaveToClipboard,
            c.action_on_escape == Action::Exit,
            c.save_after_copy == false,
            c.right_click_copy == false,
    {
        RequestConfig {
            input_filename: String::new(),
            output_filename: None,
            copy_command: None,
            initial_tool: Tools::Pointer,
            fullscreen: false,
            early_exit: false,
            corner_roundness: Milli(12000),
            annotation_size_factor: Milli(1000),
            default_hide_toolbars: false,
            no_window_decoration: false,
            action_on_enter: Action::SaveToClipboard,
            action_on_escape: Action::Exit,
            save_after_copy: false,
            right_click_copy: false,
        }
    }
}

/// The request's string if present, a clone of the global's otherwise.
fn clone_or(new: &Option<String>, global: Option<&String>) -> (r: Option<String>)
    ensures
        view_opt_str(r) == some_or(
            view_opt_str(*new),
            match global {
                Some(s) => Some(s@),
                None => None,
            },
        ),
{
    match new {
        Some(v) => Some(v.clone()),
        None => cloned(global),
    }
}

/// An owning clone of an optional borrowed string.
fn cloned(o: Option<&String>) -> (r: Option<String>)
    ensures
        view_opt_str(r) == match o {
            Some(s) => Some(s@),
            None => None::<Seq<char>>,
        },
{
    match o {
        Some(v) => Some(v.clone()),
        None => None,
    }
}

fn opt_bool(new: Option<bool>, global: bool) -> (r: bool)
    ensures
        r == opt_or(new, global),
{
    match new {
        Some(v) => v,
        None => global,
    }
}

fn opt_milli(new: Option<Milli>, global: Milli) -> (r: Milli)
    ensures
        r.0 == opt_or(view_opt_milli(new), global.0),
{
    match new {
        Some(v) => v,
        None => global,
    }
}

} // verus!
