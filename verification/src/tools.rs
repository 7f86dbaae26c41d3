//! The annotation tools and highlighter kinds a window can start with.

use vstd::prelude::*;

verus! {

/// The drawing tools a window can select.
#[derive(Debug, Clone, Copy, PartialEq, Eq, Structural)]
pub enum Tools {
    Pointer,
    Crop,
    Line,
    Arrow,
    Rectangle,
    Ellipse,
    Text,
    Marker,
    Blur,
    Highlight,
    Brush,
}

impl Tools {
    /// The lower-case name of the tool, as configuration files and
    /// requests spell it.
    pub fn name(&self) -> (r: &'static str)
        ensures
            r@ == spec_tool_name(*self),
    {
        match self {
            Tools::Pointer => "pointer",
            Tools::Crop => "crop",
            Tools::Line => "line",
            Tools::Arrow => "arrow",
            Tools::Rectangle => "rectangle",
            Tools::Ellipse => "ellipse",
            Tools::Text => "text",
            Tools::Marker => "marker",
            Tools::Blur => "blur",
            Tools::Highlight => "highlight",
            Tools::Brush => "brush",
        }
    }
}

/// The name of each tool.
pub open spec fn spec_tool_name(t: Tools) -> Seq<char> {
    match t {
        Tools::Pointer => "pointer"@,
        Tools::Crop => "crop"@,
        Tools::Line => "line"@,
        Tools::Arrow => "arrow"@,
        Tools::Rectangle => "rectangle"@,
        Tools::Ellipse => "ellipse"@,
        Tools::Text => "text"@,
        Tools::Marker => "marker"@,
        Tools::Blur => "blur"@,
        Tools::Highlight => "highlight"@,
        Tools::Brush => "brush"@,
    }
}

/// The two highlighter styles.
#[derive(Debug, Clone, Copy, PartialEq, Eq, Structural)]
pub enum Highlighters {
    Block,
    Freehand,
}

} // verus!
