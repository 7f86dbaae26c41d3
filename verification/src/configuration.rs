//! The daemon's global configuration: the defaults every window inherits.
//!
//! A configuration starts from built-in defaults, takes overrides from the
//! configuration file, and finally from the command line — later sources
//! win. Reading the file and parsing the command line happen outside this
//! crate; the merge itself is verified here, with
//! [`spec_merged`] saying exactly which source each field comes from.

use vstd::prelude::*;
use crate::command_line::{CommandLine, Action as CommandLineAction};
use crate::milli::Milli;
use crate::tools::{Tools, Highlighters};

verus! {

/// An RGBA color.
#[derive(Debug, Clone, Copy, PartialEq, Eq, Structural)]
pub struct Color {
    pub r: u8,
    pub g: u8,
    pub b: u8,
    pub a: u8,
}

impl Color {
    pub fn orange() -> (c: Color)
        ensures
            c == (Color { r: 0xff, g: 0x7f, b: 0x2d, a: 0xff }),
    {
        Color { r: 0xff, g: 0x7f, b: 0x2d, a: 0xff }
    }

    pub fn red() -> (c: Color)
        ensures
            c == (Color { r: 0xd6, g: 0x2d, b: 0x20, a: 0xff }),
    {
        Color { r: 0xd6, g: 0x2d, b: 0x20, a: 0xff }
    }

    pub fn green() -> (c: Color)
        ensures
            c == (Color { r: 0x2d, g: 0xc5, b: 0x4b, a: 0xff }),
    {
        Color { r: 0x2d, g: 0xc5, b: 0x4b, a: 0xff }
    }

    pub fn blue() -> (c: Color)
        ensures
            c == (Color { r: 0x3b, g: 0x82, b: 0xf6, a: 0xff }),
    {
        Color { r: 0x3b, g: 0x82, b: 0xf6, a: 0xff }
    }

    pub fn cove() -> (c: Color)
        ensures
            c == (Color { r: 0x20, g: 0x4e, b: 0x8a, a: 0xff }),
    {
        Color { r: 0x20, g: 0x4e, b: 0x8a, a: 0xff }
    }
}

/// An action a key binding can trigger.
#[derive(Debug, Clone, Copy, PartialEq, Eq, Structural)]
pub enum Action {
    SaveToClipboard,
    SaveToFile,
    Exit,
    SaveToClipboardAndExit,
    SaveToFileAndExit,
}

/// The configuration action for a command-line action.
pub open spec fn spec_action_from(a: CommandLineAction) -> Action {
    match a {
        CommandLineAction::SaveToClipboard => Action::SaveToClipboard,
        CommandLineAction::SaveToFile => Action::SaveToFile,
        CommandLineAction::Exit => Action::Exit,
    }
}

impl From<CommandLineAction> for Action {
    fn from(action: CommandLineAction) -> (r: Self) {
        match action {
            CommandLineAction::SaveToClipboard => Self::SaveToClipboard,
            CommandLineAction::SaveToFile => Self::SaveToFile,
            CommandLineAction::Exit => Self::Exit,
        }
    }
}

impl vstd::std_specs::convert::FromSpecImpl<CommandLineAction> for Action {
    open spec fn obeys_from_spec() -> bool {
        true
    }

    open spec fn from_spec(a: CommandLineAction) -> Self {
        spec_action_from(a)
    }
}

/// The font used for text annotations.
#[derive(Debug, Clone)]
pub struct FontConfiguration {
    family: Option<String>,
    style: Option<String>,
}

/// The mathematical content of a font configuration.
pub ghost struct FontConfigurationView {
    pub family: Option<Seq<char>>,
    pub style: Option<Seq<char>>,
}

pub open spec fn view_opt_str(o: Option<String>) -> Option<Seq<char>> {
    match o {
        Some(s) => Some(s@),
        None => None,
    }
}

impl View for FontConfiguration {
    type V = FontConfigurationView;

    closed spec fn view(&self) -> FontConfigurationView {
        FontConfigurationView {
            family: view_opt_str(self.family),
            style: view_opt_str(self.style),
        }
    }
}

/// The file section overriding the font.
#[derive(Debug)]
pub struct FontFile {
    pub family: Option<String>,
    pub style: Option<String>,
}

/// Keep the new value when there is one, the old one otherwise.
pub open spec fn opt_or<T>(new: Option<T>, old: T) -> T {
    match new {
        Some(v) => v,
        None => old,
    }
}

/// Exec twin of [`opt_or`] for copyable values.
pub fn opt_value<T: Copy>(new: Option<T>, old: T) -> (r: T)
    ensures
        r == opt_or(new, old),
{
    match new {
        Some(v) => v,
        None => old,
    }
}

/// Keep the new optional value when there is one, the old one otherwise.
pub open spec fn some_or<T>(new: Option<T>, old: Option<T>) -> Option<T> {
    match new {
        Some(v) => Some(v),
        None => old,
    }
}

/// How a font file section merges into the font configuration.
pub open spec fn spec_font_merged(f: FontConfigurationView, file: &FontFile) -> FontConfigurationView {
    FontConfigurationView {
        family: some_or(view_opt_str(file.family), f.family),
        style: some_or(view_opt_str(file.style), f.style),
    }
}

impl FontConfiguration {
    /// The configured font family, if any.
    pub fn family(&self) -> (r: Option<&str>)
        ensures
            view_opt_str_ref(r) == self@.family,
    {
        match &self.family {
            Some(s) => Some(s.as_str()),
            None => None,
        }
    }

    /// The configured font style, if any.
    pub fn style(&self) -> (r: Option<&str>)
        ensures
            view_opt_str_ref(r) == self@.style,
    {
        match &self.style {
            Some(s) => Some(s.as_str()),
            None => None,
        }
    }

    /// Take every value the file section sets, keep the rest.
    pub fn merge(&mut self, file_font: FontFile)
        ensures
            final(self)@ == spec_font_merged(old(self)@, &file_font),
    {
        if let Some(v) = file_font.family {
            self.family = Some(v);
        }
        if let Some(v) = file_font.style {
            self.style = Some(v);
        }
    }
}

pub open spec fn view_opt_str_ref(o: Option<&str>) -> Option<Seq<char>> {
    match o {
        Some(s) => Some(s@),
        None => None,
    }
}

impl Default for FontConfiguration {
    /// No family, no style: the toolkit's defaults apply.
    fn default() -> (r: Self)
        ensures
            r@.family is None,
            r@.style is None,
    {
        FontConfiguration { family: None, style: None }
    }
}

/// The colors offered by the style toolbar: the fixed palette and the
/// user's custom colors.
#[derive(Debug, Clone)]
pub struct ColorPalette {
    palette: Vec<Color>,
    custom: Vec<Color>,
}

/// The mathematical content of a palette.
pub ghost struct ColorPaletteView {
    pub palette: Seq<Color>,
    pub custom: Seq<Color>,
}

impl View for ColorPalette {
    type V = ColorPaletteView;

    closed spec fn view(&self) -> ColorPaletteView {
        ColorPaletteView { palette: self.palette@, custom: self.custom@ }
    }
}

/// The file section overriding the palette.
#[derive(Debug)]
pub struct ColorPaletteFile {
    pub palette: Option<Vec<Color>>,
    pub custom: Option<Vec<Color>>,
}

pub open spec fn view_opt_colors(o: Option<Vec<Color>>) -> Option<Seq<Color>> {
    match o {
        Some(v) => Some(v@),
        None => None,
    }
}

/// How a palette file section merges into the palette.
pub open spec fn spec_palette_merged(p: ColorPaletteView, file: &ColorPaletteFile) -> ColorPaletteView {
    ColorPaletteView {
        palette: opt_or(view_opt_colors(file.palette), p.palette),
        custom: opt_or(view_opt_colors(file.custom), p.custom),
    }
}

impl ColorPalette {
    /// The fixed palette colors.
    pub fn palette(&self) -> (r: &[Color])
        ensures
            r@ == self@.palette,
    {
        self.palette.as_slice()
    }

    /// The user's custom colors.
    pub fn custom(&self) -> (r: &[Color])
        ensures
            r@ == self@.custom,
    {
        self.custom.as_slice()
    }

    /// Take every list the file section sets, keep the rest.
    pub fn merge(&mut self, file_palette: ColorPaletteFile)
        ensures
            final(self)@ == spec_palette_merged(old(self)@, &file_palette),
    {
        if let Some(v) = file_palette.palette {
            self.palette = v;
        }
        if let Some(v) = file_palette.custom {
            self.custom = v;
        }
    }
}

impl Default for ColorPalette {
    /// The built-in five-color palette and no custom colors.
    fn default() -> (r: Self)
        ensures
            r@.palette == seq![
                Color { r: 0xff, g: 0x7f, b: 0x2d, a: 0xff },
                Color { r: 0xd6, g: 0x2d, b: 0x20, a: 0xff },
                Color { r: 0x2d, g: 0xc5, b: 0x4b, a: 0xff },
                Color { r: 0x3b, g: 0x82, b: 0xf6, a: 0xff },
                Color { r: 0x20, g: 0x4e, b: 0x8a, a: 0xff },
            ],
            r@.custom == Seq::<Color>::empty(),
    {
        let mut palette: Vec<Color> = Vec::new();
        palette.push(Color::orange());
        palette.push(Color::red());
        palette.push(Color::green());
        palette.push(Color::blue());
        palette.push(Color::cove());
        let r = ColorPalette { palette, custom: Vec::new() };
        proof {
            assert(r@.palette =~= seq![
                Color { r: 0xff, g: 0x7f, b: 0x2d, a: 0xff },
                Color { r: 0xd6, g: 0x2d, b: 0x20, a: 0xff },
                Color { r: 0x2d, g: 0xc5, b: 0x4b, a: 0xff },
                Color { r: 0x3b, g: 0x82, b: 0xf6, a: 0xff },
                Color { r: 0x20, g: 0x4e, b: 0x8a, a: 0xff },
            ]);
        }
        r
    }
}

/// The `[general]` section of the configuration file; every field is an
/// optional override.
#[derive(Debug)]
pub struct ConfigurationFileGeneral {
    pub fullscreen: Option<bool>,
    pub early_exit: Option<bool>,
    pub corner_roundness: Option<Milli>,
    pub initial_tool: Option<Tools>,
    pub copy_command: Option<String>,
    pub annotation_size_factor: Option<Milli>,
    pub output_filename: Option<String>,
    pub action_on_enter: Option<Action>,
    pub action_on_escape: Option<Action>,
    pub save_after_copy: Option<bool>,
    pub right_click_copy: Option<bool>,
    pub default_hide_toolbars: Option<bool>,
    pub primary_highlighter: Option<Highlighters>,
    pub disable_notifications: Option<bool>,
    pub no_window_decoration: Option<bool>,
}

/// The configuration file: its sections, each optional.
#[derive(Debug)]
pub struct ConfigurationFile {
    pub general: Option<ConfigurationFileGeneral>,
    pub color_palette: Option<ColorPaletteFile>,
    pub font: Option<FontFile>,
}

/// The global configuration.
#[derive(Debug, Clone)]
pub struct Configuration {
    input_filename: String,
    output_filename: Option<String>,
    fullscreen: bool,
    early_exit: bool,
    corner_roundness: Milli,
    initial_tool: Tools,
    copy_command: Option<String>,
    annotation_size_factor: Milli,
    action_on_enter: Action,
    action_on_escape: Action,
    save_after_copy: bool,
    right_click_copy: bool,
    color_palette: ColorPalette,
    default_hide_toolbars: bool,
    font: FontConfiguration,
    primary_highlighter: Highlighters,
    disable_notifications: bool,
    profile_startup: bool,
    no_window_decoration: bool,
    daemon_mode: bool,
    show_mode: bool,
}

/// The mathematical content of a configuration.
pub ghost struct ConfigurationView {
    pub input_filename: Seq<char>,
    pub output_filename: Option<Seq<char>>,
    pub fullscreen: bool,
    pub early_exit: bool,
    pub corner_roundness: u32,
    pub initial_tool: Tools,
    pub copy_command: Option<Seq<char>>,
    pub annotation_size_factor: u32,
    pub action_on_enter: Action,
    pub action_on_escape: Action,
    pub save_after_copy: bool,
    pub right_click_copy: bool,
    pub color_palette: ColorPaletteView,
    pub default_hide_toolbars: bool,
    pub font: FontConfigurationView,
    pub primary_highlighter: Highlighters,
    pub disable_notifications: bool,
    pub profile_startup: bool,
    pub no_window_decoration: bool,
    pub daemon_mode: bool,
    pub show_mode: bool,
}

impl View for Configuration {
    type V = ConfigurationView;

    closed spec fn view(&self) -> ConfigurationView {
        ConfigurationView {
            input_filename: self.input_filename@,
            output_filename: view_opt_str(self.output_filename),
            fullscreen: self.fullscreen,
            early_exit: self.early_exit,
            corner_roundness: self.corner_roundness.0,
            initial_tool: self.initial_tool,
            copy_command: view_opt_str(self.copy_command),
            annotation_size_factor: self.annotation_size_factor.0,
            action_on_enter: self.action_on_enter,
            action_on_escape: self.action_on_escape,
            save_after_copy: self.save_after_copy,
            right_click_copy: self.right_click_copy,
            color_palette: self.color_palette@,
            default_hide_toolbars: self.default_hide_toolbars,
            font: self.font@,
            primary_highlighter: self.primary_highlighter,
            disable_notifications: self.disable_notifications,
            profile_startup: self.profile_startup,
            no_window_decoration: self.no_window_decoration,
            daemon_mode: self.daemon_mode,
            show_mode: self.show_mode,
        }
    }
}

pub open spec fn view_opt_milli(o: Option<Milli>) -> Option<u32> {
    match o {
        Some(m) => Some(m.0),
        None => None,
    }
}

/// How the `[general]` file section merges into a configuration: every
/// value it sets wins, everything else is kept.
pub open spec fn spec_general_merged(c: ConfigurationView, g: &ConfigurationFileGeneral) -> ConfigurationView {
    ConfigurationView {
        fullscreen: opt_or(g.fullscreen, c.fullscreen),
        early_exit: opt_or(g.early_exit, c.early_exit),
        corner_roundness: opt_or(view_opt_milli(g.corner_roundness), c.corner_roundness),
        initial_tool: opt_or(g.initial_tool, c.initial_tool),
        copy_command: some_or(view_opt_str(g.copy_command), c.copy_command),
        output_filename: some_or(view_opt_str(g.output_filename), c.output_filename),
        annotation_size_factor: opt_or(view_opt_milli(g.annotation_size_factor), c.annotation_size_factor),
        action_on_enter: opt_or(g.action_on_enter, c.action_on_enter),
        action_on_escape: opt_or(g.action_on_escape, c.action_on_escape),
        save_after_copy: opt_or(g.save_after_copy, c.save_after_copy),
        right_click_copy: opt_or(g.right_click_copy, c.right_click_copy),
        default_hide_toolbars: opt_or(g.default_hide_toolbars, c.default_hide_toolbars),
        primary_highlighter: opt_or(g.primary_highlighter, c.primary_highlighter),
        disable_notifications: opt_or(g.disable_notifications, c.disable_notifications),
        no_window_decoration: opt_or(g.no_window_decoration, c.no_window_decoration),
        ..c
    }
}

/// How a whole configuration file merges into a configuration.
pub open spec fn spec_file_merged(c: ConfigurationView, file: &Option<ConfigurationFile>) -> ConfigurationView {
    match file {
        None => c,
        Some(f) => {
            let c1 = match &f.general {
                Some(g) => spec_general_merged(c, g),
                None => c,
            };
            let c2 = match &f.color_palette {
                Some(p) => ConfigurationView { color_palette: spec_palette_merged(c1.color_palette, p), ..c1 },
                None => c1,
            };
            match &f.font {
                Some(ff) => ConfigurationView { font: spec_font_merged(c2.font, ff), ..c2 },
                None => c2,
            }
        },
    }
}

/// How the command line merges into a configuration: every value it sets
/// wins; plain flags override only when given.
pub open spec fn spec_command_line_merged(c: ConfigurationView, cl: &CommandLine) -> ConfigurationView {
    ConfigurationView {
        fullscreen: if cl.fullscreen { true } else { c.fullscreen },
        early_exit: if cl.early_exit { true } else { c.early_exit },
        corner_roundness: opt_or(view_opt_milli(cl.corner_roundness), c.corner_roundness),
        default_hide_toolbars: if cl.default_hide_toolbars { true } else { c.default_hide_toolbars },
        initial_tool: opt_or(cl.initial_tool, c.initial_tool),
        copy_command: some_or(view_opt_str(cl.copy_command), c.copy_command),
        output_filename: some_or(view_opt_str(cl.output_filename), c.output_filename),
        annotation_size_factor: opt_or(view_opt_milli(cl.annotation_size_factor), c.annotation_size_factor),
        action_on_enter: match cl.action_on_enter {
            Some(a) => spec_action_from(a),
            None => c.action_on_enter,
        },
        action_on_escape: match cl.action_on_escape {
            Some(a) => spec_action_from(a),
            None => c.action_on_escape,
        },
        save_after_copy: if cl.save_after_copy { true } else { c.save_after_copy },
        right_click_copy: if cl.right_click_copy { true } else { c.right_click_copy },
        font: FontConfigurationView {
            family: some_or(view_opt_str(cl.font_family), c.font.family),
            style: some_or(view_opt_str(cl.font_style), c.font.style),
        },
        primary_highlighter: opt_or(cl.primary_highlighter, c.primary_highlighter),
        disable_notifications: if cl.disable_notifications { true } else { c.disable_notifications },
        profile_startup: if cl.profile_startup { true } else { c.profile_startup },
        no_window_decoration: if cl.no_window_decoration { true } else { c.no_window_decoration },
        daemon_mode: if cl.daemon { true } else { c.daemon_mode },
        show_mode: if cl.show { true } else { c.show_mode },
        ..c
    }
}

/// The full merge: the command line names the input, the file overrides
/// the defaults, and the command line overrides the file.
pub open spec fn spec_merged(c: ConfigurationView, file: &Option<ConfigurationFile>, cl: &CommandLine) -> ConfigurationView {
    spec_command_line_merged(
        spec_file_merged(ConfigurationView { input_filename: cl.filename@, ..c }, file),
        cl,
    )
}

impl Configuration {
    /// Take the `[general]` overrides from the configuration file.
    #[verifier::rlimit(80)]
    pub fn merge_general(&mut self, general: ConfigurationFileGeneral)
        ensures
            final(self)@ == spec_general_merged(old(self)@, &general),
    {
        self.fullscreen = opt_value(general.fullscreen, self.fullscreen);
        self.early_exit = opt_value(general.early_exit, self.early_exit);
        self.corner_roundness = opt_value(general.corner_roundness, self.corner_roundness);
        self.initial_tool = opt_value(general.initial_tool, self.initial_tool);
        self.override_copy_command(&general.copy_command);
        self.override_output_filename(&general.output_filename);
        self.annotation_size_factor = opt_value(
            general.annotation_size_factor,
            self.annotation_size_factor,
        );
        self.action_on_enter = opt_value(general.action_on_enter, self.action_on_enter);
        self.action_on_escape = opt_value(general.action_on_escape, self.action_on_escape);
        self.save_after_copy = opt_value(general.save_after_copy, self.save_after_copy);
        self.right_click_copy = opt_value(general.right_click_copy, self.right_click_copy);
        self.default_hide_toolbars = opt_value(
            general.default_hide_toolbars,
            self.default_hide_toolbars,
        );
        self.primary_highlighter = opt_value(
            general.primary_highlighter,
            self.primary_highlighter,
        );
        self.disable_notifications = opt_value(
            general.disable_notifications,
            self.disable_notifications,
        );
        self.no_window_decoration = opt_value(
            general.no_window_decoration,
            self.no_window_decoration,
        );
    }

    /// Build the effective configuration: the command line names the
    /// input file, the configuration file overrides the built-in
    /// defaults, and the command line overrides both.
    #[verifier::rlimit(80)]
    pub fn merge(&mut self, file: Option<ConfigurationFile>, command_line: CommandLine)
        ensures
            final(self)@ == spec_merged(old(self)@, &file, &command_line),
    {
        self.input_filename = command_line.filename.clone();
        assert(self@ == (ConfigurationView { input_filename: command_line.filename@, ..old(self)@ }));
        self.apply_file(file);
        self.apply_command_line(&command_line);
    }

    /// Take every override the configuration file carries.
    #[verifier::rlimit(100)]
    fn apply_file(&mut self, file: Option<ConfigurationFile>)
        ensures
            final(self)@ == spec_file_merged(old(self)@, &file),
    {
        match file {
            None => {},
            Some(f) => {
                self.apply_general_opt(f.general);
                self.apply_palette_opt(f.color_palette);
                self.apply_font_opt(f.font);
            },
        }
    }

    /// Take every override the command line carries.
    #[verifier::rlimit(100)]
    fn apply_command_line(&mut self, command_line: &CommandLine)
        ensures
            final(self)@ == spec_command_line_merged(old(self)@, command_line),
    {
        self.fullscreen = command_line.fullscreen || self.fullscreen;
        self.early_exit = command_line.early_exit || self.early_exit;
        self.corner_roundness = opt_value(command_line.corner_roundness, self.corner_roundness);
        self.default_hide_toolbars = command_line.default_hide_toolbars
            || self.default_hide_toolbars;
        self.initial_tool = opt_value(command_line.initial_tool, self.initial_tool);
        self.override_copy_command(&command_line.copy_command);
        self.override_output_filename(&command_line.output_filename);
        self.annotation_size_factor = opt_value(
            command_line.annotation_size_factor,
            self.annotation_size_factor,
        );
        self.action_on_enter = override_action(command_line.action_on_enter, self.action_on_enter);
        self.action_on_escape = override_action(
            command_line.action_on_escape,
            self.action_on_escape,
        );
        self.save_after_copy = command_line.save_after_copy || self.save_after_copy;
        self.right_click_copy = command_line.right_click_copy || self.right_click_copy;
        self.font.override_family(&command_line.font_family);
        self.font.override_style(&command_line.font_style);
        self.primary_highlighter = opt_value(
            command_line.primary_highlighter,
            self.primary_highlighter,
        );
        self.disable_notifications = command_line.disable_notifications
            || self.disable_notifications;
        self.profile_startup = command_line.profile_startup || self.profile_startup;
        self.no_window_decoration = command_line.no_window_decoration
            || self.no_window_decoration;
        self.daemon_mode = command_line.daemon || self.daemon_mode;
        self.show_mode = command_line.show || self.show_mode;
    }

    /// Replace the copy command when an override is present.
    fn override_copy_command(&mut self, v: &Option<String>)
        ensures
            final(self)@ == (ConfigurationView {
                copy_command: some_or(view_opt_str(*v), old(self)@.copy_command),
                ..old(self)@
            }),
    {
        if let Some(x) = v {
            self.copy_command = Some(x.clone());
        }
    }

    /// Replace the output filename when an override is present.
    fn override_output_filename(&mut self, v: &Option<String>)
        ensures
            final(self)@ == (ConfigurationView {
                output_filename: some_or(view_opt_str(*v), old(self)@.output_filename),
                ..old(self)@
            }),
    {
        if let Some(x) = v {
            self.output_filename = Some(x.clone());
        }
    }

    /// Apply an optional `[general]` section.
    fn apply_general_opt(&mut self, g: Option<ConfigurationFileGeneral>)
        ensures
            final(self)@ == match g {
                Some(general) => spec_general_merged(old(self)@, &general),
                None => old(self)@,
            },
    {
        if let Some(general) = g {
            self.merge_general(general);
        }
    }

    /// Apply an optional `[color-palette]` section.
    fn apply_palette_opt(&mut self, p: Option<ColorPaletteFile>)
        ensures
            final(self)@ == match p {
                Some(pal) => ConfigurationView {
                    color_palette: spec_palette_merged(old(self)@.color_palette, &pal),
                    ..old(self)@
                },
                None => old(self)@,
            },
    {
        if let Some(pal) = p {
            self.color_palette.merge(pal);
        }
    }

    /// Apply an optional `[font]` section.
    fn apply_font_opt(&mut self, ff: Option<FontFile>)
        ensures
            final(self)@ == match ff {
                Some(f) => ConfigurationView {
                    font: spec_font_merged(old(self)@.font, &f),
                    ..old(self)@
                },
                None => old(self)@,
            },
    {
        if let Some(f) = ff {
            self.font.merge(f);
        }
    }

    pub fn early_exit(&self) -> (r: bool)
        ensures
            r == self@.early_exit,
    {
        self.early_exit
    }

    pub fn corner_roundness(&self) -> (r: Milli)
        ensures
            r.0 == self@.corner_roundness,
    {
        self.corner_roundness
    }

    pub fn initial_tool(&self) -> (r: Tools)
        ensures
            r == self@.initial_tool,
    {
        self.initial_tool
    }

    pub fn copy_command(&self) -> (r: Option<&String>)
        ensures
            match r {
                Some(s) => self@.copy_command == Some(s@),
                None => self@.copy_command is None,
            },
    {
        self.copy_command.as_ref()
    }

    pub fn fullscreen(&self) -> (r: bool)
        ensures
            r == self@.fullscreen,
    {
        self.fullscreen
    }

    pub fn output_filename(&self) -> (r: Option<&String>)
        ensures
            match r {
                Some(s) => self@.output_filename == Some(s@),
                None => self@.output_filename is None,
            },
    {
        self.output_filename.as_ref()
    }

    pub fn input_filename(&self) -> (r: &str)
        ensures
            r@ == self@.input_filename,
    {
        self.input_filename.as_str()
    }

    pub fn annotation_size_factor(&self) -> (r: Milli)
        ensures
            r.0 == self@.annotation_size_factor,
    {
        self.annotation_size_factor
    }

    pub fn action_on_enter(&self) -> (r: Action)
        ensures
            r == self@.action_on_enter,
    {
        self.action_on_enter
    }

    pub fn action_on_escape(&self) -> (r: Action)
        ensures
            r == self@.action_on_escape,
    {
        self.action_on_escape
    }

    pub fn save_after_copy(&self) -> (r: bool)
        ensures
            r == self@.save_after_copy,
    {
        self.save_after_copy
    }

    pub fn right_click_copy(&self) -> (r: bool)
        ensures
            r == self@.right_click_copy,
    {
        self.right_click_copy
    }

    pub fn color_palette(&self) -> (r: &ColorPalette)
        ensures
            r@ == self@.color_palette,
    {
        &self.color_palette
    }

    pub fn default_hide_toolbars(&self) -> (r: bool)
        ensures
            r == self@.default_hide_toolbars,
    {
        self.default_hide_toolbars
    }

    pub fn primary_highlighter(&self) -> (r: Highlighters)
        ensures
            r == self@.primary_highlighter,
    {
        self.primary_highlighter
    }

    pub fn disable_notifications(&self) -> (r: bool)
        ensures
            r == self@.disable_notifications,
    {
        self.disable_notifications
    }

    pub fn profile_startup(&self) -> (r: bool)
        ensures
            r == self@.profile_startup,
    {
        self.profile_startup
    }

    pub fn no_window_decoration(&self) -> (r: bool)
        ensures
            r == self@.no_window_decoration,
    {
        self.no_window_decoration
    }

    pub fn font(&self) -> (r: &FontConfiguration)
        ensures
            r@ == self@.font,
    {
        &self.font
    }

    pub fn daemon_mode(&self) -> (r: bool)
        ensures
            r == self@.daemon_mode,
    {
        self.daemon_mode
    }

    pub fn show_mode(&self) -> (r: bool)
        ensures
            r == self@.show_mode,
    {
        self.show_mode
    }
}

impl FontConfiguration {
    fn override_family(&mut self, v: &Option<String>)
        ensures
            final(self)@ == (FontConfigurationView {
                family: some_or(view_opt_str(*v), old(self)@.family),
                ..old(self)@
            }),
    {
        if let Some(x) = v {
            self.family = Some(x.clone());
        }
    }

    fn override_style(&mut self, v: &Option<String>)
        ensures
            final(self)@ == (FontConfigurationView {
                style: some_or(view_opt_str(*v), old(self)@.style),
                ..old(self)@
            }),
    {
        if let Some(x) = v {
            self.style = Some(x.clone());
        }
    }
}

/// Exec twin of the action override: convert when present, keep otherwise.
fn override_action(new: Option<CommandLineAction>, old_action: Action) -> (r: Action)
    ensures
        r == match new {
            Some(a) => spec_action_from(a),
            None => old_action,
        },
{
    match new {
        Some(a) => Action::from(a),
        None => old_action,
    }
}

impl Default for Configuration {
    /// The built-in defaults every other source overrides.
    fn default() -> (r: Self)
        ensures
            r@.input_filename == Seq::<char>::empty(),
            r@.output_filename is None,
            r@.fullscreen == false,
            r@.early_exit == false,
            r@.corner_roundness == 12000,
            r@.initial_tool == Tools::Pointer,
            r@.copy_command is None,
            r@.annotation_size_factor == 1000,
            r@.action_on_enter == Action::SaveToClipboard,
            r@.action_on_escape == Action::Exit,
            r@.save_after_copy == false,
            r@.right_click_copy == false,
            r@.default_hide_toolbars == false,
            r@.font.family is None,
            r@.font.style is None,
            r@.primary_highlighter == Highlighters::Block,
            r@.disable_notifications == false,
            r@.profile_startup == false,
            r@.no_window_decoration == false,
            r@.daemon_mode == false,
            r@.show_mode == false,
    {
        Configuration {
            input_filename: String::new(),
            output_filename: None,
            fullscreen: false,
            early_exit: false,
            corner_roundness: Milli(12000),
            initial_tool: Tools::Pointer,
            copy_command: None,
            annotation_size_factor: Milli(1000),
            action_on_enter: Action::SaveToClipboard,
            action_on_escape: Action::Exit,
            save_after_copy: false,
            right_click_copy: false,
            color_palette: ColorPalette::default(),
            default_hide_toolbars: false,
            font: FontConfiguration::default(),
            primary_highlighter: Highlighters::Block,
            disable_notifications: false,
            profile_startup: false,
            no_window_decoration: false,
            daemon_mode: false,
            show_mode: false,
        }
    }
}

} // verus!
