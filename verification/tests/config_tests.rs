use satty::command_line::{Action as CommandLineAction, CommandLine};
use satty::configuration::{
    Action, Color, Configuration, ConfigurationFile, ConfigurationFileGeneral, ColorPaletteFile,
    FontFile,
};
use satty::milli::Milli;
use satty::protocol::DaemonRequest;
use satty::request_config::{parse_tool, RequestConfig};
use satty::tools::Tools;

fn plain_command_line(filename: &str) -> CommandLine {
    CommandLine {
        config: None,
        filename: filename.to_string(),
        fullscreen: false,
        output_filename: None,
        early_exit: false,
        corner_roundness: None,
        initial_tool: None,
        copy_command: None,
        annotation_size_factor: None,
        save_after_copy: false,
        default_hide_toolbars: false,
        font_family: None,
        font_style: None,
        primary_highlighter: None,
        disable_notifications: false,
        profile_startup: false,
        no_window_decoration: false,
        right_click_copy: false,
        action_on_enter: None,
        action_on_escape: None,
        daemon: false,
        show: false,
    }
}

#[test]
fn test_parse_tool() {
    assert_eq!(parse_tool("pointer"), Some(Tools::Pointer));
    assert_eq!(parse_tool("ARROW"), Some(Tools::Arrow));
    assert_eq!(parse_tool("Rectangle"), Some(Tools::Rectangle));
    assert_eq!(parse_tool("invalid"), None);
}

#[test]
fn test_parse_tool_folds_unicode_case() {
    // The Kelvin sign lowercases to a plain k, so this spelling names the
    // marker tool.
    assert_eq!(parse_tool("mar\u{212A}er"), Some(Tools::Marker));
    assert_eq!(parse_tool("\u{130}nvalid"), None);
}

#[test]
fn test_parse_tool_inverts_names() {
    for tool in [
        Tools::Pointer,
        Tools::Crop,
        Tools::Line,
        Tools::Arrow,
        Tools::Rectangle,
        Tools::Ellipse,
        Tools::Text,
        Tools::Marker,
        Tools::Blur,
        Tools::Highlight,
        Tools::Brush,
    ] {
        assert_eq!(parse_tool(tool.name()), Some(tool));
    }
}

#[test]
fn test_default_config() {
    let config = RequestConfig::default();
    assert!(config.input_filename.is_empty());
    assert_eq!(config.initial_tool, Tools::Pointer);
    assert!(!config.fullscreen);
}

#[test]
fn test_configuration_defaults() {
    let config = Configuration::default();
    assert_eq!(config.corner_roundness(), Milli(12000));
    assert_eq!(config.annotation_size_factor(), Milli(1000));
    assert_eq!(config.initial_tool(), Tools::Pointer);
    assert_eq!(config.action_on_escape(), Action::Exit);
    assert!(!config.fullscreen());
    assert_eq!(config.color_palette().palette().len(), 5);
    assert_eq!(config.color_palette().palette()[0], Color::orange());
}

#[test]
fn test_merge_file_overrides_defaults_and_command_line_wins() {
    let mut config = Configuration::default();
    let file = ConfigurationFile {
        general: Some(ConfigurationFileGeneral {
            fullscreen: Some(true),
            early_exit: Some(true),
            corner_roundness: Some(Milli(2000)),
            initial_tool: Some(Tools::Marker),
            copy_command: Some("xclip".to_string()),
            annotation_size_factor: None,
            output_filename: None,
            action_on_enter: None,
            action_on_escape: None,
            save_after_copy: None,
            right_click_copy: None,
            default_hide_toolbars: None,
            primary_highlighter: None,
            disable_notifications: None,
            no_window_decoration: None,
        }),
        color_palette: Some(ColorPaletteFile {
            palette: Some(vec![Color { r: 1, g: 2, b: 3, a: 255 }]),
            custom: None,
        }),
        font: Some(FontFile { family: Some("Mono".to_string()), style: None }),
    };
    let mut cl = plain_command_line("/tmp/in.png");
    cl.corner_roundness = Some(Milli(7000));
    cl.copy_command = Some("wl-copy".to_string());
    cl.action_on_enter = Some(CommandLineAction::SaveToFile);

    config.merge(Some(file), cl);

    assert_eq!(config.input_filename(), "/tmp/in.png");
    assert!(config.fullscreen());
    assert!(config.early_exit());
    // the command line beats the file, the file beats the default
    assert_eq!(config.corner_roundness(), Milli(7000));
    assert_eq!(config.copy_command(), Some(&"wl-copy".to_string()));
    assert_eq!(config.initial_tool(), Tools::Marker);
    assert_eq!(config.action_on_enter(), Action::SaveToFile);
    assert_eq!(config.color_palette().palette().len(), 1);
    assert_eq!(config.font().family(), Some("Mono"));
    assert_eq!(config.font().style(), None);
}

#[test]
fn test_from_request_overrides_and_inherits() {
    let mut global = Configuration::default();
    global.merge(None, plain_command_line("/tmp/global.png"));

    let mut req = DaemonRequest::new("/tmp/shot.png");
    req.fullscreen = Some(true);
    req.initial_tool = Some("BLUR".to_string());
    req.corner_roundness = Some(Milli(3500));

    let config = RequestConfig::from_request(&req, &global);
    assert_eq!(config.input_filename, "/tmp/shot.png");
    assert!(config.fullscreen);
    assert_eq!(config.initial_tool, Tools::Blur);
    assert_eq!(config.corner_roundness, Milli(3500));
    // inherited from the global configuration
    assert_eq!(config.annotation_size_factor, Milli(1000));
    assert!(!config.early_exit);
}

#[test]
fn test_from_request_falls_back_on_unknown_tool() {
    let global = Configuration::default();
    let mut req = DaemonRequest::new("/tmp/shot.png");
    req.initial_tool = Some("laser".to_string());
    let config = RequestConfig::from_request(&req, &global);
    assert_eq!(config.initial_tool, Tools::Pointer);
}

#[test]
fn test_from_global_copies_every_default() {
    let mut global = Configuration::default();
    let mut cl = plain_command_line("/tmp/g.png");
    cl.early_exit = true;
    global.merge(None, cl);

    let config = RequestConfig::from_global(&global);
    assert_eq!(config.input_filename, "/tmp/g.png");
    assert!(config.early_exit);
    assert_eq!(config.initial_tool, Tools::Pointer);
}
