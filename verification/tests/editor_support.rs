use zed_core::assistant::{sse_line_data, Model, RequestMessage, Role};
use zed_core::chars::matches_ignore_ascii_case;
use zed_core::edit_ops::{CodeEditsTool, CodeEditsToolInput, Edit, Operation};
use zed_core::settings::{SemanticIndexSettings, SemanticIndexSettingsContent};
use zed_core::theme::{parse_hex_color, Appearance, ColorTools};
use zed_core::tsx::{
    closing_tag_text, should_close_tag, EditedRegion, OpenTagInfo, TagCompletionContext, TagToken,
    TsxEditBehaviorProvider,
};

#[test]
fn appearance_from_string_ignores_case() {
    assert_eq!(Appearance::from("light".to_string()), Appearance::Light);
    assert_eq!(Appearance::from("DARK".to_string()), Appearance::Dark);
    assert_eq!(Appearance::from("Dark".to_string()), Appearance::Dark);
    assert_eq!(Appearance::from("solarized".to_string()), Appearance::Light);
}

#[test]
fn appearance_is_light() {
    assert!(Appearance::Light.is_light());
    assert!(!Appearance::Dark.is_light());
}

#[test]
fn ascii_case_matching() {
    assert!(matches_ignore_ascii_case("TSX", "tsx"));
    assert!(matches_ignore_ascii_case("jsx", "jsx"));
    assert!(!matches_ignore_ascii_case("rust", "tsx"));
    assert!(!matches_ignore_ascii_case("tsxx", "tsx"));
}

#[test]
fn hex_colors_parse() {
    assert_eq!(parse_hex_color("000"), Some(0x000000ff));
    assert_eq!(parse_hex_color("0000"), Some(0x00000000));
    assert_eq!(parse_hex_color("000000"), Some(0x000000ff));
    assert_eq!(parse_hex_color("00000000"), Some(0x00000000));
    assert_eq!(parse_hex_color("#ff0000"), Some(0xff0000ff));
    assert_eq!(parse_hex_color("1A2b3C4d"), Some(0x1a2b3c4d));
    let _tools = ColorTools {};
}

#[test]
fn bad_hex_colors_rejected() {
    assert_eq!(parse_hex_color(""), None);
    assert_eq!(parse_hex_color("#"), None);
    assert_eq!(parse_hex_color("nope"), None);
    assert_eq!(parse_hex_color("123456789"), None);
}

#[test]
fn settings_merge_prefers_last_user_value() {
    let default_value = SemanticIndexSettingsContent { enabled: Some(true) };
    let users = vec![
        SemanticIndexSettingsContent { enabled: None },
        SemanticIndexSettingsContent { enabled: Some(false) },
        SemanticIndexSettingsContent { enabled: None },
    ];
    let settings = SemanticIndexSettings::load(&default_value, &users).unwrap();
    assert!(!settings.enabled);
}

#[test]
fn settings_merge_falls_back_to_default() {
    let default_value = SemanticIndexSettingsContent { enabled: Some(true) };
    let settings = SemanticIndexSettings::load(&default_value, &Vec::new()).unwrap();
    assert!(settings.enabled);
    let empty = SemanticIndexSettingsContent::default();
    assert!(SemanticIndexSettings::load(&empty, &Vec::new()).is_none());
}

#[test]
fn sse_lines_classified() {
    let data = sse_line_data("data: {\"type\":\"ping\"}").unwrap();
    assert_eq!(data.as_str(), "{\"type\":\"ping\"}");
    assert!(sse_line_data("event: message").is_none());
    assert!(sse_line_data("").is_none());
    // Repeated markers are all stripped, as the stream reader does it.
    assert_eq!(sse_line_data("data: data: x").unwrap().as_str(), "x");
}

#[test]
fn assistant_types_construct() {
    assert!(matches!(Model::default(), Model::ClaudeOpus));
    let message = RequestMessage { role: Role::User, content: "hi".to_string() };
    assert_eq!(message.role, Role::User);
}

#[test]
fn code_edits_tool_name() {
    let tool = CodeEditsTool;
    assert_eq!(tool.name().as_str(), "zed_code_edits");
}

#[test]
fn code_edits_input_constructs() {
    let input = CodeEditsToolInput {
        title: "rename x".to_string(),
        edits: vec![Edit {
            path: "src/main.rs".to_string(),
            operation: Operation::Delete { old_text: "let x = 1;".to_string() },
        }],
    };
    assert_eq!(input.edits.len(), 1);
    assert!(matches!(input.edits[0].operation, Operation::Delete { .. }));
}

fn region(text: &str, language: &str, tag: Option<OpenTagInfo>) -> EditedRegion {
    EditedRegion {
        text: text.to_string(),
        language_name: language.to_string(),
        open_tag: tag,
    }
}

fn open_tag(start: usize, end: usize) -> OpenTagInfo {
    OpenTagInfo { start, end, has_error: false, starts_closing: false }
}

#[test]
fn tag_completion_state_found() {
    let provider = TsxEditBehaviorProvider;
    let regions = vec![
        region("<div>", "TSX", Some(open_tag(0, 5))),
        region("plain text", "tsx", Some(open_tag(7, 12))),
        region("<span>", "rust", Some(open_tag(0, 6))),
    ];
    let states = provider.should_auto_edit(&regions).unwrap();
    assert_eq!(states.len(), 1);
    assert_eq!(states[0].edit_index, 0);
    assert_eq!(states[0].open_tag_start, 0);
    assert_eq!(states[0].open_tag_end, 5);
}

#[test]
fn half_typed_closing_tag_skipped() {
    let provider = TsxEditBehaviorProvider;
    let broken = OpenTagInfo { start: 0, end: 5, has_error: true, starts_closing: true };
    let regions = vec![region("</div>", "tsx", Some(broken))];
    assert!(provider.should_auto_edit(&regions).is_none());
}

fn token(closing: bool, name: &str) -> TagToken {
    TagToken { closing, name: name.to_string() }
}

#[test]
fn unclosed_tags_counted() {
    let name = "div".to_string();
    assert!(should_close_tag(&vec![token(false, "div")], &name));
    assert!(!should_close_tag(&vec![token(false, "div"), token(true, "div")], &name));
    assert!(should_close_tag(
        &vec![token(false, "div"), token(false, "div"), token(true, "div")],
        &name
    ));
    assert!(!should_close_tag(&vec![token(false, "span")], &name));
}

#[test]
fn closing_tag_built() {
    assert_eq!(closing_tag_text(&"Widget".to_string()).as_str(), "</Widget>");
}

#[test]
fn auto_edit_emits_closing_tags() {
    let provider = TsxEditBehaviorProvider;
    let contexts = vec![
        TagCompletionContext {
            anchor: 17,
            tag_name: "div".to_string(),
            tokens: vec![token(false, "div")],
        },
        TagCompletionContext {
            anchor: 40,
            tag_name: "span".to_string(),
            tokens: vec![token(false, "span"), token(true, "span")],
        },
    ];
    let edits = provider.auto_edit(&contexts);
    assert_eq!(edits.len(), 1);
    assert_eq!(edits[0].0, 17);
    assert_eq!(edits[0].1.as_str(), "</div>");
}
