use unitools::config::{AppConfig, Theme};
use unitools::error::ToolError;
use unitools::file_tools::{get_file_tools, FileBrowserTool, FileInfoTool};
use unitools::plugin::PluginManager;
use unitools::text_tools::{
    get_text_tools, TextAnalyzer, TextCaseConverter, TextRegexTool, TextTool, TextToolsPlugin,
};
use unitools::tool::{Tool, ToolCategory, ToolContext};

fn text_context(input: &str) -> ToolContext {
    let mut ctx = ToolContext::new();
    ctx.input_data = Some(input.as_bytes().to_vec());
    ctx
}

#[test]
fn case_converter_upper_and_bogus_modes() {
    let tool = TextCaseConverter {};
    let mut ctx = text_context("Hello");
    ctx.set_parameter("mode".to_string(), "upper".to_string());
    let out = tool.execute(&ctx).unwrap();
    assert_eq!(out, Some(b"HELLO".to_vec()));

    let mut bogus = text_context("Hello");
    bogus.set_parameter("mode".to_string(), "bogus".to_string());
    let err = tool.execute(&bogus).unwrap_err();
    assert!(matches!(err, ToolError::ParameterError(_)));
}

#[test]
fn case_converter_defaults_and_lower() {
    let tool = TextCaseConverter {};
    let ctx = text_context("Hello");
    assert_eq!(tool.execute(&ctx).unwrap(), Some(b"HELLO".to_vec()));

    let mut lower = text_context("Hello");
    lower.set_parameter("mode".to_string(), "LOWER".to_string());
    assert_eq!(tool.execute(&lower).unwrap(), Some(b"hello".to_vec()));
}

#[test]
fn tools_reject_missing_or_malformed_input() {
    let converter = TextCaseConverter {};
    let empty = ToolContext::new();
    assert!(matches!(
        converter.execute(&empty).unwrap_err(),
        ToolError::ParameterError(_)
    ));

    let mut malformed = ToolContext::new();
    malformed.input_data = Some(vec![0xff, 0xfe]);
    assert!(matches!(
        converter.execute(&malformed).unwrap_err(),
        ToolError::FormatError(_)
    ));
    let analyzer = TextAnalyzer {};
    assert!(matches!(
        analyzer.execute(&malformed).unwrap_err(),
        ToolError::FormatError(_)
    ));
}

#[test]
fn analyzer_reports_exact_counts() {
    let tool = TextAnalyzer {};
    let ctx = text_context("Hello world\nsecond line");
    let out = tool.execute(&ctx).unwrap().unwrap();
    assert_eq!(
        String::from_utf8(out).unwrap(),
        "Characters: 23\nWords: 4\nLines: 2"
    );
}

#[test]
fn regex_tool_finds_and_replaces() {
    let tool = TextRegexTool {};

    let mut find = text_context("a1b22");
    find.set_parameter("pattern".to_string(), r"\d+".to_string());
    let out = tool.execute(&find).unwrap().unwrap();
    assert_eq!(String::from_utf8(out).unwrap(), "found 2 matches:\n\n1\n22");

    let mut nothing = text_context("abc");
    nothing.set_parameter("pattern".to_string(), r"\d".to_string());
    let out = tool.execute(&nothing).unwrap().unwrap();
    assert_eq!(String::from_utf8(out).unwrap(), "no matches found");

    let mut replace = text_context("aaa");
    replace.set_parameter("pattern".to_string(), "a".to_string());
    replace.set_parameter("mode".to_string(), "replace".to_string());
    replace.set_parameter("replacement".to_string(), "b".to_string());
    let out = tool.execute(&replace).unwrap().unwrap();
    assert_eq!(String::from_utf8(out).unwrap(), "bbb");
}

#[test]
fn regex_tool_error_paths() {
    let tool = TextRegexTool {};

    let no_pattern = text_context("abc");
    assert!(matches!(
        tool.execute(&no_pattern).unwrap_err(),
        ToolError::ParameterError(_)
    ));

    let mut invalid = text_context("abc");
    invalid.set_parameter("pattern".to_string(), "(".to_string());
    assert!(matches!(
        tool.execute(&invalid).unwrap_err(),
        ToolError::ParseError(_)
    ));

    let mut bogus = text_context("abc");
    bogus.set_parameter("pattern".to_string(), "a".to_string());
    bogus.set_parameter("mode".to_string(), "bogus".to_string());
    assert!(matches!(
        tool.execute(&bogus).unwrap_err(),
        ToolError::ParameterError(_)
    ));
}

#[test]
fn builtin_text_tools_register_and_run_through_the_registry() {
    let mut m: PluginManager<TextToolsPlugin, TextTool> = PluginManager::new();
    assert!(m.register_plugin(TextToolsPlugin {}).is_ok());
    let names: Vec<String> = m.get_tools().iter().map(|t| t.name()).collect();
    assert_eq!(
        names,
        vec![
            "TextAnalyzer".to_string(),
            "TextCaseConverter".to_string(),
            "TextRegexTool".to_string()
        ]
    );

    let tool = m.get_tool("TextCaseConverter").unwrap();
    let ctx = text_context("Hello");
    assert_eq!(tool.execute(&ctx).unwrap(), Some(b"HELLO".to_vec()));

    assert!(m.unload_plugin("text-tools").is_ok());
    assert!(m.get_tool("TextCaseConverter").is_none());
}

#[test]
fn text_tool_listing() {
    let tools = get_text_tools();
    assert_eq!(tools.len(), 3);
    for t in &tools {
        assert_eq!(t.category(), ToolCategory::Text);
    }
    let params = tools[1].parameter_descriptions();
    assert_eq!(params.len(), 1);
    assert_eq!(params[0].0, "mode");
}

#[test]
fn file_info_tool_renders_reports() {
    let ctx = ToolContext::new();
    assert!(matches!(
        FileInfoTool::path_param(&ctx).unwrap_err(),
        ToolError::ParameterError(_)
    ));

    let mut with_path = ToolContext::new();
    with_path.set_parameter("path".to_string(), "/tmp/data.txt".to_string());
    assert_eq!(FileInfoTool::path_param(&with_path).unwrap(), "/tmp/data.txt");

    let report = FileInfoTool::info_report("/tmp/data.txt", 42);
    assert_eq!(
        String::from_utf8(report).unwrap(),
        "Name: data.txt\nPath: /tmp/data.txt\nSize: 42 bytes\nExtension: txt"
    );

    let err = FileInfoTool::missing_file_error("/nope");
    assert!(matches!(err, ToolError::NotFoundError(_)));
    assert_eq!(err.message(), "not found: file not found: /nope");
}

#[test]
fn file_browser_tool_renders_listings() {
    let ctx = ToolContext::new();
    assert_eq!(FileBrowserTool::directory_param(&ctx), ".");
    let mut with_dir = ToolContext::new();
    with_dir.set_parameter("directory".to_string(), "/data".to_string());
    assert_eq!(FileBrowserTool::directory_param(&with_dir), "/data");

    let subdirs = vec!["docs".to_string()];
    let files = vec![
        ("a.txt".to_string(), Some(12u64)),
        ("b.bin".to_string(), None),
    ];
    let report = FileBrowserTool::browse_report("/data", &subdirs, &files);
    assert_eq!(
        String::from_utf8(report).unwrap(),
        "Directory: /data\n\nSubdirectories:\n  [DIR] docs\n\nFiles:\n  a.txt (12 bytes)\n  b.bin (unknown size)\n"
    );

    let none_sub: Vec<String> = Vec::new();
    let none_files: Vec<(String, Option<u64>)> = Vec::new();
    let empty = FileBrowserTool::browse_report("/x", &none_sub, &none_files);
    assert_eq!(
        String::from_utf8(empty).unwrap(),
        "Directory: /x\n\nSubdirectories:\n  (none)\n\nFiles:\n  (none)\n"
    );
}

#[test]
fn file_tool_listing() {
    let tools = get_file_tools();
    assert_eq!(tools.len(), 2);
    assert_eq!(tools[0].name(), "FileInfoTool");
    assert_eq!(tools[1].name(), "FileBrowserTool");
    for t in &tools {
        assert_eq!(t.category(), ToolCategory::File);
    }
}

#[test]
fn category_labels() {
    assert_eq!(ToolCategory::File.label(), "File");
    assert_eq!(ToolCategory::Text.label(), "Text");
    assert_eq!(ToolCategory::Other.label(), "Other");
}

#[test]
fn context_parameters_replace_and_lookup() {
    let mut ctx = ToolContext::new();
    assert!(ctx.get_parameter("k").is_none());
    ctx.set_parameter("k".to_string(), "v1".to_string());
    assert_eq!(ctx.get_parameter("k").unwrap(), "v1");
    ctx.set_parameter("k".to_string(), "v2".to_string());
    assert_eq!(ctx.get_parameter("k").unwrap(), "v2");
    ctx.set_parameter("other".to_string(), "x".to_string());
    assert_eq!(ctx.get_parameter("k").unwrap(), "v2");
    assert_eq!(ctx.parameters.len(), 2);
}

#[test]
fn app_config_defaults_and_tool_settings() {
    let mut cfg = AppConfig::default();
    assert_eq!(cfg.theme, Theme::System);
    assert_eq!(cfg.language, "zh-CN");
    assert_eq!(cfg.user.username, "user");
    assert!(cfg.enabled_plugins.is_empty());
    assert!(cfg.plugin_directory.is_none());
    assert!(cfg.get_tool_config("any").is_none());

    cfg.set_tool_config(
        "hash".to_string(),
        serde_json::Value::String("sha".to_string()),
    );
    assert_eq!(
        cfg.get_tool_config("hash").unwrap(),
        &serde_json::Value::String("sha".to_string())
    );
    cfg.set_tool_config("hash".to_string(), serde_json::Value::Bool(true));
    assert_eq!(cfg.get_tool_config("hash").unwrap(), &serde_json::Value::Bool(true));
    assert_eq!(cfg.tool_configs.len(), 1);
}

#[test]
fn error_messages_carry_their_kind() {
    assert_eq!(
        ToolError::IoError("broken pipe".to_string()).message(),
        "IO error: broken pipe"
    );
    assert_eq!(
        ToolError::NetworkError("down".to_string()).message(),
        "network error: down"
    );
    assert_eq!(
        ToolError::NotImplementedError("later".to_string()).message(),
        "not implemented: later"
    );
    assert_eq!(ToolError::Other("misc".to_string()).message(), "error: misc");
    assert_eq!(
        ToolError::FormatError("bad bytes".to_string()).message(),
        "format error: bad bytes"
    );
    assert_eq!(
        ToolError::ParseError("bad regex".to_string()).message(),
        "parse error: bad regex"
    );
}
