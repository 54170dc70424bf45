use vstd::prelude::*;

use crate::error::ToolError;
use crate::plugin::Plugin;
use crate::strings::{dec_chars, join_strings, joined, string_views, u64_to_string};
use crate::text::{
    count_chars, count_lines, count_words, line_count, lower_of, regex_find_all, regex_found,
    regex_ok, regex_replace_all, regex_replaced, to_lowercase, to_uppercase, upper_of, word_count,
};
use crate::tool::{Tool, ToolCategory, ToolContext, ToolResult};

verus! {

use vstd::string::StrSliceExecFns;
use vstd::string::StringExecFns;
use vstd::utf8::{decode_utf8, encode_utf8, valid_utf8};

/// Relies on String::from_utf8: it accepts exactly the valid UTF-8 byte
/// sequences, and preserves the bytes it was given.
#[verifier::external_body]
fn bytes_to_string(v: &Vec<u8>) -> (r: Option<String>)
    ensures
        r is Some <==> valid_utf8(v@),
        r matches Some(s) ==> encode_utf8(s@) == v@,
{
    String::from_utf8(v.clone()).ok()
}

/// Pulls the UTF-8 input text out of a context: a missing payload is a
/// parameter error and ill-formed bytes are a format error.
fn decode_input(ctx: &ToolContext) -> (r: Result<String, ToolError>)
    ensures
        ctx.input_data is None ==> (r matches Err(ToolError::ParameterError(m)) && m@
            == "no input text provided"@),
        ctx.input_data matches Some(d) ==> (!valid_utf8(d@) ==> (r matches Err(
            ToolError::FormatError(m),
        ) && m@ == "input data is not valid UTF-8 text"@)),
        ctx.input_data matches Some(d) ==> (valid_utf8(d@) ==> (r matches Ok(s) && s@
            == decode_utf8(d@))),
{
    match &ctx.input_data {
        None => Err(ToolError::ParameterError("no input text provided".to_owned())),
        Some(d) => match bytes_to_string(d) {
            None => Err(ToolError::FormatError("input data is not valid UTF-8 text".to_owned())),
            Some(s) => {
                proof {
                    vstd::utf8::encode_utf8_decode_utf8(s@);
                }
                Ok(s)
            },
        },
    }
}

/// The report the text analyzer renders for the text `t`.
pub open spec fn analysis_note(t: Seq<char>) -> Seq<char> {
    "Characters: "@ + dec_chars(t.len()) + "\nWords: "@ + dec_chars(word_count(t)) + "\nLines: "@
        + dec_chars(line_count(t))
}

/// Counts the characters, words and lines of the input text.
#[derive(Debug, Clone, PartialEq, Eq, Structural)]
pub struct TextAnalyzer {}

impl TextAnalyzer {
    /// Runs the analysis: requires a UTF-8 payload and renders the three
    /// counts.
    pub fn run(&self, ctx: &ToolContext) -> (r: ToolResult)
        ensures
            ctx.input_data is None ==> (r matches Err(ToolError::ParameterError(m)) && m@
                == "no input text provided"@),
            ctx.input_data matches Some(d) ==> (!valid_utf8(d@) ==> (r matches Err(
                ToolError::FormatError(_),
            ))),
            ctx.input_data matches Some(d) ==> (valid_utf8(d@) ==> (r matches Ok(Some(out))
                && out@ == encode_utf8(analysis_note(decode_utf8(d@))))),
    {
        let text = match decode_input(ctx) {
            Err(e) => {
                return Err(e);
            },
            Ok(t) => t,
        };
        let chars = count_chars(text.as_str());
        let words = count_words(text.as_str());
        let lines = count_lines(text.as_str());
        let mut report = "Characters: ".to_owned();
        report.append(u64_to_string(chars as u64).as_str());
        report.append("\nWords: ");
        report.append(u64_to_string(words as u64).as_str());
        report.append("\nLines: ");
        report.append(u64_to_string(lines as u64).as_str());
        proof {
            assert(report@ == analysis_note(text@));
        }
        Ok(Some(report.as_str().as_bytes_vec()))
    }
}

impl Tool for TextAnalyzer {
    open spec fn spec_name(&self) -> Seq<char> {
        "TextAnalyzer"@
    }

    open spec fn spec_category(&self) -> ToolCategory {
        ToolCategory::Text
    }

    fn name(&self) -> (r: String) {
        "TextAnalyzer".to_owned()
    }

    fn description(&self) -> String {
        "Counts the characters, words and lines of a text".to_owned()
    }

    fn category(&self) -> (r: ToolCategory) {
        ToolCategory::Text
    }

    fn execute(&self, ctx: &ToolContext) -> ToolResult {
        self.run(ctx)
    }
}

/// Converts the input text to upper or lower case, as the `mode` parameter
/// asks.
#[derive(Debug, Clone, PartialEq, Eq, Structural)]
pub struct TextCaseConverter {}

impl TextCaseConverter {
    /// Runs the conversion: requires a UTF-8 payload; the `mode` parameter
    /// (compared case-insensitively, `upper` when absent) picks the case,
    /// and any other mode is a parameter error.
    pub fn run(&self, ctx: &ToolContext) -> (r: ToolResult)
        ensures
            ctx.input_data is None ==> (r matches Err(ToolError::ParameterError(m)) && m@
                == "no input text provided"@),
            ctx.input_data matches Some(d) ==> (!valid_utf8(d@) ==> (r matches Err(
                ToolError::FormatError(_),
            ))),
            ctx.input_data matches Some(d) ==> (valid_utf8(d@) ==> {
                let text = decode_utf8(d@);
                let mode = ctx.spec_param_or("mode"@, "upper"@);
                &&& lower_of(mode) == "upper"@ ==> (r matches Ok(Some(out)) && out@ == encode_utf8(
                    upper_of(text),
                ))
                &&& lower_of(mode) == "lower"@ ==> (r matches Ok(Some(out)) && out@ == encode_utf8(
                    lower_of(text),
                ))
                &&& lower_of(mode) != "upper"@ && lower_of(mode) != "lower"@ ==> (r matches Err(
                    ToolError::ParameterError(_),
                ))
            }),
    {
        let text = match decode_input(ctx) {
            Err(e) => {
                return Err(e);
            },
            Ok(t) => t,
        };
        proof {
            reveal_strlit("upper");
            reveal_strlit("lower");
            assert("upper"@ != "lower"@) by {
                assert("upper"@.index(0) == 'u');
                assert("lower"@.index(0) == 'l');
            }
        }
        let mode = match ctx.get_parameter("mode") {
            Some(v) => v.clone(),
            None => "upper".to_owned(),
        };
        let lowered_mode = to_lowercase(mode.as_str());
        let converted = if crate::strings::str_eq(lowered_mode.as_str(), "upper") {
            to_uppercase(text.as_str())
        } else if crate::strings::str_eq(lowered_mode.as_str(), "lower") {
            to_lowercase(text.as_str())
        } else {
            let mut m = "invalid mode parameter: ".to_owned();
            m.append(mode.as_str());
            return Err(ToolError::ParameterError(m));
        };
        Ok(Some(converted.as_str().as_bytes_vec()))
    }
}

impl Tool for TextCaseConverter {
    open spec fn spec_name(&self) -> Seq<char> {
        "TextCaseConverter"@
    }

    open spec fn spec_category(&self) -> ToolCategory {
        ToolCategory::Text
    }

    fn name(&self) -> (r: String) {
        "TextCaseConverter".to_owned()
    }

    fn description(&self) -> String {
        "Converts a text to upper or lower case".to_owned()
    }

    fn category(&self) -> (r: ToolCategory) {
        ToolCategory::Text
    }

    fn parameter_descriptions(&self) -> Vec<(String, String)> {
        let mut v: Vec<(String, String)> = Vec::new();
        v.push(("mode".to_owned(), "conversion mode: upper or lower".to_owned()));
        v
    }

    fn execute(&self, ctx: &ToolContext) -> ToolResult {
        self.run(ctx)
    }
}

/// The report the regex tool renders for the matches `found`.
pub open spec fn find_note(found: Seq<Seq<char>>) -> Seq<char> {
    if found.len() == 0 {
        "no matches found"@
    } else {
        "found "@ + dec_chars(found.len()) + " matches:\n\n"@ + joined(found, "\n"@)
    }
}

/// Finds or replaces regular-expression matches in the input text.
#[derive(Debug, Clone, PartialEq, Eq, Structural)]
pub struct TextRegexTool {}

impl TextRegexTool {
    /// Runs the search or replacement: requires a UTF-8 payload and a
    /// `pattern` parameter; the `mode` parameter (compared
    /// case-insensitively, `find` when absent) picks the operation, and any
    /// other mode is a parameter error. An invalid pattern is a parse
    /// error.
    pub fn run(&self, ctx: &ToolContext) -> (r: ToolResult)
        ensures
            ctx.input_data is None ==> (r matches Err(ToolError::ParameterError(m)) && m@
                == "no input text provided"@),
            ctx.input_data matches Some(d) ==> (!valid_utf8(d@) ==> (r matches Err(
                ToolError::FormatError(_),
            ))),
            ctx.input_data matches Some(d) ==> (valid_utf8(d@) && ctx.spec_param("pattern"@)
                is None ==> (r matches Err(ToolError::ParameterError(_)))),
            ctx.input_data matches Some(d) ==> (valid_utf8(d@) ==> (ctx.spec_param("pattern"@)
                matches Some(pattern) ==> {
                let text = decode_utf8(d@);
                let mode = ctx.spec_param_or("mode"@, "find"@);
                let replacement = ctx.spec_param_or("replacement"@, ""@);
                &&& lower_of(mode) == "find"@ && !regex_ok(pattern) ==> (r matches Err(
                    ToolError::ParseError(_),
                ))
                &&& lower_of(mode) == "find"@ && regex_ok(pattern) ==> (r matches Ok(Some(out))
                    && out@ == encode_utf8(find_note(regex_found(pattern, text))))
                &&& lower_of(mode) == "replace"@ && !regex_ok(pattern) ==> (r matches Err(
                    ToolError::ParseError(_),
                ))
                &&& lower_of(mode) == "replace"@ && regex_ok(pattern) ==> (r matches Ok(Some(out))
                    && out@ == encode_utf8(regex_replaced(pattern, text, replacement)))
                &&& lower_of(mode) != "find"@ && lower_of(mode) != "replace"@ ==> (r matches Err(
                    ToolError::ParameterError(_),
                ))
            })),
    {
        let text = match decode_input(ctx) {
            Err(e) => {
                return Err(e);
            },
            Ok(t) => t,
        };
        let pattern = match ctx.get_parameter("pattern") {
            Some(p) => p.clone(),
            None => {
                return Err(
                    ToolError::ParameterError(
                        "no regular expression pattern provided".to_owned(),
                    ),
                );
            },
        };
        proof {
            reveal_strlit("find");
            reveal_strlit("replace");
            assert("find"@ != "replace"@) by {
                assert("find"@.len() == 4);
                assert("replace"@.len() == 7);
            }
        }
        let mode = match ctx.get_parameter("mode") {
            Some(v) => v.clone(),
            None => "find".to_owned(),
        };
        let lowered_mode = to_lowercase(mode.as_str());
        let rendered: String = if crate::strings::str_eq(lowered_mode.as_str(), "find") {
            let found = match regex_find_all(text.as_str(), pattern.as_str()) {
                Err(e) => {
                    return Err(e);
                },
                Ok(found) => found,
            };
            if found.len() == 0 {
                proof {
                    assert(string_views(found@) =~= Seq::<Seq<char>>::empty());
                }
                "no matches found".to_owned()
            } else {
                let mut report = "found ".to_owned();
                report.append(u64_to_string(found.len() as u64).as_str());
                report.append(" matches:\n\n");
                report.append(join_strings(&found, "\n").as_str());
                report
            }
        } else if crate::strings::str_eq(lowered_mode.as_str(), "replace") {
            let replacement = match ctx.get_parameter("replacement") {
                Some(v) => v.clone(),
                None => "".to_owned(),
            };
            match regex_replace_all(text.as_str(), pattern.as_str(), replacement.as_str()) {
                Err(e) => {
                    return Err(e);
                },
                Ok(replaced) => replaced,
            }
        } else {
            let mut m = "invalid mode parameter: ".to_owned();
            m.append(mode.as_str());
            return Err(ToolError::ParameterError(m));
        };
        Ok(Some(rendered.as_str().as_bytes_vec()))
    }
}

impl Tool for TextRegexTool {
    open spec fn spec_name(&self) -> Seq<char> {
        "TextRegexTool"@
    }

    open spec fn spec_category(&self) -> ToolCategory {
        ToolCategory::Text
    }

    fn name(&self) -> (r: String) {
        "TextRegexTool".to_owned()
    }

    fn description(&self) -> String {
        "Finds or replaces regular-expression matches in a text".to_owned()
    }

    fn category(&self) -> (r: ToolCategory) {
        ToolCategory::Text
    }

    fn parameter_descriptions(&self) -> Vec<(String, String)> {
        let mut v: Vec<(String, String)> = Vec::new();
        v.push(("pattern".to_owned(), "regular expression pattern".to_owned()));
        v.push((
            "replacement".to_owned(),
            "replacement text, used in replace mode".to_owned(),
        ));
        v.push(("mode".to_owned(), "operation mode: find or replace".to_owned()));
        v
    }

    fn execute(&self, ctx: &ToolContext) -> ToolResult {
        self.run(ctx)
    }
}

/// One of the built-in text tools.
#[derive(Debug, Clone, PartialEq, Eq, Structural)]
pub enum TextTool {
    Analyzer(TextAnalyzer),
    CaseConverter(TextCaseConverter),
    Pattern(TextRegexTool),
}

impl Tool for TextTool {
    open spec fn spec_name(&self) -> Seq<char> {
        match self {
            TextTool::Analyzer(t) => t.spec_name(),
            TextTool::CaseConverter(t) => t.spec_name(),
            TextTool::Pattern(t) => t.spec_name(),
        }
    }

    open spec fn spec_category(&self) -> ToolCategory {
        ToolCategory::Text
    }

    fn name(&self) -> (r: String) {
        match self {
            TextTool::Analyzer(t) => t.name(),
            TextTool::CaseConverter(t) => t.name(),
            TextTool::Pattern(t) => t.name(),
        }
    }

    fn description(&self) -> String {
        match self {
            TextTool::Analyzer(t) => t.description(),
            TextTool::CaseConverter(t) => t.description(),
            TextTool::Pattern(t) => t.description(),
        }
    }

    fn category(&self) -> (r: ToolCategory) {
        ToolCategory::Text
    }

    fn parameter_descriptions(&self) -> Vec<(String, String)> {
        match self {
            TextTool::Analyzer(t) => t.parameter_descriptions(),
            TextTool::CaseConverter(t) => t.parameter_descriptions(),
            TextTool::Pattern(t) => t.parameter_descriptions(),
        }
    }

    fn execute(&self, ctx: &ToolContext) -> ToolResult {
        match self {
            TextTool::Analyzer(t) => t.execute(ctx),
            TextTool::CaseConverter(t) => t.execute(ctx),
            TextTool::Pattern(t) => t.execute(ctx),
        }
    }
}

/// The built-in text tools, in the order they are offered.
pub open spec fn builtin_text_tools() -> Seq<TextTool> {
    seq![
        TextTool::Analyzer(TextAnalyzer {}),
        TextTool::CaseConverter(TextCaseConverter {}),
        TextTool::Pattern(TextRegexTool {}),
    ]
}

/// All built-in text tools.
pub fn get_text_tools() -> (r: Vec<TextTool>)
    ensures
        r@ == builtin_text_tools(),
{
    let mut v: Vec<TextTool> = Vec::new();
    v.push(TextTool::Analyzer(TextAnalyzer {}));
    v.push(TextTool::CaseConverter(TextCaseConverter {}));
    v.push(TextTool::Pattern(TextRegexTool {}));
    proof {
        assert(v@ =~= builtin_text_tools());
    }
    v
}

/// The plugin that bundles the built-in text tools, so a host can register
/// them in the registry like any other plugin. Its setup and cleanup always
/// succeed.
#[derive(Debug, Clone, PartialEq, Eq, Structural)]
pub struct TextToolsPlugin {}

impl Plugin<TextTool> for TextToolsPlugin {
    open spec fn spec_name(&self) -> Seq<char> {
        "text-tools"@
    }

    open spec fn spec_tools(&self) -> Seq<TextTool> {
        builtin_text_tools()
    }

    open spec fn spec_init_ok(&self) -> bool {
        true
    }

    open spec fn spec_cleanup_ok(&self) -> bool {
        true
    }

    fn name(&self) -> (r: String) {
        "text-tools".to_owned()
    }

    fn description(&self) -> String {
        "The built-in text processing tools".to_owned()
    }

    fn version(&self) -> String {
        "0.1.0".to_owned()
    }

    fn initialize(&mut self) -> (r: Result<(), ToolError>) {
        Ok(())
    }

    fn get_tools(&self) -> (r: Vec<TextTool>) {
        get_text_tools()
    }

    fn cleanup(&mut self) -> (r: Result<(), ToolError>) {
        Ok(())
    }
}

} // verus!
