use vstd::prelude::*;

verus! {

use vstd::string::StringExecFns;

/// The error taxonomy shared by every fallible operation of the toolbox
/// core. Each kind carries the note shown to the operator.
#[derive(Debug)]
pub enum ToolError {
    IoError(String),
    ParameterError(String),
    FormatError(String),
    NetworkError(String),
    ParseError(String),
    NotFoundError(String),
    PluginError(String),
    NotImplementedError(String),
    Other(String),
}

/// The full error text: the kind's label followed by the carried note.
pub open spec fn error_text(e: ToolError) -> Seq<char> {
    match e {
        ToolError::IoError(m) => "IO error: "@ + m@,
        ToolError::ParameterError(m) => "parameter error: "@ + m@,
        ToolError::FormatError(m) => "format error: "@ + m@,
        ToolError::NetworkError(m) => "network error: "@ + m@,
        ToolError::ParseError(m) => "parse error: "@ + m@,
        ToolError::NotFoundError(m) => "not found: "@ + m@,
        ToolError::PluginError(m) => "plugin error: "@ + m@,
        ToolError::NotImplementedError(m) => "not implemented: "@ + m@,
        ToolError::Other(m) => "error: "@ + m@,
    }
}

impl ToolError {
    /// Renders the error for the operator.
    pub fn message(&self) -> (r: String)
        ensures
            r@ == error_text(*self),
    {
        let (label, note): (&str, &String) = match self {
            ToolError::IoError(m) => ("IO error: ", m),
            ToolError::ParameterError(m) => ("parameter error: ", m),
            ToolError::FormatError(m) => ("format error: ", m),
            ToolError::NetworkError(m) => ("network error: ", m),
            ToolError::ParseError(m) => ("parse error: ", m),
            ToolError::NotFoundError(m) => ("not found: ", m),
            ToolError::PluginError(m) => ("plugin error: ", m),
            ToolError::NotImplementedError(m) => ("not implemented: ", m),
            ToolError::Other(m) => ("error: ", m),
        };
        let mut r = label.to_owned();
        r.append(note.as_str());
        r
    }
}

} // verus!
