use vstd::prelude::*;

use crate::error::ToolError;
use crate::file::{extension_of, file_name, file_name_of};
use crate::strings::{dec_chars, string_views, u64_to_string};
use crate::tool::{ToolCategory, ToolContext};

verus! {

use vstd::string::StrSliceExecFns;
use vstd::string::StringExecFns;
use vstd::utf8::encode_utf8;

/// The report the file-information tool renders for a file at `path` of
/// `size` bytes.
pub open spec fn info_note(path: Seq<char>, size: u64) -> Seq<char> {
    "Name: "@ + (match file_name_of(path) {
        Some(b) => b,
        None => "unknown"@,
    }) + "\nPath: "@ + path + "\nSize: "@ + dec_chars(size as nat) + " bytes\nExtension: "@ + (
    match extension_of(path) {
        Some(e) => e,
        None => "none"@,
    })
}

/// Reports the basic facts of one file: its name, path, size and
/// extension. Reading the file system is the host's part: it checks that
/// the path exists and measures the file, and this tool renders the
/// report.
#[derive(Debug, Clone, PartialEq, Eq, Structural)]
pub struct FileInfoTool {}

impl FileInfoTool {
    /// The name under which the tool is offered.
    pub fn name(&self) -> (r: String)
        ensures
            r@ == "FileInfoTool"@,
    {
        "FileInfoTool".to_owned()
    }

    /// A human-readable summary.
    pub fn description(&self) -> String {
        "Reports the basic information of a file".to_owned()
    }

    /// The category the tool is grouped under.
    pub fn category(&self) -> (r: ToolCategory)
        ensures
            r == ToolCategory::File,
    {
        ToolCategory::File
    }

    /// The parameters the tool expects.
    pub fn parameter_descriptions(&self) -> Vec<(String, String)> {
        let mut v: Vec<(String, String)> = Vec::new();
        v.push(("path".to_owned(), "path of the file to inspect".to_owned()));
        v
    }

    /// The required `path` parameter of an invocation.
    pub fn path_param(ctx: &ToolContext) -> (r: Result<String, ToolError>)
        ensures
            ctx.spec_param("path"@) is None ==> (r matches Err(ToolError::ParameterError(m)) && m@
                == "no file path provided"@),
            ctx.spec_param("path"@) matches Some(p) ==> (r matches Ok(s) && s@ == p),
    {
        match ctx.get_parameter("path") {
            None => Err(ToolError::ParameterError("no file path provided".to_owned())),
            Some(p) => Ok(p.clone()),
        }
    }

    /// The error reported when the path names no file.
    pub fn missing_file_error(path: &str) -> (r: ToolError)
        ensures
            r matches ToolError::NotFoundError(m) && m@ == "file not found: "@ + path@,
    {
        let mut m = "file not found: ".to_owned();
        m.append(path);
        ToolError::NotFoundError(m)
    }

    /// The report for an existing file at `path` of `size` bytes.
    pub fn info_report(path: &str, size: u64) -> (r: Vec<u8>)
        ensures
            r@ == encode_utf8(info_note(path@, size)),
    {
        let mut report = "Name: ".to_owned();
        match file_name(path) {
            Some(b) => report.append(b.as_str()),
            None => report.append("unknown"),
        }
        report.append("\nPath: ");
        report.append(path);
        report.append("\nSize: ");
        report.append(u64_to_string(size).as_str());
        report.append(" bytes\nExtension: ");
        match crate::file::file_extension(path) {
            Some(e) => report.append(e.as_str()),
            None => report.append("none"),
        }
        proof {
            assert(report@ == info_note(path@, size));
        }
        report.as_str().as_bytes_vec()
    }
}

/// One listing line for a subdirectory.
pub open spec fn dir_line(name: Seq<char>) -> Seq<char> {
    "  [DIR] "@ + name + "\n"@
}

/// The listing lines for the subdirectories, in order.
pub open spec fn dir_lines(names: Seq<Seq<char>>) -> Seq<char>
    decreases names.len(),
{
    if names.len() == 0 {
        Seq::empty()
    } else {
        dir_line(names[0]) + dir_lines(names.drop_first())
    }
}

/// One listing line for a file of a known or unknown size.
pub open spec fn file_line(entry: (Seq<char>, Option<u64>)) -> Seq<char> {
    "  "@ + entry.0 + " ("@ + (match entry.1 {
        Some(size) => dec_chars(size as nat) + " bytes"@,
        None => "unknown size"@,
    }) + ")\n"@
}

/// The listing lines for the files, in order.
pub open spec fn file_lines(entries: Seq<(Seq<char>, Option<u64>)>) -> Seq<char>
    decreases entries.len(),
{
    if entries.len() == 0 {
        Seq::empty()
    } else {
        file_line(entries[0]) + file_lines(entries.drop_first())
    }
}

/// The views of the file entries: each file's name with its size, when one
/// could be measured.
pub open spec fn entry_views(entries: Seq<(String, Option<u64>)>) -> Seq<(Seq<char>, Option<u64>)> {
    entries.map(|i: int, e: (String, Option<u64>)| (e.0@, e.1))
}

/// The report the file-browser tool renders for the directory `dir` with
/// the given subdirectories and files.
pub open spec fn browse_note(
    dir: Seq<char>,
    subdirs: Seq<Seq<char>>,
    files: Seq<(Seq<char>, Option<u64>)>,
) -> Seq<char> {
    "Directory: "@ + dir + "\n\nSubdirectories:\n"@ + (if subdirs.len() == 0 {
        "  (none)\n"@
    } else {
        dir_lines(subdirs)
    }) + "\nFiles:\n"@ + (if files.len() == 0 {
        "  (none)\n"@
    } else {
        file_lines(files)
    })
}

/// Lists the subdirectories and files of one directory. Reading the file
/// system is the host's part: it checks that the directory exists and
/// gathers the entries, and this tool renders the listing.
#[derive(Debug, Clone, PartialEq, Eq, Structural)]
pub struct FileBrowserTool {}

impl FileBrowserTool {
    /// The name under which the tool is offered.
    pub fn name(&self) -> (r: String)
        ensures
            r@ == "FileBrowserTool"@,
    {
        "FileBrowserTool".to_owned()
    }

    /// A human-readable summary.
    pub fn description(&self) -> String {
        "Lists the files and subdirectories of a directory".to_owned()
    }

    /// The category the tool is grouped under.
    pub fn category(&self) -> (r: ToolCategory)
        ensures
            r == ToolCategory::File,
    {
        ToolCategory::File
    }

    /// The parameters the tool expects.
    pub fn parameter_descriptions(&self) -> Vec<(String, String)> {
        let mut v: Vec<(String, String)> = Vec::new();
        v.push(("directory".to_owned(), "path of the directory to browse".to_owned()));
        v
    }

    /// The `directory` parameter of an invocation; the current directory
    /// when absent.
    pub fn directory_param(ctx: &ToolContext) -> (r: String)
        ensures
            r@ == ctx.spec_param_or("directory"@, "."@),
    {
        match ctx.get_parameter("directory") {
            None => ".".to_owned(),
            Some(p) => p.clone(),
        }
    }

    /// The error reported when the path names no directory.
    pub fn missing_directory_error(path: &str) -> (r: ToolError)
        ensures
            r matches ToolError::NotFoundError(m) && m@ == "directory not found: "@ + path@,
    {
        let mut m = "directory not found: ".to_owned();
        m.append(path);
        ToolError::NotFoundError(m)
    }

    /// The listing for the directory `dir`, its subdirectory names in
    /// `subdirs` and its files in `files`, each with its size when one
    /// could be measured.
    #[verifier::loop_isolation(false)]
    pub fn browse_report(dir: &str, subdirs: &Vec<String>, files: &Vec<(String, Option<u64>)>) -> (r:
        Vec<u8>)
        ensures
            r@ == encode_utf8(browse_note(dir@, string_views(subdirs@), entry_views(files@))),
    {
        let mut report = "Directory: ".to_owned();
        report.append(dir);
        report.append("\n\nSubdirectories:\n");
        let ghost sub_head = report@;
        if subdirs.len() == 0 {
            report.append("  (none)\n");
        } else {
            let n = subdirs.len();
            let mut i: usize = 0;
            proof {
                assert(string_views(subdirs@).skip(0) =~= string_views(subdirs@));
            }
            while i < n
                invariant
                    0 <= i <= n,
                    report@ + dir_lines(string_views(subdirs@).skip(i as int)) == sub_head
                        + dir_lines(string_views(subdirs@)),
                decreases n - i,
            {
                proof {
                    let views = string_views(subdirs@);
                    assert(views.skip(i as int)[0] == views[i as int]);
                    assert(views.skip(i as int).drop_first() =~= views.skip(i + 1));
                }
                report.append("  [DIR] ");
                report.append(subdirs[i].as_str());
                report.append("\n");
                i = i + 1;
            }
            proof {
                assert(string_views(subdirs@).skip(n as int) =~= Seq::<Seq<char>>::empty());
                assert(report@ + Seq::<char>::empty() =~= report@);
            }
        }
        report.append("\nFiles:\n");
        let ghost file_head = report@;
        if files.len() == 0 {
            report.append("  (none)\n");
        } else {
            let n = files.len();
            let mut i: usize = 0;
            proof {
                assert(entry_views(files@).skip(0) =~= entry_views(files@));
            }
            while i < n
                invariant
                    0 <= i <= n,
                    report@ + file_lines(entry_views(files@).skip(i as int)) == file_head
                        + file_lines(entry_views(files@)),
                decreases n - i,
            {
                proof {
                    let views = entry_views(files@);
                    assert(views.skip(i as int)[0] == views[i as int]);
                    assert(views.skip(i as int).drop_first() =~= views.skip(i + 1));
                }
                report.append("  ");
                report.append(files[i].0.as_str());
                report.append(" (");
                match files[i].1 {
                    Some(size) => {
                        report.append(u64_to_string(size).as_str());
                        report.append(" bytes");
                    },
                    None => {
                        report.append("unknown size");
                    },
                }
                report.append(")\n");
                i = i + 1;
            }
            proof {
                assert(entry_views(files@).skip(n as int) =~= Seq::<(Seq<char>, Option<u64>)>::empty());
                assert(report@ + Seq::<char>::empty() =~= report@);
            }
        }
        proof {
            assert(report@ == browse_note(dir@, string_views(subdirs@), entry_views(files@)));
        }
        report.as_str().as_bytes_vec()
    }
}

/// One of the built-in file tools: their reading of the file system is the
/// host's part, so they are offered beside the registerable tools rather
/// than through the `Tool` contract.
#[derive(Debug, Clone, PartialEq, Eq, Structural)]
pub enum FileTool {
    Info(FileInfoTool),
    Browser(FileBrowserTool),
}

impl FileTool {
    /// The name under which the tool is offered.
    pub fn name(&self) -> (r: String)
        ensures
            self is Info ==> r@ == "FileInfoTool"@,
            self is Browser ==> r@ == "FileBrowserTool"@,
    {
        match self {
            FileTool::Info(t) => t.name(),
            FileTool::Browser(t) => t.name(),
        }
    }

    /// A human-readable summary.
    pub fn description(&self) -> String {
        match self {
            FileTool::Info(t) => t.description(),
            FileTool::Browser(t) => t.description(),
        }
    }

    /// The category the tool is grouped under.
    pub fn category(&self) -> (r: ToolCategory)
        ensures
            r == ToolCategory::File,
    {
        match self {
            FileTool::Info(t) => t.category(),
            FileTool::Browser(t) => t.category(),
        }
    }

    /// The parameters the tool expects.
    pub fn parameter_descriptions(&self) -> Vec<(String, String)> {
        match self {
            FileTool::Info(t) => t.parameter_descriptions(),
            FileTool::Browser(t) => t.parameter_descriptions(),
        }
    }
}

/// All built-in file tools.
pub fn get_file_tools() -> (r: Vec<FileTool>)
    ensures
        r@ == seq![FileTool::Info(FileInfoTool {}), FileTool::Browser(FileBrowserTool {})],
{
    let mut v: Vec<FileTool> = Vec::new();
    v.push(FileTool::Info(FileInfoTool {}));
    v.push(FileTool::Browser(FileBrowserTool {}));
    proof {
        assert(v@ =~= seq![FileTool::Info(FileInfoTool {}), FileTool::Browser(FileBrowserTool {})]);
    }
    v
}

} // verus!
