//! The typed tool commands, the dispatcher that turns an untyped argument
//! bag into one, and the fixed tool catalog advertised to the model.

use vstd::prelude::*;
use crate::args::Args;
use crate::text::str_eq;

verus! {

/// The kinds of tool the engine knows.
#[derive(Clone, Copy, PartialEq, Eq, Structural, Debug)]
pub enum ToolType {
    View,
    GlobTool,
    GrepTool,
    LS,
    Edit,
    Replace,
    Bash,
    ParseCode,
}

/// Parameters of the file-reading tool.
#[derive(Debug)]
pub struct ViewParams {
    pub file_path: String,
    pub offset: Option<u64>,
    pub limit: Option<u64>,
}

/// Parameters of the file-name pattern search.
#[derive(Debug)]
pub struct GlobToolParams {
    pub pattern: String,
    pub path: Option<String>,
}

/// Parameters of the content search.
#[derive(Debug)]
pub struct GrepToolParams {
    pub pattern: String,
    pub file_filter: Option<String>,
    pub path: Option<String>,
}

/// Parameters of the directory listing.
#[derive(Debug)]
pub struct LSParams {
    pub path: String,
    pub ignore: Option<Vec<String>>,
}

/// Parameters of the string-replacement edit.
#[derive(Debug)]
pub struct EditParams {
    pub file_path: String,
    pub old_string: String,
    pub new_string: String,
    pub expected_replacements: Option<u64>,
}

/// Parameters of the whole-file write.
#[derive(Debug)]
pub struct ReplaceParams {
    pub file_path: String,
    pub content: String,
}

/// Parameters of the shell command.
#[derive(Debug)]
pub struct BashParams {
    pub command: String,
    pub timeout: Option<u64>,
}

/// Parameters of the code-structure analysis.
#[derive(Debug)]
pub struct ParseCodeParams {
    pub root_dir: String,
    pub query: String,
    pub max_file_size: Option<u64>,
    pub max_files: Option<u64>,
    pub max_depth: Option<u64>,
}

/// A typed tool command, constructed only by validated parsing of an
/// untyped tool-call request.
#[derive(Debug)]
pub enum ToolCall {
    View(ViewParams),
    GlobTool(GlobToolParams),
    GrepTool(GrepToolParams),
    LS(LSParams),
    Edit(EditParams),
    Replace(ReplaceParams),
    Bash(BashParams),
    ParseCode(ParseCodeParams),
}

impl ToolCall {
    /// The kind of tool this command invokes.
    pub fn tool_type(&self) -> (t: ToolType)
        ensures
            t == self.spec_tool_type(),
    {
        match self {
            ToolCall::View(_) => ToolType::View,
            ToolCall::GlobTool(_) => ToolType::GlobTool,
            ToolCall::GrepTool(_) => ToolType::GrepTool,
            ToolCall::LS(_) => ToolType::LS,
            ToolCall::Edit(_) => ToolType::Edit,
            ToolCall::Replace(_) => ToolType::Replace,
            ToolCall::Bash(_) => ToolType::Bash,
            ToolCall::ParseCode(_) => ToolType::ParseCode,
        }
    }

    pub open spec fn spec_tool_type(&self) -> ToolType {
        match self {
            ToolCall::View(_) => ToolType::View,
            ToolCall::GlobTool(_) => ToolType::GlobTool,
            ToolCall::GrepTool(_) => ToolType::GrepTool,
            ToolCall::LS(_) => ToolType::LS,
            ToolCall::Edit(_) => ToolType::Edit,
            ToolCall::Replace(_) => ToolType::Replace,
            ToolCall::Bash(_) => ToolType::Bash,
            ToolCall::ParseCode(_) => ToolType::ParseCode,
        }
    }
}

/// Why an untyped tool call could not become a typed command.
#[derive(Debug)]
pub enum ParseError {
    /// The tool name is not in the catalog.
    UnknownTool { name: String },
    /// A required field is missing, or a field has the wrong type.
    BadField { tool: String, field: String },
}

impl ParseError {
    /// What the error message says.
    pub open spec fn spec_message(&self) -> Seq<char> {
        match self {
            ParseError::UnknownTool { name } => "Unknown tool: "@ + name@,
            ParseError::BadField { tool, field } => "Failed to parse "@ + tool@
                + " parameters: missing or invalid field '"@ + field@ + "'"@,
        }
    }

    /// A readable description of the error.
    pub fn message(&self) -> (r: String)
        ensures
            r@ == self.spec_message(),
    {
        match self {
            ParseError::UnknownTool { name } => {
                let mut r = "Unknown tool: ".to_owned();
                r.append(name.as_str());
                r
            },
            ParseError::BadField { tool, field } => {
                let mut r = "Failed to parse ".to_owned();
                r.append(tool.as_str());
                r.append(" parameters: missing or invalid field '");
                r.append(field.as_str());
                r.append("'");
                r
            },
        }
    }
}

/// `e` reports a bad field `field` of tool `tool`.
pub open spec fn is_bad_field(e: ParseError, tool: Seq<char>, field: Seq<char>) -> bool {
    &&& e matches ParseError::BadField { tool: t, field: f }
    &&& t@ == tool
    &&& f@ == field
}

/// A required text field of the bag, or the error naming it.
fn req_text(args: &Args, tool: &str, field: &str) -> (r: Result<String, ParseError>)
    ensures
        match r {
            Ok(s) => args.text_arg(field@) == Some(s@),
            Err(e) => args.text_arg(field@) is None && is_bad_field(e, tool@, field@),
        },
{
    match args.get(field) {
        Some(crate::args::ArgValue::Text(s)) => Ok(s.clone()),
        _ => Err(ParseError::BadField { tool: tool.to_owned(), field: field.to_owned() }),
    }
}

/// An optional integer field of the bag: absent is fine, a non-integer
/// value is the error naming it.
fn opt_int(args: &Args, tool: &str, field: &str) -> (r: Result<Option<u64>, ParseError>)
    ensures
        match r {
            Ok(v) => v == args.int_arg(field@) && (args.has_arg(field@) ==> v is Some),
            Err(e) => args.has_arg(field@) && args.int_arg(field@) is None && is_bad_field(
                e,
                tool@,
                field@,
            ),
        },
{
    match args.get(field) {
        None => Ok(None),
        Some(crate::args::ArgValue::Int(n)) => Ok(Some(*n)),
        Some(_) => Err(ParseError::BadField { tool: tool.to_owned(), field: field.to_owned() }),
    }
}

/// An optional text field of the bag.
fn opt_text(args: &Args, tool: &str, field: &str) -> (r: Result<Option<String>, ParseError>)
    ensures
        match r {
            Ok(v) => v.deep_view() == args.text_arg(field@) && (args.has_arg(field@) ==> v
                is Some),
            Err(e) => args.has_arg(field@) && args.text_arg(field@) is None && is_bad_field(
                e,
                tool@,
                field@,
            ),
        },
{
    match args.get(field) {
        None => Ok(None),
        Some(crate::args::ArgValue::Text(s)) => Ok(Some(s.clone())),
        Some(_) => Err(ParseError::BadField { tool: tool.to_owned(), field: field.to_owned() }),
    }
}

/// An optional text-list field of the bag.
fn opt_list(args: &Args, tool: &str, field: &str) -> (r: Result<Option<Vec<String>>, ParseError>)
    ensures
        match r {
            Ok(v) => v.deep_view() == args.list_arg(field@) && (args.has_arg(field@) ==> v
                is Some),
            Err(e) => args.has_arg(field@) && args.list_arg(field@) is None && is_bad_field(
                e,
                tool@,
                field@,
            ),
        },
{
    match args.get(field) {
        None => Ok(None),
        Some(crate::args::ArgValue::List(v)) => {
            let mut copy: Vec<String> = Vec::new();
            let n = v.len();
            let mut i: usize = 0;
            while i < n
                invariant
                    n == v@.len(),
                    i <= n,
                    copy@ == v@.subrange(0, i as int),
                decreases n - i,
            {
                copy.push(v[i].clone());
                assert(copy@ =~= v@.subrange(0, i + 1));
                i += 1;
            }
            assert(copy@ =~= v@);
            Ok(Some(copy))
        },
        Some(_) => Err(ParseError::BadField { tool: tool.to_owned(), field: field.to_owned() }),
    }
}

/// An optional field under `key` is absent or an integer.
pub open spec fn opt_int_ok(args: &Args, key: Seq<char>) -> bool {
    args.has_arg(key) ==> args.int_arg(key) is Some
}

/// An optional field under `key` is absent or a text.
pub open spec fn opt_text_ok(args: &Args, key: Seq<char>) -> bool {
    args.has_arg(key) ==> args.text_arg(key) is Some
}

/// An optional field under `key` is absent or a text list.
pub open spec fn opt_list_ok(args: &Args, key: Seq<char>) -> bool {
    args.has_arg(key) ==> args.list_arg(key) is Some
}

/// What parsing a `Read` call yields: the typed command on well-typed
/// fields, and otherwise the error naming the first offending field.
pub open spec fn spec_read_result(args: &Args, r: Result<ToolCall, ParseError>) -> bool {
    if args.text_arg("file_path"@) is None {
        r matches Err(e) && is_bad_field(e, "Read"@, "file_path"@)
    } else if !opt_int_ok(args, "offset"@) {
        r matches Err(e) && is_bad_field(e, "Read"@, "offset"@)
    } else if !opt_int_ok(args, "limit"@) {
        r matches Err(e) && is_bad_field(e, "Read"@, "limit"@)
    } else {
        r matches Ok(ToolCall::View(p)) && p.file_path@ == args.text_arg("file_path"@)->0
            && p.offset == args.int_arg("offset"@) && p.limit == args.int_arg("limit"@)
    }
}

/// What parsing a `Glob` call yields.
pub open spec fn spec_glob_result(args: &Args, r: Result<ToolCall, ParseError>) -> bool {
    if args.text_arg("pattern"@) is None {
        r matches Err(e) && is_bad_field(e, "Glob"@, "pattern"@)
    } else if !opt_text_ok(args, "path"@) {
        r matches Err(e) && is_bad_field(e, "Glob"@, "path"@)
    } else {
        r matches Ok(ToolCall::GlobTool(p)) && p.pattern@ == args.text_arg("pattern"@)->0
            && p.path.deep_view() == args.text_arg("path"@)
    }
}

/// What parsing a `Grep` call yields.
pub open spec fn spec_grep_result(args: &Args, r: Result<ToolCall, ParseError>) -> bool {
    if args.text_arg("pattern"@) is None {
        r matches Err(e) && is_bad_field(e, "Grep"@, "pattern"@)
    } else if !opt_text_ok(args, "file_filter"@) {
        r matches Err(e) && is_bad_field(e, "Grep"@, "file_filter"@)
    } else if !opt_text_ok(args, "path"@) {
        r matches Err(e) && is_bad_field(e, "Grep"@, "path"@)
    } else {
        r matches Ok(ToolCall::GrepTool(p)) && p.pattern@ == args.text_arg("pattern"@)->0
            && p.file_filter.deep_view() == args.text_arg("file_filter"@) && p.path.deep_view()
            == args.text_arg("path"@)
    }
}

/// What parsing an `LS` call yields.
pub open spec fn spec_ls_result(args: &Args, r: Result<ToolCall, ParseError>) -> bool {
    if args.text_arg("path"@) is None {
        r matches Err(e) && is_bad_field(e, "LS"@, "path"@)
    } else if !opt_list_ok(args, "ignore"@) {
        r matches Err(e) && is_bad_field(e, "LS"@, "ignore"@)
    } else {
        r matches Ok(ToolCall::LS(p)) && p.path@ == args.text_arg("path"@)->0
            && p.ignore.deep_view() == args.list_arg("ignore"@)
    }
}

/// What parsing an `Edit` call yields.
pub open spec fn spec_edit_result(args: &Args, r: Result<ToolCall, ParseError>) -> bool {
    if args.text_arg("file_path"@) is None {
        r matches Err(e) && is_bad_field(e, "Edit"@, "file_path"@)
    } else if args.text_arg("old_string"@) is None {
        r matches Err(e) && is_bad_field(e, "Edit"@, "old_string"@)
    } else if args.text_arg("new_string"@) is None {
        r matches Err(e) && is_bad_field(e, "Edit"@, "new_string"@)
    } else if !opt_int_ok(args, "expected_replacements"@) {
        r matches Err(e) && is_bad_field(e, "Edit"@, "expected_replacements"@)
    } else {
        r matches Ok(ToolCall::Edit(p)) && p.file_path@ == args.text_arg("file_path"@)->0
            && p.old_string@ == args.text_arg("old_string"@)->0 && p.new_string@ == args.text_arg(
            "new_string"@,
        )->0 && p.expected_replacements == args.int_arg("expected_replacements"@)
    }
}

/// What parsing a `Write` call yields.
pub open spec fn spec_write_result(args: &Args, r: Result<ToolCall, ParseError>) -> bool {
    if args.text_arg("file_path"@) is None {
        r matches Err(e) && is_bad_field(e, "Write"@, "file_path"@)
    } else if args.text_arg("content"@) is None {
        r matches Err(e) && is_bad_field(e, "Write"@, "content"@)
    } else {
        r matches Ok(ToolCall::Replace(p)) && p.file_path@ == args.text_arg("file_path"@)->0
            && p.content@ == args.text_arg("content"@)->0
    }
}

/// What parsing a `Bash` call yields.
pub open spec fn spec_bash_result(args: &Args, r: Result<ToolCall, ParseError>) -> bool {
    if args.text_arg("command"@) is None {
        r matches Err(e) && is_bad_field(e, "Bash"@, "command"@)
    } else if !opt_int_ok(args, "timeout"@) {
        r matches Err(e) && is_bad_field(e, "Bash"@, "timeout"@)
    } else {
        r matches Ok(ToolCall::Bash(p)) && p.command@ == args.text_arg("command"@)->0 && p.timeout
            == args.int_arg("timeout"@)
    }
}

/// What the dispatcher yields for a tool `name` and argument bag: a typed
/// command exactly when the bag is well-typed for that tool, the error
/// naming the first bad field when it is not, and the unknown-tool error for
/// a name outside the catalog.
pub open spec fn spec_parse_result(
    name: Seq<char>,
    args: &Args,
    r: Result<ToolCall, ParseError>,
) -> bool {
    if name == "Read"@ {
        spec_read_result(args, r)
    } else if name == "Glob"@ {
        spec_glob_result(args, r)
    } else if name == "Grep"@ {
        spec_grep_result(args, r)
    } else if name == "LS"@ {
        spec_ls_result(args, r)
    } else if name == "Edit"@ {
        spec_edit_result(args, r)
    } else if name == "Write"@ {
        spec_write_result(args, r)
    } else if name == "Bash"@ {
        spec_bash_result(args, r)
    } else {
        r matches Err(ParseError::UnknownTool { name: n }) && n@ == name
    }
}

/// Turn a tool name and untyped argument bag into a typed command. This is
/// the single point where untrusted model output becomes a `ToolCall`;
/// parsing fails closed on a missing or mistyped field.
pub fn parse_tool_call(name: &str, args: &Args) -> (r: Result<ToolCall, ParseError>)
    ensures
        spec_parse_result(name@, args, r),
        r is Err <==> !spec_parse_ok(name@, args),
{
    if str_eq(name, "Read") {
        let file_path = match req_text(args, "Read", "file_path") {
            Ok(v) => v,
            Err(e) => {
                return Err(e);
            },
        };
        let offset = match opt_int(args, "Read", "offset") {
            Ok(v) => v,
            Err(e) => {
                return Err(e);
            },
        };
        let limit = match opt_int(args, "Read", "limit") {
            Ok(v) => v,
            Err(e) => {
                return Err(e);
            },
        };
        Ok(ToolCall::View(ViewParams { file_path, offset, limit }))
    } else if str_eq(name, "Glob") {
        let pattern = match req_text(args, "Glob", "pattern") {
            Ok(v) => v,
            Err(e) => {
                return Err(e);
            },
        };
        let path = match opt_text(args, "Glob", "path") {
            Ok(v) => v,
            Err(e) => {
                return Err(e);
            },
        };
        Ok(ToolCall::GlobTool(GlobToolParams { pattern, path }))
    } else if str_eq(name, "Grep") {
        let pattern = match req_text(args, "Grep", "pattern") {
            Ok(v) => v,
            Err(e) => {
                return Err(e);
            },
        };
        let file_filter = match opt_text(args, "Grep", "file_filter") {
            Ok(v) => v,
            Err(e) => {
                return Err(e);
            },
        };
        let path = match opt_text(args, "Grep", "path") {
            Ok(v) => v,
            Err(e) => {
                return Err(e);
            },
        };
        Ok(ToolCall::GrepTool(GrepToolParams { pattern, file_filter, path }))
    } else if str_eq(name, "LS") {
        let path = match req_text(args, "LS", "path") {
            Ok(v) => v,
            Err(e) => {
                return Err(e);
            },
        };
        let ignore = match opt_list(args, "LS", "ignore") {
            Ok(v) => v,
            Err(e) => {
                return Err(e);
            },
        };
        Ok(ToolCall::LS(LSParams { path, ignore }))
    } else if str_eq(name, "Edit") {
        let file_path = match req_text(args, "Edit", "file_path") {
            Ok(v) => v,
            Err(e) => {
                return Err(e);
            },
        };
        let old_string = match req_text(args, "Edit", "old_string") {
            Ok(v) => v,
            Err(e) => {
                return Err(e);
            },
        };
        let new_string = match req_text(args, "Edit", "new_string") {
            Ok(v) => v,
            Err(e) => {
                return Err(e);
            },
        };
        let expected_replacements = match opt_int(args, "Edit", "expected_replacements") {
            Ok(v) => v,
            Err(e) => {
                return Err(e);
            },
        };
        Ok(ToolCall::Edit(EditParams { file_path, old_string, new_string, expected_replacements }))
    } else if str_eq(name, "Write") {
        let file_path = match req_text(args, "Write", "file_path") {
            Ok(v) => v,
            Err(e) => {
                return Err(e);
            },
        };
        let content = match req_text(args, "Write", "content") {
            Ok(v) => v,
            Err(e) => {
                return Err(e);
            },
        };
        Ok(ToolCall::Replace(ReplaceParams { file_path, content }))
    } else if str_eq(name, "Bash") {
        let command = match req_text(args, "Bash", "command") {
            Ok(v) => v,
            Err(e) => {
                return Err(e);
            },
        };
        let timeout = match opt_int(args, "Bash", "timeout") {
            Ok(v) => v,
            Err(e) => {
                return Err(e);
            },
        };
        Ok(ToolCall::Bash(BashParams { command, timeout }))
    } else {
        Err(ParseError::UnknownTool { name: name.to_owned() })
    }
}

/// One advertised tool: name, description, and the JSON schema of its
/// parameters as text.
#[derive(Debug)]
pub struct ToolDefinition {
    pub name: String,
    pub description: String,
    pub parameters: String,
}

impl Clone for ToolDefinition {
    fn clone(&self) -> (r: Self)
        ensures
            r == *self,
    {
        ToolDefinition {
            name: self.name.clone(),
            description: self.description.clone(),
            parameters: self.parameters.clone(),
        }
    }
}

fn tool_definition(name: &str, description: &str, parameters: &str) -> (r: ToolDefinition)
    ensures
        r.name@ == name@,
        r.description@ == description@,
        r.parameters@ == parameters@,
{
    ToolDefinition {
        name: name.to_owned(),
        description: description.to_owned(),
        parameters: parameters.to_owned(),
    }
}

/// The advertised catalog, pinned field by field: the eight tools, in
/// order, each with its exact name, description and JSON-schema
/// parameter text. Prompt-tuned models rely on this surface staying
/// stable, so every field is part of the contract.
pub open spec fn spec_is_catalog(defs: Seq<ToolDefinition>) -> bool {
    &&& defs.len() == 8
    &&& defs[0].name@ == "Read"@
    &&& defs[0].description@ == "Reads a file from the local filesystem. The file_path must be an absolute path."@
    &&& defs[0].parameters@ == "{\"type\":\"object\",\"properties\":{\"file_path\":{\"type\":\"string\",\"description\":\"The absolute path to the file to read\"},\"offset\":{\"type\":\"integer\",\"description\":\"The line number to start reading from (optional)\"},\"limit\":{\"type\":\"integer\",\"description\":\"The number of lines to read (optional)\"}},\"required\":[\"file_path\"]}"@
    &&& defs[1].name@ == "Glob"@
    &&& defs[1].description@ == "Fast file pattern matching tool using glob patterns like '**/*.rs'"@
    &&& defs[1].parameters@ == "{\"type\":\"object\",\"properties\":{\"pattern\":{\"type\":\"string\",\"description\":\"The glob pattern to match files against\"},\"path\":{\"type\":\"string\",\"description\":\"The directory to search in (optional)\"}},\"required\":[\"pattern\"]}"@
    &&& defs[2].name@ == "Grep"@
    &&& defs[2].description@ == "Fast content search tool using regular expressions"@
    &&& defs[2].parameters@ == "{\"type\":\"object\",\"properties\":{\"pattern\":{\"type\":\"string\",\"description\":\"The regular expression pattern to search for in file contents\"},\"file_filter\":{\"type\":\"string\",\"description\":\"File pattern to restrict the search (e.g. \\\"*.rs\\\")\"},\"path\":{\"type\":\"string\",\"description\":\"The directory to search in (optional)\"}},\"required\":[\"pattern\"]}"@
    &&& defs[3].name@ == "LS"@
    &&& defs[3].description@ == "Lists files and directories in a given path"@
    &&& defs[3].parameters@ == "{\"type\":\"object\",\"properties\":{\"path\":{\"type\":\"string\",\"description\":\"The absolute path to the directory to list\"},\"ignore\":{\"type\":\"array\",\"items\":{\"type\":\"string\"},\"description\":\"List of glob patterns to ignore (optional)\"}},\"required\":[\"path\"]}"@
    &&& defs[4].name@ == "Edit"@
    &&& defs[4].description@ == "Edits a file by replacing one string with another"@
    &&& defs[4].parameters@ == "{\"type\":\"object\",\"properties\":{\"file_path\":{\"type\":\"string\",\"description\":\"The absolute path to the file to modify\"},\"old_string\":{\"type\":\"string\",\"description\":\"The text to replace (must be unique within the file unless expected_replacements is given)\"},\"new_string\":{\"type\":\"string\",\"description\":\"The text to replace it with\"},\"expected_replacements\":{\"type\":\"integer\",\"description\":\"The exact number of occurrences to replace (optional)\"}},\"required\":[\"file_path\",\"old_string\",\"new_string\"]}"@
    &&& defs[5].name@ == "Write"@
    &&& defs[5].description@ == "Completely replaces a file with new content"@
    &&& defs[5].parameters@ == "{\"type\":\"object\",\"properties\":{\"file_path\":{\"type\":\"string\",\"description\":\"The absolute path to the file to write\"},\"content\":{\"type\":\"string\",\"description\":\"The content to write to the file\"}},\"required\":[\"file_path\",\"content\"]}"@
    &&& defs[6].name@ == "Bash"@
    &&& defs[6].description@ == "Executes a bash command"@
    &&& defs[6].parameters@ == "{\"type\":\"object\",\"properties\":{\"command\":{\"type\":\"string\",\"description\":\"The command to execute\"},\"timeout\":{\"type\":\"integer\",\"description\":\"Optional timeout in milliseconds (max 600000)\"}},\"required\":[\"command\"]}"@
    &&& defs[7].name@ == "ParseCode"@
    &&& defs[7].description@ == "Parses files or codebases to generate a structural overview of the source code"@
    &&& defs[7].parameters@ == "{\"type\":\"object\",\"properties\":{\"root_dir\":{\"type\":\"string\",\"description\":\"The root directory or file to parse\"},\"query\":{\"type\":\"string\",\"description\":\"A natural language query that says what to parse\"},\"max_file_size\":{\"type\":\"integer\",\"description\":\"Maximum file size to parse in bytes (optional)\"},\"max_files\":{\"type\":\"integer\",\"description\":\"Maximum number of files to parse (optional)\"},\"max_depth\":{\"type\":\"integer\",\"description\":\"Maximum recursion depth (optional)\"}},\"required\":[\"root_dir\",\"query\"]}"@
}

/// The fixed catalog of tools advertised to the model. Its names, order,
/// descriptions and parameter schemas are part of the contract with
/// prompt-tuned model behaviour and stay stable.
pub fn get_tool_definitions() -> (r: Vec<ToolDefinition>)
    ensures
        spec_is_catalog(r@),
        r@.len() == 8,
{
    let mut defs: Vec<ToolDefinition> = Vec::new();
    defs.push(
        tool_definition(
            "Read",
            "Reads a file from the local filesystem. The file_path must be an absolute path.",
            "{\"type\":\"object\",\"properties\":{\"file_path\":{\"type\":\"string\",\"description\":\"The absolute path to the file to read\"},\"offset\":{\"type\":\"integer\",\"description\":\"The line number to start reading from (optional)\"},\"limit\":{\"type\":\"integer\",\"description\":\"The number of lines to read (optional)\"}},\"required\":[\"file_path\"]}",
        ),
    );
    defs.push(
        tool_definition(
            "Glob",
            "Fast file pattern matching tool using glob patterns like '**/*.rs'",
            "{\"type\":\"object\",\"properties\":{\"pattern\":{\"type\":\"string\",\"description\":\"The glob pattern to match files against\"},\"path\":{\"type\":\"string\",\"description\":\"The directory to search in (optional)\"}},\"required\":[\"pattern\"]}",
        ),
    );
    defs.push(
        tool_definition(
            "Grep",
            "Fast content search tool using regular expressions",
            "{\"type\":\"object\",\"properties\":{\"pattern\":{\"type\":\"string\",\"description\":\"The regular expression pattern to search for in file contents\"},\"file_filter\":{\"type\":\"string\",\"description\":\"File pattern to restrict the search (e.g. \\\"*.rs\\\")\"},\"path\":{\"type\":\"string\",\"description\":\"The directory to search in (optional)\"}},\"required\":[\"pattern\"]}",
        ),
    );
    defs.push(
        tool_definition(
            "LS",
            "Lists files and directories in a given path",
            "{\"type\":\"object\",\"properties\":{\"path\":{\"type\":\"string\",\"description\":\"The absolute path to the directory to list\"},\"ignore\":{\"type\":\"array\",\"items\":{\"type\":\"string\"},\"description\":\"List of glob patterns to ignore (optional)\"}},\"required\":[\"path\"]}",
        ),
    );
    defs.push(
        tool_definition(
            "Edit",
            "Edits a file by replacing one string with another",
            "{\"type\":\"object\",\"properties\":{\"file_path\":{\"type\":\"string\",\"description\":\"The absolute path to the file to modify\"},\"old_string\":{\"type\":\"string\",\"description\":\"The text to replace (must be unique within the file unless expected_replacements is given)\"},\"new_string\":{\"type\":\"string\",\"description\":\"The text to replace it with\"},\"expected_replacements\":{\"type\":\"integer\",\"description\":\"The exact number of occurrences to replace (optional)\"}},\"required\":[\"file_path\",\"old_string\",\"new_string\"]}",
        ),
    );
    defs.push(
        tool_definition(
            "Write",
            "Completely replaces a file with new content",
            "{\"type\":\"object\",\"properties\":{\"file_path\":{\"type\":\"string\",\"description\":\"The absolute path to the file to write\"},\"content\":{\"type\":\"string\",\"description\":\"The content to write to the file\"}},\"required\":[\"file_path\",\"content\"]}",
        ),
    );
    defs.push(
        tool_definition(
            "Bash",
            "Executes a bash command",
            "{\"type\":\"object\",\"properties\":{\"command\":{\"type\":\"string\",\"description\":\"The command to execute\"},\"timeout\":{\"type\":\"integer\",\"description\":\"Optional timeout in milliseconds (max 600000)\"}},\"required\":[\"command\"]}",
        ),
    );
    defs.push(
        tool_definition(
            "ParseCode",
            "Parses files or codebases to generate a structural overview of the source code",
            "{\"type\":\"object\",\"properties\":{\"root_dir\":{\"type\":\"string\",\"description\":\"The root directory or file to parse\"},\"query\":{\"type\":\"string\",\"description\":\"A natural language query that says what to parse\"},\"max_file_size\":{\"type\":\"integer\",\"description\":\"Maximum file size to parse in bytes (optional)\"},\"max_files\":{\"type\":\"integer\",\"description\":\"Maximum number of files to parse (optional)\"},\"max_depth\":{\"type\":\"integer\",\"description\":\"Maximum recursion depth (optional)\"}},\"required\":[\"root_dir\",\"query\"]}",
        ),
    );
    defs
}

/// The bag is well-typed for the tool named `name`.
pub open spec fn spec_parse_ok(name: Seq<char>, args: &Args) -> bool {
    if name == "Read"@ {
        args.text_arg("file_path"@) is Some && opt_int_ok(args, "offset"@) && opt_int_ok(
            args,
            "limit"@,
        )
    } else if name == "Glob"@ {
        args.text_arg("pattern"@) is Some && opt_text_ok(args, "path"@)
    } else if name == "Grep"@ {
        args.text_arg("pattern"@) is Some && opt_text_ok(args, "file_filter"@) && opt_text_ok(
            args,
            "path"@,
        )
    } else if name == "LS"@ {
        args.text_arg("path"@) is Some && opt_list_ok(args, "ignore"@)
    } else if name == "Edit"@ {
        args.text_arg("file_path"@) is Some && args.text_arg("old_string"@) is Some
            && args.text_arg("new_string"@) is Some && opt_int_ok(args, "expected_replacements"@)
    } else if name == "Write"@ {
        args.text_arg("file_path"@) is Some && args.text_arg("content"@) is Some
    } else if name == "Bash"@ {
        args.text_arg("command"@) is Some && opt_int_ok(args, "timeout"@)
    } else {
        false
    }
}

} // verus!

