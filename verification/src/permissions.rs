//! The permission boundary: which tools need an external grant before they
//! commit, and the record surfaced to the permission collaborator.

use vstd::prelude::*;
use crate::text::str_eq;
use crate::tools::ToolCall;

verus! {

/// How a permission request stands.
#[derive(Clone, Copy, PartialEq, Eq, Structural, Debug)]
pub enum ToolPermissionStatus {
    Pending,
    Granted,
    Denied,
}

/// What is surfaced to the permission collaborator before a destructive
/// command commits.
#[derive(Debug)]
pub struct PendingToolExecution {
    pub tool_name: String,
    pub description: String,
    pub diff_preview: Option<String>,
}

/// The tool names whose commands mutate files or run shell commands, and
/// so need permission before they commit: the catalog's Edit, Write and
/// Bash, and the older aliases of the write and notebook tools.
pub open spec fn spec_requires_permission(name: Seq<char>) -> bool {
    name == "Edit"@ || name == "Write"@ || name == "Replace"@ || name == "NotebookEditCell"@
        || name == "Bash"@
}

/// Whether the tool named `name` needs permission before executing.
pub fn requires_permission(name: &str) -> (b: bool)
    ensures
        b == spec_requires_permission(name@),
{
    str_eq(name, "Edit") || str_eq(name, "Write") || str_eq(name, "Replace") || str_eq(
        name,
        "NotebookEditCell",
    ) || str_eq(name, "Bash")
}

/// The human-readable description of what a command will do.
pub open spec fn spec_describe_command(cmd: &ToolCall) -> Seq<char> {
    match cmd {
        ToolCall::Edit(p) => "Modify file '"@ + p.file_path@ + "'"@,
        ToolCall::Replace(p) => "Overwrite file '"@ + p.file_path@ + "'"@,
        ToolCall::Bash(p) => "Execute command: '"@ + p.command@ + "'"@,
        ToolCall::View(p) => "Read file '"@ + p.file_path@ + "'"@,
        ToolCall::GlobTool(p) => "Find files matching '"@ + p.pattern@ + "'"@,
        ToolCall::GrepTool(p) => "Search file contents for '"@ + p.pattern@ + "'"@,
        ToolCall::LS(p) => "List directory '"@ + p.path@ + "'"@,
        ToolCall::ParseCode(p) => "Parse code under '"@ + p.root_dir@ + "'"@,
    }
}

/// Describe what a command will do, for permission review.
pub fn describe_command(cmd: &ToolCall) -> (r: String)
    ensures
        r@ == spec_describe_command(cmd),
{
    let mut r: String;
    match cmd {
        ToolCall::Edit(p) => {
            r = "Modify file '".to_owned();
            r.append(p.file_path.as_str());
        },
        ToolCall::Replace(p) => {
            r = "Overwrite file '".to_owned();
            r.append(p.file_path.as_str());
        },
        ToolCall::Bash(p) => {
            r = "Execute command: '".to_owned();
            r.append(p.command.as_str());
        },
        ToolCall::View(p) => {
            r = "Read file '".to_owned();
            r.append(p.file_path.as_str());
        },
        ToolCall::GlobTool(p) => {
            r = "Find files matching '".to_owned();
            r.append(p.pattern.as_str());
        },
        ToolCall::GrepTool(p) => {
            r = "Search file contents for '".to_owned();
            r.append(p.pattern.as_str());
        },
        ToolCall::LS(p) => {
            r = "List directory '".to_owned();
            r.append(p.path.as_str());
        },
        ToolCall::ParseCode(p) => {
            r = "Parse code under '".to_owned();
            r.append(p.root_dir.as_str());
        },
    }
    r.append("'");
    r
}

/// The tool name a command stands under in the catalog.
pub open spec fn spec_command_name(cmd: &ToolCall) -> Seq<char> {
    match cmd {
        ToolCall::View(_) => "Read"@,
        ToolCall::GlobTool(_) => "Glob"@,
        ToolCall::GrepTool(_) => "Grep"@,
        ToolCall::LS(_) => "LS"@,
        ToolCall::Edit(_) => "Edit"@,
        ToolCall::Replace(_) => "Write"@,
        ToolCall::Bash(_) => "Bash"@,
        ToolCall::ParseCode(_) => "ParseCode"@,
    }
}

/// The catalog name of a command.
pub fn command_name(cmd: &ToolCall) -> (r: String)
    ensures
        r@ == spec_command_name(cmd),
{
    match cmd {
        ToolCall::View(_) => "Read".to_owned(),
        ToolCall::GlobTool(_) => "Glob".to_owned(),
        ToolCall::GrepTool(_) => "Grep".to_owned(),
        ToolCall::LS(_) => "LS".to_owned(),
        ToolCall::Edit(_) => "Edit".to_owned(),
        ToolCall::Replace(_) => "Write".to_owned(),
        ToolCall::Bash(_) => "Bash".to_owned(),
        ToolCall::ParseCode(_) => "ParseCode".to_owned(),
    }
}

/// Build the record the permission collaborator reviews: the command's
/// name, what it will do, and the diff preview for file mutations.
pub fn build_permission_request(cmd: &ToolCall, diff_preview: Option<String>) -> (r:
    PendingToolExecution)
    ensures
        r.tool_name@ == spec_command_name(cmd),
        r.description@ == spec_describe_command(cmd),
        r.diff_preview == diff_preview,
{
    PendingToolExecution {
        tool_name: command_name(cmd),
        description: describe_command(cmd),
        diff_preview,
    }
}

} // verus!
