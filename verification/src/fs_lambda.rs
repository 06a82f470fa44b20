//! The file tool plugin: which tool a call names and with what arguments, and how
//! its outcome is answered.

use crate::sdk::{Action, ToolExecutionResponse};
use crate::strmap::StrMap;
use crate::text::{concat2, concat3, str_eq, to_string};
use vstd::prelude::*;

verus! {

/// An argument of a tool call, as far as the tools read it.
pub enum ArgValue {
    /// A JSON string.
    Text(String),
    /// A JSON number that is a non-negative integer fitting in 64 bits.
    Unsigned(u64),
    /// A JSON boolean.
    Flag(bool),
    /// Any other JSON value.
    Other,
}

/// The message for an argument that is missing or not a string.
pub open spec fn missing_arg(key: Seq<char>) -> Seq<char> {
    "Missing or invalid argument: "@ + key
}

/// A string argument, or the message that it is missing.
pub open spec fn string_arg(args: Map<Seq<char>, ArgValue>, key: Seq<char>) -> Result<Seq<char>, Seq<char>> {
    if args.contains_key(key) {
        match args[key] {
            ArgValue::Text(s) => Ok(s@),
            _ => Err(missing_arg(key)),
        }
    } else {
        Err(missing_arg(key))
    }
}

/// An integer argument, or `default` when it is missing or not such an integer.
pub open spec fn u64_arg(args: Map<Seq<char>, ArgValue>, key: Seq<char>, default: u64) -> u64 {
    if args.contains_key(key) {
        match args[key] {
            ArgValue::Unsigned(n) => n,
            _ => default,
        }
    } else {
        default
    }
}

/// A boolean argument, or `default` when it is missing or not a boolean.
pub open spec fn bool_arg(args: Map<Seq<char>, ArgValue>, key: Seq<char>, default: bool) -> bool {
    if args.contains_key(key) {
        match args[key] {
            ArgValue::Flag(b) => b,
            _ => default,
        }
    } else {
        default
    }
}

/// The string argument `key`.
pub fn get_string_arg(arguments: &StrMap<ArgValue>, key: &str) -> (r: Result<String, String>)
    requires
        arguments.wf(),
    ensures
        crate::fs_tools::result_view(r) == string_arg(arguments.view(), key@),
{
    match arguments.get(key) {
        Some(ArgValue::Text(s)) => Ok(s.clone()),
        _ => Err(concat2("Missing or invalid argument: ", key)),
    }
}

fn get_u64_arg(arguments: &StrMap<ArgValue>, key: &str, default: u64) -> (r: u64)
    requires
        arguments.wf(),
    ensures
        r == u64_arg(arguments.view(), key@, default),
{
    match arguments.get(key) {
        Some(ArgValue::Unsigned(n)) => *n,
        _ => default,
    }
}

fn get_bool_arg(arguments: &StrMap<ArgValue>, key: &str, default: bool) -> (r: bool)
    requires
        arguments.wf(),
    ensures
        r == bool_arg(arguments.view(), key@, default),
{
    match arguments.get(key) {
        Some(ArgValue::Flag(b)) => *b,
        _ => default,
    }
}

/// A call of one of the file tools.
pub enum FsToolCall {
    Read { path: String, offset: u64, limit: u64 },
    Write { path: String, content: String },
    Edit { path: String, old_text: String, new_text: String, replace_all: bool },
    List { path: String, recursive: bool, max_entries: u64 },
}

pub enum FsCallView {
    Read(Seq<char>, u64, u64),
    Write(Seq<char>, Seq<char>),
    Edit(Seq<char>, Seq<char>, Seq<char>, bool),
    List(Seq<char>, bool, u64),
}

pub open spec fn call_view(c: FsToolCall) -> FsCallView {
    match c {
        FsToolCall::Read { path, offset, limit } => FsCallView::Read(path@, offset, limit),
        FsToolCall::Write { path, content } => FsCallView::Write(path@, content@),
        FsToolCall::Edit { path, old_text, new_text, replace_all } => FsCallView::Edit(
            path@,
            old_text@,
            new_text@,
            replace_all,
        ),
        FsToolCall::List { path, recursive, max_entries } => FsCallView::List(path@, recursive, max_entries),
    }
}

/// The message for a tool that the plugin does not offer.
pub open spec fn unknown_tool(name: Seq<char>) -> Seq<char> {
    "Unknown tool: '"@ + name + "'. Available tools: read_file, write_file, edit_file, list_dir"@
}

/// The call that a tool name and arguments make: the path is required everywhere,
/// the content of a write and both texts of an edit too (checked in that order);
/// reading starts at line 1 with up to 2000 lines, listing is flat with up to 200
/// entries, and an edit replaces one occurrence, unless the arguments say otherwise.
pub open spec fn fs_call(name: Seq<char>, args: Map<Seq<char>, ArgValue>) -> Result<FsCallView, Seq<char>> {
    if name == "read_file"@ {
        match string_arg(args, "path"@) {
            Err(e) => Err(e),
            Ok(p) => Ok(FsCallView::Read(p, u64_arg(args, "offset"@, 1), u64_arg(args, "limit"@, 2000))),
        }
    } else if name == "write_file"@ {
        match (string_arg(args, "path"@), string_arg(args, "content"@)) {
            (Err(e), _) => Err(e),
            (Ok(_), Err(e)) => Err(e),
            (Ok(p), Ok(c)) => Ok(FsCallView::Write(p, c)),
        }
    } else if name == "edit_file"@ {
        match (string_arg(args, "path"@), string_arg(args, "old_text"@), string_arg(args, "new_text"@)) {
            (Err(e), _, _) => Err(e),
            (Ok(_), Err(e), _) => Err(e),
            (Ok(_), Ok(_), Err(e)) => Err(e),
            (Ok(p), Ok(o), Ok(n)) => Ok(FsCallView::Edit(p, o, n, bool_arg(args, "replace_all"@, false))),
        }
    } else if name == "list_dir"@ {
        match string_arg(args, "path"@) {
            Err(e) => Err(e),
            Ok(p) => Ok(FsCallView::List(p, bool_arg(args, "recursive"@, false), u64_arg(args, "max_entries"@, 200))),
        }
    } else {
        Err(unknown_tool(name))
    }
}

/// The call that a tool name and arguments make (see `fs_call`).
pub fn parse_fs_tool_call(name: &str, arguments: &StrMap<ArgValue>) -> (r: Result<FsToolCall, String>)
    requires
        arguments.wf(),
    ensures
        match r {
            Ok(c) => fs_call(name@, arguments.view()) == Ok::<FsCallView, Seq<char>>(call_view(c)),
            Err(e) => fs_call(name@, arguments.view()) == Err::<FsCallView, Seq<char>>(e@),
        },
{
    if str_eq(name, "read_file") {
        let path = match get_string_arg(arguments, "path") {
            Ok(p) => p,
            Err(e) => return Err(e),
        };
        let offset = get_u64_arg(arguments, "offset", 1);
        let limit = get_u64_arg(arguments, "limit", 2000);
        Ok(FsToolCall::Read { path, offset, limit })
    } else if str_eq(name, "write_file") {
        let path = match get_string_arg(arguments, "path") {
            Ok(p) => p,
            Err(e) => return Err(e),
        };
        let content = match get_string_arg(arguments, "content") {
            Ok(c) => c,
            Err(e) => return Err(e),
        };
        Ok(FsToolCall::Write { path, content })
    } else if str_eq(name, "edit_file") {
        let path = match get_string_arg(arguments, "path") {
            Ok(p) => p,
            Err(e) => return Err(e),
        };
        let old_text = match get_string_arg(arguments, "old_text") {
            Ok(t) => t,
            Err(e) => return Err(e),
        };
        let new_text = match get_string_arg(arguments, "new_text") {
            Ok(t) => t,
            Err(e) => return Err(e),
        };
        let replace_all = get_bool_arg(arguments, "replace_all", false);
        Ok(FsToolCall::Edit { path, old_text, new_text, replace_all })
    } else if str_eq(name, "list_dir") {
        let path = match get_string_arg(arguments, "path") {
            Ok(p) => p,
            Err(e) => return Err(e),
        };
        let recursive = get_bool_arg(arguments, "recursive", false);
        let max_entries = get_u64_arg(arguments, "max_entries", 200);
        Ok(FsToolCall::List { path, recursive, max_entries })
    } else {
        Err(concat3("Unknown tool: '", name, "'. Available tools: read_file, write_file, edit_file, list_dir"))
    }
}

/// The workspace a call runs in: the one configured, else the current directory.
pub fn workspace_or_default(configured: Option<String>) -> (r: String)
    ensures
        r@ == match configured {
            Some(w) => w@,
            None => "."@,
        },
{
    match configured {
        Some(w) => w,
        None => to_string("."),
    }
}

/// What a write request's return code means: 0 written, -1 refused, anything else
/// unexpected.
pub open spec fn write_status_of(code: i64) -> Result<bool, Seq<char>> {
    if code == 0 {
        Ok(true)
    } else if code == -1 {
        Err("Write failed"@)
    } else {
        Err("Unexpected return code: "@ + crate::text::signed_decimal(code as int))
    }
}

/// What a write request's return code means (see `write_status_of`).
pub fn write_status(code: i64) -> (r: Result<bool, String>)
    ensures
        match r {
            Ok(b) => write_status_of(code) == Ok::<bool, Seq<char>>(b),
            Err(e) => write_status_of(code) == Err::<bool, Seq<char>>(e@),
        },
{
    if code == 0 {
        Ok(true)
    } else if code == -1 {
        Err(to_string("Write failed"))
    } else {
        Err(concat2("Unexpected return code: ", crate::text::signed_decimal_string(code).as_str()))
    }
}

/// The outcome of a write as the write tool reports it.
pub fn write_reply(r: Result<bool, String>) -> (out: Result<String, String>)
    ensures
        crate::fs_tools::result_view(out) == match r {
            Ok(true) => Ok::<Seq<char>, Seq<char>>("File written successfully"@),
            Ok(false) => Err::<Seq<char>, Seq<char>>("Write failed"@),
            Err(e) => Err::<Seq<char>, Seq<char>>(e@),
        },
{
    match r {
        Ok(true) => Ok(to_string("File written successfully")),
        Ok(false) => Err(to_string("Write failed")),
        Err(e) => Err(e),
    }
}

/// The answer of a tool that failed.
pub fn error_output(message: String) -> (r: ToolExecutionResponse)
    ensures
        r.result@ == Seq::<char>::empty(),
        r.error matches Some(m) && m@ == message@,
{
    ToolExecutionResponse { result: String::new(), error: Some(message) }
}

/// The answer of a tool: its result, or its error.
pub fn tool_output(result: Result<String, String>) -> (r: ToolExecutionResponse)
    ensures
        result matches Ok(s) ==> (r.result@ == s@ && r.error is None),
        result matches Err(e) ==> (r.result@ == Seq::<char>::empty() && (r.error matches Some(m) && m@ == e@)),
{
    match result {
        Ok(s) => ToolExecutionResponse { result: s, error: None },
        Err(e) => error_output(e),
    }
}

/// What the file tool plugin does for an action.
pub enum FsLambdaRoute {
    /// Describe the tools.
    ListTools,
    /// Run the tool the payload names.
    RunTool,
    /// Refuse, with this answer.
    Unsupported(ToolExecutionResponse),
}

/// The file tool plugin's entry point: it lists and runs tools, and refuses any
/// other action.
pub fn lambda_function(action: Action) -> (r: FsLambdaRoute)
    ensures
        action is GetTools ==> r is ListTools,
        action is ExecuteTool ==> r is RunTool,
        !(action is GetTools || action is ExecuteTool) ==> (r matches FsLambdaRoute::Unsupported(resp)
            && resp.result@ == Seq::<char>::empty()
            && (resp.error matches Some(m) && m@ == "fs lambda only supports GetTools and ExecuteTool"@)),
{
    match action {
        Action::GetTools => FsLambdaRoute::ListTools,
        Action::ExecuteTool => FsLambdaRoute::RunTool,
        _ => FsLambdaRoute::Unsupported(error_output(to_string("fs lambda only supports GetTools and ExecuteTool"))),
    }
}

/// The names and descriptions of the file tools, in the order they are offered.
pub fn fs_tool_descriptions() -> (r: Vec<(String, String)>)
    ensures
        r@.len() == 4,
        r@[0].0@ == "read_file"@,
        r@[1].0@ == "write_file"@,
        r@[2].0@ == "edit_file"@,
        r@[3].0@ == "list_dir"@,
{
    vec![
        (to_string("read_file"), to_string("Read the contents of a file. Returns numbered lines. Use offset and limit to paginate through large files.")),
        (to_string("write_file"), to_string("Write content to a file at the given path. Creates parent directories if needed.")),
        (to_string("edit_file"), to_string("Edit a file by replacing old_text with new_text. Supports minor whitespace/line-ending differences. Set replace_all=true to replace every occurrence.")),
        (to_string("list_dir"), to_string("List the contents of a directory. Set recursive=true to explore nested structure. Common noise directories (.git, node_modules, __pycache__, etc.) are auto-ignored.")),
    ]
}

} // verus!
