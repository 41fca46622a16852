//! The built-in tools: their descriptions, the decoding of their arguments,
//! and the parts of their work that compute rather than touch the system.
use vstd::prelude::*;
use crate::json::{JsonNumber, JsonValue, json_member, json_text, json_texts, literal_texts, same_text, texts};

verus! {

/// One block of a tool's output.
#[derive(Clone, Debug)]
pub struct ToolContent {
    pub content_type: String,
    pub text: String,
}

/// What a built-in tool returns: its output, and whether it failed.
#[derive(Clone, Debug)]
pub struct ToolResult {
    pub content: Vec<ToolContent>,
    pub is_error: Option<bool>,
}

impl ToolResult {
    /// Whether this result is one text block holding `text`, marked as an
    /// error exactly when `failed`.
    pub open spec fn says(self, text: Seq<char>, failed: bool) -> bool {
        &&& self.content@.len() == 1
        &&& self.content@[0].content_type@ == "text"@
        &&& self.content@[0].text@ == text
        &&& self.is_error == if failed { Some(true) } else { None }
    }

    /// A successful result holding `text`.
    pub fn success(text: String) -> (r: ToolResult)
        ensures
            r.says(text@, false),
    {
        ToolResult {
            content: vec![ToolContent { content_type: "text".to_owned(), text }],
            is_error: None,
        }
    }

    /// A failed result holding the message `text`.
    pub fn error(text: String) -> (r: ToolResult)
        ensures
            r.says(text@, true),
    {
        ToolResult {
            content: vec![ToolContent { content_type: "text".to_owned(), text }],
            is_error: Some(true),
        }
    }
}

/// A built-in tool as it is offered: name, description and the JSON Schema
/// of its arguments.
#[derive(Debug)]
pub struct BuiltinTool {
    pub name: String,
    pub description: String,
    pub input_schema: JsonValue,
}

/// The argument names that a schema marks as required.
pub open spec fn required_args(schema: JsonValue) -> Option<Seq<Option<Seq<char>>>> {
    match schema.field("required"@) {
        Some(JsonValue::Array(vs)) => Some(texts(vs@)),
        _ => None,
    }
}

/// Whether `schema` describes a JSON object.
pub open spec fn is_object_schema(schema: JsonValue) -> bool {
    schema.text_field("type"@) == Some("object"@)
}

/// A schema property `name` of JSON type `kind`.
fn property(name: &str, kind: &str, description: &str) -> (r: (String, JsonValue))
    ensures
        r.0@ == name@,
{
    let members = vec![json_member("type", json_text(kind)), json_member("description", json_text(description))];
    json_member(name, JsonValue::Object(members))
}

/// A schema property `name` of JSON type `kind`, with a default value.
fn property_with_default(name: &str, kind: &str, description: &str, default: JsonValue) -> (r: (String, JsonValue))
    ensures
        r.0@ == name@,
{
    let members = vec![
        json_member("type", json_text(kind)),
        json_member("description", json_text(description)),
        json_member("default", default),
    ];
    json_member(name, JsonValue::Object(members))
}

/// An object schema with the given properties, of which `required` must be given.
fn object_schema(properties: Vec<(String, JsonValue)>, required: &[&str]) -> (r: JsonValue)
    ensures
        required_args(r) == Some(literal_texts(required@)),
        is_object_schema(r),
{
    proof {
        reveal_strlit("type");
        reveal_strlit("properties");
        reveal_strlit("required");
        reveal_with_fuel(crate::json::member, 4);
    }
    let req = json_texts(required);
    let members = vec![
        json_member("type", json_text("object")),
        json_member("properties", JsonValue::Object(properties)),
        json_member("required", req),
    ];
    assert("type"@.len() != "required"@.len());
    assert("properties"@.len() != "required"@.len());
    JsonValue::Object(members)
}

/// An object schema with the given properties, none of them required.
fn open_object_schema(properties: Vec<(String, JsonValue)>) -> (r: JsonValue)
    ensures
        required_args(r) is None,
        is_object_schema(r),
{
    proof {
        reveal_strlit("type");
        reveal_strlit("properties");
        reveal_strlit("required");
        reveal_with_fuel(crate::json::member, 4);
    }
    let members = vec![
        json_member("type", json_text("object")),
        json_member("properties", JsonValue::Object(properties)),
    ];
    JsonValue::Object(members)
}

/// The tool that runs a shell command.
fn bash_tool() -> (t: BuiltinTool)
    ensures
        t.name@ == "bash"@,
        required_args(t.input_schema) == Some(literal_texts(seq!["command"])),
        is_object_schema(t.input_schema),
{
    let properties = vec![
        property("command", "string", "The shell command to execute"),
        property_with_default(
            "timeout",
            "integer",
            "Timeout in seconds (default: 30)",
            JsonValue::Number(JsonNumber::Unsigned(30)),
        ),
    ];
    let required = ["command"];
    let schema = object_schema(properties, &required);
    assert(required@ =~= seq!["command"]);
    BuiltinTool {
        name: "bash".to_owned(),
        description: "Execute shell commands in a secure environment. Use for running CLI tools, scripts, and system commands.".to_owned(),
        input_schema: schema,
    }
}

/// The tool that reads a file, whole or by lines.
fn read_file_tool() -> (t: BuiltinTool)
    ensures
        t.name@ == "read_file"@,
        required_args(t.input_schema) == Some(literal_texts(seq!["path"])),
        is_object_schema(t.input_schema),
{
    let properties = vec![
        property("path", "string", "Path to the file to read"),
        property("start_line", "integer", "Starting line number (1-indexed, optional)"),
        property("end_line", "integer", "Ending line number (inclusive, optional)"),
    ];
    let required = ["path"];
    let schema = object_schema(properties, &required);
    assert(required@ =~= seq!["path"]);
    BuiltinTool {
        name: "read_file".to_owned(),
        description: "Read the contents of a file from the filesystem.".to_owned(),
        input_schema: schema,
    }
}

/// The tool that lists a directory.
fn list_files_tool() -> (t: BuiltinTool)
    ensures
        t.name@ == "list_files"@,
        required_args(t.input_schema) is None,
        is_object_schema(t.input_schema),
{
    let properties = vec![
        property_with_default("path", "string", "Directory path to list (default: current directory)", json_text(".")),
        property_with_default("recursive", "boolean", "List recursively", JsonValue::Bool(false)),
    ];
    let schema = open_object_schema(properties);
    BuiltinTool {
        name: "list_files".to_owned(),
        description: "List files and directories with metadata (size, modified time, permissions).".to_owned(),
        input_schema: schema,
    }
}

/// The tool that finds files by name pattern.
fn search_glob_tool() -> (t: BuiltinTool)
    ensures
        t.name@ == "search_glob"@,
        required_args(t.input_schema) == Some(literal_texts(seq!["pattern"])),
        is_object_schema(t.input_schema),
{
    let properties = vec![
        property("pattern", "string", "Glob pattern to match"),
        property_with_default("base_path", "string", "Base directory to search from (default: current directory)", json_text(".")),
    ];
    let required = ["pattern"];
    let schema = object_schema(properties, &required);
    assert(required@ =~= seq!["pattern"]);
    BuiltinTool {
        name: "search_glob".to_owned(),
        description: "Search for files matching a glob pattern (e.g., '**/*.rs', 'src/**/*.json').".to_owned(),
        input_schema: schema,
    }
}

/// The tool that searches text in files.
fn grep_tool() -> (t: BuiltinTool)
    ensures
        t.name@ == "grep"@,
        required_args(t.input_schema) == Some(literal_texts(seq!["pattern", "path"])),
        is_object_schema(t.input_schema),
{
    let properties = vec![
        property("pattern", "string", "Regular expression pattern to search for"),
        property("path", "string", "File or directory to search in"),
        property_with_default("recursive", "boolean", "Search recursively in directories", JsonValue::Bool(false)),
        property_with_default("ignore_case", "boolean", "Case-insensitive search", JsonValue::Bool(false)),
    ];
    let required = ["pattern", "path"];
    let schema = object_schema(properties, &required);
    assert(required@ =~= seq!["pattern", "path"]);
    BuiltinTool {
        name: "grep".to_owned(),
        description: "Search for text patterns in files using regex. For better performance, consider using 'rg' (ripgrep) via bash tool.".to_owned(),
        input_schema: schema,
    }
}

/// The tool that replaces exact text in a file.
fn edit_file_tool() -> (t: BuiltinTool)
    ensures
        t.name@ == "edit_file"@,
        required_args(t.input_schema) == Some(literal_texts(seq!["path", "old_text", "new_text"])),
        is_object_schema(t.input_schema),
{
    let properties = vec![
        property("path", "string", "Path to the file to edit"),
        property("old_text", "string", "Exact text to replace (must match exactly)"),
        property("new_text", "string", "New text to insert"),
    ];
    let required = ["path", "old_text", "new_text"];
    let schema = object_schema(properties, &required);
    assert(required@ =~= seq!["path", "old_text", "new_text"]);
    BuiltinTool {
        name: "edit_file".to_owned(),
        description: "Edit a file by performing exact string replacement. The old_text must match exactly.".to_owned(),
        input_schema: schema,
    }
}

/// The tool that writes a file.
fn write_file_tool() -> (t: BuiltinTool)
    ensures
        t.name@ == "write_file"@,
        required_args(t.input_schema) == Some(literal_texts(seq!["path", "content"])),
        is_object_schema(t.input_schema),
{
    let properties = vec![
        property("path", "string", "Path to the file to write"),
        property("content", "string", "Content to write to the file"),
    ];
    let required = ["path", "content"];
    let schema = object_schema(properties, &required);
    assert(required@ =~= seq!["path", "content"]);
    BuiltinTool {
        name: "write_file".to_owned(),
        description: "Write content to a file, creating it if it doesn't exist or overwriting if it does.".to_owned(),
        input_schema: schema,
    }
}

/// The tool that only records reasoning.
fn think_tool() -> (t: BuiltinTool)
    ensures
        t.name@ == "think"@,
        required_args(t.input_schema) == Some(literal_texts(seq!["thoughts"])),
        is_object_schema(t.input_schema),
{
    let properties = vec![
        property("thoughts", "string", "Your internal thoughts and reasoning"),
    ];
    let required = ["thoughts"];
    let schema = object_schema(properties, &required);
    assert(required@ =~= seq!["thoughts"]);
    BuiltinTool {
        name: "think".to_owned(),
        description: "A no-operation tool for internal reasoning and planning. Use this to think through complex problems step by step.".to_owned(),
        input_schema: schema,
    }
}

/// The names of a list of built-in tools.
pub open spec fn tool_names(ts: Seq<BuiltinTool>) -> Seq<Seq<char>> {
    ts.map_values(|t: BuiltinTool| t.name@)
}

/// The names of the built-in tools, in the order they are offered.
pub open spec fn builtin_names() -> Seq<Seq<char>> {
    seq![
        "bash"@, "read_file"@, "list_files"@, "search_glob"@,
        "grep"@, "edit_file"@, "write_file"@, "think"@,
    ]
}

/// The fixed table of built-in tools.
pub struct BuiltinToolRegistry {
    tools: Vec<BuiltinTool>,
}

impl View for BuiltinToolRegistry {
    type V = Seq<BuiltinTool>;

    closed spec fn view(&self) -> Seq<BuiltinTool> {
        self.tools@
    }
}

impl BuiltinToolRegistry {
    /// The registry of all built-in tools.
    pub fn new() -> (r: BuiltinToolRegistry)
        ensures
            tool_names(r@) == builtin_names(),
            forall|i: int| 0 <= i < r@.len() ==> is_object_schema(#[trigger] r@[i].input_schema),
            required_args(r@[0].input_schema) == Some(literal_texts(seq!["command"])),
            required_args(r@[1].input_schema) == Some(literal_texts(seq!["path"])),
            required_args(r@[2].input_schema) is None,
            required_args(r@[3].input_schema) == Some(literal_texts(seq!["pattern"])),
            required_args(r@[4].input_schema) == Some(literal_texts(seq!["pattern", "path"])),
            required_args(r@[5].input_schema) == Some(literal_texts(seq!["path", "old_text", "new_text"])),
            required_args(r@[6].input_schema) == Some(literal_texts(seq!["path", "content"])),
            required_args(r@[7].input_schema) == Some(literal_texts(seq!["thoughts"])),
    {
        let tools = vec![
            bash_tool(),
            read_file_tool(),
            list_files_tool(),
            search_glob_tool(),
            grep_tool(),
            edit_file_tool(),
            write_file_tool(),
            think_tool(),
        ];
        let r = BuiltinToolRegistry { tools };
        assert(tool_names(r@) =~= builtin_names());
        r
    }

    /// The built-in tools, given up by the registry.
    pub fn into_tools(self) -> (r: Vec<BuiltinTool>)
        ensures
            r@ == self@,
    {
        self.tools
    }

    /// The built-in tools, in the order they are offered.
    pub fn list_tools(&self) -> (r: &[BuiltinTool])
        ensures
            r@ == self@,
    {
        self.tools.as_slice()
    }
}

/// A call of a built-in tool, its arguments decoded.
#[derive(Debug)]
pub enum BuiltinCall {
    Bash { command: String, timeout_secs: u64 },
    ReadFile { path: String, start_line: Option<u64>, end_line: Option<u64> },
    ListFiles { path: String, recursive: bool },
    SearchGlob { pattern: String, base_path: String },
    Grep { pattern: String, path: String, recursive: bool, ignore_case: bool },
    EditFile { path: String, old_text: String, new_text: String },
    WriteFile { path: String, content: String },
    Think { thoughts: String },
}

/// Why a call of a built-in tool could not be made: the request itself is
/// wrong, as opposed to a tool that ran and failed.
#[derive(Debug)]
pub enum ArgError {
    /// No built-in tool has this name.
    UnknownTool(String),
    /// A required argument is absent or not a string.
    MissingArgument(String),
}

/// The number of seconds a shell command may run when the call names none.
pub const DEFAULT_TIMEOUT_SECS: u64 = 30;

/// `o`, or `d` where it is absent.
pub open spec fn u64_or(o: Option<u64>, d: u64) -> u64 {
    match o {
        Some(x) => x,
        None => d,
    }
}

/// `o`, or `false` where it is absent.
pub open spec fn flag(o: Option<bool>) -> bool {
    match o {
        Some(b) => b,
        None => false,
    }
}

/// The text `o`, or the current directory where it is absent.
pub open spec fn dir_or_here(o: Option<Seq<char>>) -> Seq<char> {
    match o {
        Some(t) => t,
        None => "."@,
    }
}

/// Whether `r` reports the required argument `key` as missing.
pub open spec fn missing(r: Result<BuiltinCall, ArgError>, key: Seq<char>) -> bool {
    r matches Err(ArgError::MissingArgument(k)) && k@ == key
}

/// What decoding a call of the tool `name` with arguments `args` gives: the
/// first required argument that is absent, in the order the tool lists them,
/// is reported; optional arguments take their defaults.
pub open spec fn decodes(name: Seq<char>, args: JsonValue, r: Result<BuiltinCall, ArgError>) -> bool {
    if name == "bash"@ {
        match args.text_field("command"@) {
            None => missing(r, "command"@),
            Some(c) => r matches Ok(BuiltinCall::Bash { command, timeout_secs })
                && command@ == c && timeout_secs == u64_or(args.u64_field("timeout"@), DEFAULT_TIMEOUT_SECS),
        }
    } else if name == "read_file"@ {
        match args.text_field("path"@) {
            None => missing(r, "path"@),
            Some(p) => r matches Ok(BuiltinCall::ReadFile { path, start_line, end_line })
                && path@ == p && start_line == args.u64_field("start_line"@)
                && end_line == args.u64_field("end_line"@),
        }
    } else if name == "list_files"@ {
        r matches Ok(BuiltinCall::ListFiles { path, recursive })
            && path@ == dir_or_here(args.text_field("path"@))
            && recursive == flag(args.bool_field("recursive"@))
    } else if name == "search_glob"@ {
        match args.text_field("pattern"@) {
            None => missing(r, "pattern"@),
            Some(p) => r matches Ok(BuiltinCall::SearchGlob { pattern, base_path })
                && pattern@ == p && base_path@ == dir_or_here(args.text_field("base_path"@)),
        }
    } else if name == "grep"@ {
        match (args.text_field("pattern"@), args.text_field("path"@)) {
            (None, _) => missing(r, "pattern"@),
            (Some(_), None) => missing(r, "path"@),
            (Some(pt), Some(ph)) => r matches Ok(BuiltinCall::Grep { pattern, path, recursive, ignore_case })
                && pattern@ == pt && path@ == ph
                && recursive == flag(args.bool_field("recursive"@))
                && ignore_case == flag(args.bool_field("ignore_case"@)),
        }
    } else if name == "edit_file"@ {
        match (args.text_field("path"@), args.text_field("old_text"@), args.text_field("new_text"@)) {
            (None, _, _) => missing(r, "path"@),
            (Some(_), None, _) => missing(r, "old_text"@),
            (Some(_), Some(_), None) => missing(r, "new_text"@),
            (Some(p), Some(o), Some(n)) => r matches Ok(BuiltinCall::EditFile { path, old_text, new_text })
                && path@ == p && old_text@ == o && new_text@ == n,
        }
    } else if name == "write_file"@ {
        match (args.text_field("path"@), args.text_field("content"@)) {
            (None, _) => missing(r, "path"@),
            (Some(_), None) => missing(r, "content"@),
            (Some(p), Some(c)) => r matches Ok(BuiltinCall::WriteFile { path, content })
                && path@ == p && content@ == c,
        }
    } else if name == "think"@ {
        match args.text_field("thoughts"@) {
            None => missing(r, "thoughts"@),
            Some(t) => r matches Ok(BuiltinCall::Think { thoughts }) && thoughts@ == t,
        }
    } else {
        r matches Err(ArgError::UnknownTool(n)) && n@ == name
    }
}

/// The argument `key` as text, or the error that names it.
fn required_text(args: &JsonValue, key: &str) -> (r: Result<String, ArgError>)
    ensures
        match args.text_field(key@) {
            Some(t) => r matches Ok(s) && s@ == t,
            None => r matches Err(ArgError::MissingArgument(k)) && k@ == key@,
        },
{
    match args.get_text(key) {
        Some(s) => Ok(s),
        None => Err(ArgError::MissingArgument(key.to_owned())),
    }
}

/// The directory argument `key`, or the current directory.
fn dir_arg(args: &JsonValue, key: &str) -> (r: String)
    ensures
        r@ == dir_or_here(args.text_field(key@)),
{
    match args.get_text(key) {
        Some(s) => s,
        None => ".".to_owned(),
    }
}

impl BuiltinToolRegistry {
    /// Decodes a call of the built-in tool `name` with the arguments `args`.
    pub fn prepare(&self, name: &str, args: &JsonValue) -> (r: Result<BuiltinCall, ArgError>)
        ensures
            decodes(name@, *args, r),
    {
        if same_text(name, "bash") {
            let command = match required_text(args, "command") {
                Ok(c) => c,
                Err(e) => return Err(e),
            };
            let timeout_secs = match args.get_u64("timeout") {
                Some(t) => t,
                None => DEFAULT_TIMEOUT_SECS,
            };
            Ok(BuiltinCall::Bash { command, timeout_secs })
        } else if same_text(name, "read_file") {
            let path = match required_text(args, "path") {
                Ok(p) => p,
                Err(e) => return Err(e),
            };
            Ok(BuiltinCall::ReadFile {
                path,
                start_line: args.get_u64("start_line"),
                end_line: args.get_u64("end_line"),
            })
        } else if same_text(name, "list_files") {
            let path = dir_arg(args, "path");
            let recursive = match args.get_bool("recursive") {
                Some(b) => b,
                None => false,
            };
            Ok(BuiltinCall::ListFiles { path, recursive })
        } else if same_text(name, "search_glob") {
            let pattern = match required_text(args, "pattern") {
                Ok(p) => p,
                Err(e) => return Err(e),
            };
            Ok(BuiltinCall::SearchGlob { pattern, base_path: dir_arg(args, "base_path") })
        } else if same_text(name, "grep") {
            let pattern = match required_text(args, "pattern") {
                Ok(p) => p,
                Err(e) => return Err(e),
            };
            let path = match required_text(args, "path") {
                Ok(p) => p,
                Err(e) => return Err(e),
            };
            let recursive = match args.get_bool("recursive") {
                Some(b) => b,
                None => false,
            };
            let ignore_case = match args.get_bool("ignore_case") {
                Some(b) => b,
                None => false,
            };
            Ok(BuiltinCall::Grep { pattern, path, recursive, ignore_case })
        } else if same_text(name, "edit_file") {
            let path = match required_text(args, "path") {
                Ok(p) => p,
                Err(e) => return Err(e),
            };
            let old_text = match required_text(args, "old_text") {
                Ok(t) => t,
                Err(e) => return Err(e),
            };
            let new_text = match required_text(args, "new_text") {
                Ok(t) => t,
                Err(e) => return Err(e),
            };
            Ok(BuiltinCall::EditFile { path, old_text, new_text })
        } else if same_text(name, "write_file") {
            let path = match required_text(args, "path") {
                Ok(p) => p,
                Err(e) => return Err(e),
            };
            let content = match required_text(args, "content") {
                Ok(c) => c,
                Err(e) => return Err(e),
            };
            Ok(BuiltinCall::WriteFile { path, content })
        } else if same_text(name, "think") {
            let thoughts = match required_text(args, "thoughts") {
                Ok(t) => t,
                Err(e) => return Err(e),
            };
            Ok(BuiltinCall::Think { thoughts })
        } else {
            Err(ArgError::UnknownTool(name.to_owned()))
        }
    }
}

} // verus!
