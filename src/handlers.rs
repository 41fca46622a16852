//! What the built-in tools compute around their system work: which commands
//! are refused, how output is combined and reported, what an edit makes of a
//! file, and the lines of a listing.
use vstd::prelude::*;
use crate::text::{
    contains, decimal, line_window, push_char, push_decimal, push_signed_decimal, push_text, replace_all,
    replace_text, signed_decimal, string_views, text_contains, window_of,
};
use crate::tools::ToolResult;

verus! {

/// The first pattern of the denylist that `command` holds, checked in the
/// order "rm -rf /", "dd if=", "mkfs", "format", "> /dev/".
pub open spec fn blocked_by(command: Seq<char>) -> Option<Seq<char>> {
    if contains(command, "rm -rf /"@) {
        Some("rm -rf /"@)
    } else if contains(command, "dd if="@) {
        Some("dd if="@)
    } else if contains(command, "mkfs"@) {
        Some("mkfs"@)
    } else if contains(command, "format"@) {
        Some("format"@)
    } else if contains(command, "> /dev/"@) {
        Some("> /dev/"@)
    } else {
        None
    }
}

/// The message for a command refused for holding `pattern`.
pub open spec fn blocked_message(pattern: Seq<char>) -> Seq<char> {
    "Command blocked for security: contains '"@ + pattern + "'"@
}

/// The first pattern of the denylist that `command` holds.
pub fn blocked_pattern(command: &str) -> (r: Option<&'static str>)
    ensures
        match r {
            Some(p) => blocked_by(command@) == Some(p@),
            None => blocked_by(command@) is None,
        },
{
    if text_contains(command, "rm -rf /") {
        Some("rm -rf /")
    } else if text_contains(command, "dd if=") {
        Some("dd if=")
    } else if text_contains(command, "mkfs") {
        Some("mkfs")
    } else if text_contains(command, "format") {
        Some("format")
    } else if text_contains(command, "> /dev/") {
        Some("> /dev/")
    } else {
        None
    }
}

/// The refusal of a command that holds a denylisted pattern; nothing for a
/// command that may run.
pub fn screen_command(command: &str) -> (r: Option<ToolResult>)
    ensures
        match blocked_by(command@) {
            Some(p) => r matches Some(res) && res.says(blocked_message(p), true),
            None => r is None,
        },
{
    match blocked_pattern(command) {
        Some(p) => {
            let mut msg = String::new();
            push_text(&mut msg, "Command blocked for security: contains '");
            push_text(&mut msg, p);
            push_text(&mut msg, "'");
            Some(ToolResult::error(msg))
        },
        None => None,
    }
}

/// Standard output and standard error as one text: the error output follows
/// under a separator only when both are non-empty.
pub open spec fn combined(out: Seq<char>, err: Seq<char>) -> Seq<char> {
    if err.len() == 0 {
        out
    } else if out.len() == 0 {
        err
    } else {
        out + "\nSTDERR:\n"@ + err
    }
}

/// Standard output and standard error as one text.
pub fn combine_output(out: &str, err: &str) -> (r: String)
    ensures
        r@ == combined(out@, err@),
{
    let mut r = out.to_owned();
    if !err.is_empty() {
        if !out.is_empty() {
            push_text(&mut r, "\nSTDERR:\n");
        }
        push_text(&mut r, err);
    }
    assert(r@ =~= combined(out@, err@));
    r
}

/// What a finished command reports: its combined output, or where it did not
/// exit with status zero, a failure naming the exit code (-1 where it was
/// stopped by a signal) followed by that output.
pub open spec fn finished_message(code: Option<i32>, out: Seq<char>, err: Seq<char>) -> Seq<char> {
    if code == Some(0i32) {
        combined(out, err)
    } else {
        let c: int = match code {
            Some(c) => c as int,
            None => -1,
        };
        "Command failed with exit code "@ + signed_decimal(c) + "\n"@ + combined(out, err)
    }
}

/// The result of a command that ran to its end with exit code `code`.
pub fn command_finished(code: Option<i32>, out: &str, err: &str) -> (r: ToolResult)
    ensures
        r.says(finished_message(code, out@, err@), code != Some(0i32)),
{
    let output = combine_output(out, err);
    match code {
        Some(0i32) => ToolResult::success(output),
        _ => {
            let c: i64 = match code {
                Some(c) => c as i64,
                None => -1,
            };
            let mut msg = String::new();
            push_text(&mut msg, "Command failed with exit code ");
            push_signed_decimal(&mut msg, c);
            push_text(&mut msg, "\n");
            push_text(&mut msg, output.as_str());
            ToolResult::error(msg)
        },
    }
}

/// The result of a command stopped after `secs` seconds.
pub fn command_timed_out(secs: u64) -> (r: ToolResult)
    ensures
        r.says("Command timed out after "@ + decimal(secs as nat) + " seconds"@, true),
{
    let mut msg = String::new();
    push_text(&mut msg, "Command timed out after ");
    push_decimal(&mut msg, secs);
    push_text(&mut msg, " seconds");
    ToolResult::error(msg)
}

/// The result of reading a file whose content is `content`, with optional
/// line bounds.
pub fn read_result(content: &str, start_line: Option<u64>, end_line: Option<u64>) -> (r: ToolResult)
    ensures
        r.says(line_window(content@, start_line, end_line), false),
{
    ToolResult::success(window_of(content, start_line, end_line))
}

/// The message of an edit whose text was not found.
pub open spec fn mismatch_message() -> Seq<char> {
    "Old text not found in file. Text must match exactly."@
}

/// What an edit makes of a file's content: every occurrence of `old_text`
/// replaced by `new_text`, or a failure, with nothing to write, where
/// `old_text` does not occur.
pub fn apply_edit(content: &str, old_text: &str, new_text: &str) -> (r: Result<String, ToolResult>)
    ensures
        contains(content@, old_text@) ==> (r matches Ok(s) && s@ == replace_all(content@, old_text@, new_text@)
            && s@ == edited(content@, old_text@, new_text@)),
        !contains(content@, old_text@) ==> (r matches Err(e) && e.says(mismatch_message(), true)),
{
    if !text_contains(content, old_text) {
        return Err(ToolResult::error("Old text not found in file. Text must match exactly.".to_owned()));
    }
    Ok(replace_text(content, old_text, new_text))
}

/// The result of an edit written to `path`.
pub fn edited_result(path: &str) -> (r: ToolResult)
    ensures
        r.says("File edited successfully: "@ + path@, false),
{
    let mut msg = String::new();
    push_text(&mut msg, "File edited successfully: ");
    push_text(&mut msg, path);
    ToolResult::success(msg)
}

/// The result of writing `bytes` bytes to `path`.
pub fn written_result(path: &str, bytes: u64) -> (r: ToolResult)
    ensures
        r.says("File written successfully: "@ + path@ + " ("@ + decimal(bytes as nat) + " bytes)"@, false),
{
    let mut msg = String::new();
    push_text(&mut msg, "File written successfully: ");
    push_text(&mut msg, path);
    push_text(&mut msg, " (");
    push_decimal(&mut msg, bytes);
    push_text(&mut msg, " bytes)");
    ToolResult::success(msg)
}

/// The result of the reasoning tool: the thoughts, echoed under a heading.
pub fn think_result(thoughts: &str) -> (r: ToolResult)
    ensures
        r.says("\u{1f4ad} Internal reasoning:\n"@ + thoughts@, false),
{
    let mut msg = String::new();
    push_text(&mut msg, "\u{1f4ad} Internal reasoning:\n");
    push_text(&mut msg, thoughts);
    ToolResult::success(msg)
}

/// The shell command that finds files named by `pattern` under `base_path`,
/// each `**` of the pattern taken as a `*` of `find -name`.
pub open spec fn glob_command_text(pattern: Seq<char>, base_path: Seq<char>) -> Seq<char> {
    "find "@ + base_path + " -name '"@ + replace_all(pattern, "**"@, "*"@) + "'"@
}

/// The shell command that finds files named by `pattern` under `base_path`.
pub fn glob_command(pattern: &str, base_path: &str) -> (r: String)
    ensures
        r@ == glob_command_text(pattern@, base_path@),
{
    let mut cmd = String::new();
    push_text(&mut cmd, "find ");
    push_text(&mut cmd, base_path);
    push_text(&mut cmd, " -name '");
    let p = replace_text(pattern, "**", "*");
    push_text(&mut cmd, p.as_str());
    push_text(&mut cmd, "'");
    assert(cmd@ =~= glob_command_text(pattern@, base_path@));
    cmd
}

/// The result of a file search that printed `found`.
pub fn glob_result(found: &str, pattern: &str) -> (r: ToolResult)
    ensures
        found@.len() == 0 ==> r.says("No files found matching pattern: "@ + pattern@, false),
        found@.len() != 0 ==> r.says(found@, false),
{
    if found.is_empty() {
        let mut msg = String::new();
        push_text(&mut msg, "No files found matching pattern: ");
        push_text(&mut msg, pattern);
        ToolResult::success(msg)
    } else {
        ToolResult::success(found.to_owned())
    }
}

/// The arguments of `grep` for a search: case folding and recursion where
/// asked, then line numbers, the pattern and the path.
pub open spec fn grep_argument_texts(pattern: Seq<char>, path: Seq<char>, recursive: bool, ignore_case: bool) -> Seq<Seq<char>> {
    (if ignore_case { seq!["-i"@] } else { seq![] })
        + (if recursive { seq!["-r"@] } else { seq![] })
        + seq!["-n"@, pattern, path]
}

/// The arguments of `grep` for a search.
pub fn grep_arguments(pattern: &str, path: &str, recursive: bool, ignore_case: bool) -> (r: Vec<String>)
    ensures
        string_views(r@) == grep_argument_texts(pattern@, path@, recursive, ignore_case),
{
    let mut args: Vec<String> = Vec::new();
    if ignore_case {
        args.push("-i".to_owned());
    }
    if recursive {
        args.push("-r".to_owned());
    }
    args.push("-n".to_owned());
    args.push(pattern.to_owned());
    args.push(path.to_owned());
    assert(string_views(args@) =~= grep_argument_texts(pattern@, path@, recursive, ignore_case));
    args
}

/// The result of a text search: its error output as a failure where there
/// is any, else its matches, or a note that there were none.
pub fn grep_result(out: &str, err: &str, pattern: &str) -> (r: ToolResult)
    ensures
        err@.len() != 0 ==> r.says(err@, true),
        err@.len() == 0 && out@.len() == 0 ==> r.says("No matches found for pattern: "@ + pattern@, false),
        err@.len() == 0 && out@.len() != 0 ==> r.says(out@, false),
{
    if !err.is_empty() {
        ToolResult::error(err.to_owned())
    } else if out.is_empty() {
        let mut msg = String::new();
        push_text(&mut msg, "No matches found for pattern: ");
        push_text(&mut msg, pattern);
        ToolResult::success(msg)
    } else {
        ToolResult::success(out.to_owned())
    }
}

/// `n` spaces.
pub open spec fn spaces(n: nat) -> Seq<char> {
    Seq::new(n, |i: int| ' ')
}

/// `s` padded on the left with spaces to at least `width` characters.
pub open spec fn right_aligned(s: Seq<char>, width: nat) -> Seq<char> {
    if s.len() >= width {
        s
    } else {
        spaces((width - s.len()) as nat) + s
    }
}

/// Appends `n` spaces to `out`.
fn push_spaces(out: &mut String, n: usize)
    ensures
        final(out)@ == old(out)@ + spaces(n as nat),
{
    let mut i: usize = 0;
    while i < n
        invariant
            i <= n,
            out@ == old(out)@ + spaces(i as nat),
        decreases n - i,
    {
        push_char(out, ' ');
        i += 1;
        assert(out@ =~= old(out)@ + spaces(i as nat));
    }
}

/// The line that lists one directory entry: its kind, its size in a column
/// ten wide, and its name.
pub open spec fn entry_line_text(is_dir: bool, size: u64, name: Seq<char>) -> Seq<char> {
    (if is_dir { "DIR "@ } else { "FILE"@ }) + " "@ + right_aligned(decimal(size as nat), 10) + " "@ + name + "\n"@
}

/// The line that lists one directory entry.
pub fn entry_line(is_dir: bool, size: u64, name: &str) -> (r: String)
    ensures
        r@ == entry_line_text(is_dir, size, name@),
{
    let mut line = String::new();
    push_text(&mut line, if is_dir { "DIR " } else { "FILE" });
    push_text(&mut line, " ");
    let mut num = String::new();
    push_decimal(&mut num, size);
    let width = num.as_str().unicode_len();
    if width < 10 {
        push_spaces(&mut line, 10 - width);
    }
    push_text(&mut line, num.as_str());
    push_text(&mut line, " ");
    push_text(&mut line, name);
    push_text(&mut line, "\n");
    assert(line@ =~= entry_line_text(is_dir, size, name@));
    line
}

/// The line of an indented tree listing for an entry `depth` levels down: a
/// directory by its name with a slash, a file with its size.
pub open spec fn tree_line_text(depth: nat, is_dir: bool, name: Seq<char>, size: u64) -> Seq<char> {
    spaces(2 * depth) + if is_dir {
        "\u{1f4c1} "@ + name + "/\n"@
    } else {
        "\u{1f4c4} "@ + name + " ("@ + decimal(size as nat) + " bytes)\n"@
    }
}

/// The line of an indented tree listing.
pub fn tree_line(depth: usize, is_dir: bool, name: &str, size: u64) -> (r: String)
    ensures
        r@ == tree_line_text(depth as nat, is_dir, name@, size),
{
    let mut line = String::new();
    let mut level: usize = 0;
    while level < depth
        invariant
            level <= depth,
            line@ == spaces(2 * level as nat),
        decreases depth - level,
    {
        push_spaces(&mut line, 2);
        level += 1;
        assert(line@ =~= spaces(2 * level as nat));
    }
    if is_dir {
        push_text(&mut line, "\u{1f4c1} ");
        push_text(&mut line, name);
        push_text(&mut line, "/\n");
    } else {
        push_text(&mut line, "\u{1f4c4} ");
        push_text(&mut line, name);
        push_text(&mut line, " (");
        push_decimal(&mut line, size);
        push_text(&mut line, " bytes)\n");
    }
    assert(line@ =~= tree_line_text(depth as nat, is_dir, name@, size));
    line
}

/// What an edit leaves of a file's content `content`: the replaced text
/// where `old_text` occurs, the content unchanged where it does not.
pub open spec fn edited(content: Seq<char>, old_text: Seq<char>, new_text: Seq<char>) -> Seq<char> {
    if contains(content, old_text) {
        replace_all(content, old_text, new_text)
    } else {
        content
    }
}

/// An edit applies once: after an edit that replaced `old_text`, where the
/// result no longer holds `old_text`, the same edit again finds nothing to
/// replace and leaves the text as the first edit made it.
pub proof fn lemma_edit_applies_once(content: Seq<char>, old_text: Seq<char>, new_text: Seq<char>)
    requires
        contains(content, old_text),
        !contains(replace_all(content, old_text, new_text), old_text),
    ensures
        edited(content, old_text, new_text) == replace_all(content, old_text, new_text),
        !contains(edited(content, old_text, new_text), old_text),
        edited(edited(content, old_text, new_text), old_text, new_text) == edited(content, old_text, new_text),
{
}

} // verus!
