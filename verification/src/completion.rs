//! The decisions behind installing shell tab-completion: which shell the
//! user runs, where the completion script and the shell's startup file lie,
//! which line the startup file needs, and whether it needs it still.
//!
//! Nothing here touches the file system. The caller reads the environment
//! and the startup file, hands their contents in, and carries out what comes
//! back.

use crate::text::{contains_chars, contains_seq, occurs_at, str_contains, to_chars};
use vstd::prelude::*;
use vstd::string::StringExecFns;

verus! {

/// The shells that completion can be installed for.
#[derive(Clone, Copy, Debug, PartialEq, Eq, Structural)]
pub enum Shell {
    Bash,
    Zsh,
}

/// What a run of the installer settles before it touches any file.
#[derive(Debug, PartialEq, Eq)]
pub struct InstallPlan {
    /// The shell that the script is generated for.
    pub shell: Shell,
    /// Where the completion script is written.
    pub completion_script: String,
    /// The startup file of the shell.
    pub startup_file: String,
    /// The line that makes the shell load the script.
    pub source_line: String,
}

/// What is left to do to a startup file.
#[derive(Debug, PartialEq, Eq)]
pub enum InstallAction {
    /// The startup file holds the line already: nothing is written.
    AlreadyAdded,
    /// The startup file lacks the line: this text is appended to it.
    Append(String),
}

/// The shell that a shell-identifier value stands for: zsh where the value
/// mentions `zsh` anywhere, bash for every other value, the empty one too.
pub open spec fn classify_shell_spec(value: Seq<char>) -> Shell {
    if contains_seq(value, "zsh"@) {
        Shell::Zsh
    } else {
        Shell::Bash
    }
}

/// The name of the startup file that a shell reads.
pub open spec fn startup_file_name_spec(shell: Shell) -> Seq<char> {
    match shell {
        Shell::Bash => ".bashrc"@,
        Shell::Zsh => ".zshrc"@,
    }
}

/// The name of the completion script, the same for every shell.
pub open spec fn script_file_name_spec() -> Seq<char> {
    "my_dev_tool_completion"@
}

/// The path of the entry `name` in the directory `dir`: the two joined by
/// one `/`, which is left out where `dir` is empty or ends in `/` already.
pub open spec fn join_path_spec(dir: Seq<char>, name: Seq<char>) -> Seq<char> {
    if dir.len() == 0 || dir.last() == '/' {
        dir + name
    } else {
        dir + seq!['/'] + name
    }
}

/// The line that loads the script at `script_path`.
pub open spec fn source_line_spec(script_path: Seq<char>) -> Seq<char> {
    "source "@ + script_path
}

/// `contents` is empty or ends in a newline: text appended to it starts a
/// line of its own.
pub open spec fn ends_a_line(contents: Seq<char>) -> bool {
    contents.len() == 0 || contents.last() == '\n'
}

/// The text that adds `line` to a startup file with the given contents as a
/// line of its own: the line and a newline after it, with a newline before it
/// too where the contents do not end a line.
pub open spec fn appended_text(contents: Seq<char>, line: Seq<char>) -> Seq<char> {
    if ends_a_line(contents) {
        line + seq!['\n']
    } else {
        seq!['\n'] + line + seq!['\n']
    }
}

/// Where the appended line starts in the file that it was appended to.
pub open spec fn appended_line_start(contents: Seq<char>) -> int {
    if ends_a_line(contents) {
        contents.len() as int
    } else {
        contents.len() as int + 1
    }
}

/// `text` holds no newline.
pub open spec fn has_no_newline(text: Seq<char>) -> bool {
    forall|i: int| 0 <= i < text.len() ==> #[trigger] text[i] != '\n'
}

/// What a startup file holds once the installer has run on it: the line is
/// appended, on a line of its own, unless it occurs in the file already.
pub open spec fn installed(contents: Seq<char>, line: Seq<char>) -> Seq<char> {
    if contains_seq(contents, line) {
        contents
    } else {
        contents + appended_text(contents, line)
    }
}

/// Tells zsh from bash by the value of the shell-identifier variable.
pub fn classify_shell(value: &str) -> (shell: Shell)
    ensures
        shell == classify_shell_spec(value@),
        shell == Shell::Zsh <==> contains_seq(value@, "zsh"@),
{
    if str_contains(value, "zsh") {
        Shell::Zsh
    } else {
        Shell::Bash
    }
}

impl Shell {
    /// The name of the startup file in the home directory: `.bashrc` or
    /// `.zshrc`.
    pub fn startup_file_name(&self) -> (name: &'static str)
        ensures
            name@ == startup_file_name_spec(*self),
    {
        match self {
            Shell::Bash => ".bashrc",
            Shell::Zsh => ".zshrc",
        }
    }

    /// The message that reports the generated script.
    pub fn generated_message(&self) -> (message: &'static str)
        ensures
            message@ == match *self {
                Shell::Bash => "Generated Bash completion script."@,
                Shell::Zsh => "Generated Zsh completion script."@,
            },
    {
        match self {
            Shell::Bash => "Generated Bash completion script.",
            Shell::Zsh => "Generated Zsh completion script.",
        }
    }
}

/// Joins a directory and the name of an entry in it.
pub fn join_path(dir: &str, name: &str) -> (path: String)
    ensures
        path@ == join_path_spec(dir@, name@),
{
    let dir_chars = to_chars(dir);
    let mut path = String::from_str(dir);
    if dir_chars.len() > 0 && dir_chars[dir_chars.len() - 1] != '/' {
        proof {
            reveal_strlit("/");
            assert("/"@ =~= seq!['/']);
        }
        path.append("/");
    }
    path.append(name);
    path
}

/// The line that makes a shell load the script at `script_path`.
pub fn source_line(script_path: &str) -> (line: String)
    ensures
        line@ == source_line_spec(script_path@),
{
    let mut line = String::from_str("source ");
    line.append(script_path);
    line
}

/// Plans an installation from the value of the shell-identifier variable
/// and the home directory: the shell, the paths of the completion script and
/// of the startup file, both in the home directory, and the line to add.
pub fn add_completion(shell_value: &str, home: &str) -> (plan: InstallPlan)
    ensures
        plan.shell == classify_shell_spec(shell_value@),
        plan.completion_script@ == join_path_spec(home@, script_file_name_spec()),
        plan.startup_file@ == join_path_spec(home@, startup_file_name_spec(plan.shell)),
        plan.source_line@ == source_line_spec(plan.completion_script@),
{
    let shell = classify_shell(shell_value);
    let completion_script = join_path(home, "my_dev_tool_completion");
    let startup_file = join_path(home, shell.startup_file_name());
    let source_line = source_line(completion_script.as_str());
    InstallPlan { shell, completion_script, startup_file, source_line }
}

/// Decides what to do to a startup file with the given contents: nothing
/// where the line occurs in it already, else to append the line on a line of
/// its own. The text to append ends in a newline, and starts with one where
/// the contents do not end a line.
pub fn add_completion_to_shell(contents: &str, line: &str) -> (action: InstallAction)
    ensures
        match action {
            InstallAction::AlreadyAdded => contains_seq(contents@, line@),
            InstallAction::Append(text) => !contains_seq(contents@, line@) && text@
                == appended_text(contents@, line@),
        },
        installed(contents@, line@) == match action {
            InstallAction::AlreadyAdded => contents@,
            InstallAction::Append(text) => contents@ + text@,
        },
{
    let held = to_chars(contents);
    let wanted = to_chars(line);
    if contains_chars(&held, &wanted) {
        return InstallAction::AlreadyAdded;
    }
    proof {
        reveal_strlit("\n");
        assert("\n"@ =~= seq!['\n']);
    }
    let n = held.len();
    let mut text = if n == 0 || held[n - 1] == '\n' {
        String::new()
    } else {
        String::from_str("\n")
    };
    text.append(line);
    text.append("\n");
    assert(text@ =~= appended_text(contents@, line@));
    InstallAction::Append(text)
}

impl InstallAction {
    /// The message that reports the action on the startup file at
    /// `startup_file`.
    pub fn message(&self, startup_file: &str) -> (message: String)
        ensures
            message@ == match *self {
                InstallAction::AlreadyAdded => "Completion script already added to "@
                    + startup_file@ + "."@,
                InstallAction::Append(_) => "Added completion script to "@ + startup_file@ + "."@,
            },
    {
        let mut message = match self {
            InstallAction::AlreadyAdded => String::from_str("Completion script already added to "),
            InstallAction::Append(_) => String::from_str("Added completion script to "),
        };
        message.append(startup_file);
        message.append(".");
        message
    }
}

/// The appended text keeps the old contents and puts the line on a line of
/// its own: it starts at the start of the file or after a newline, and a
/// newline follows it, which ends the file.
pub proof fn lemma_appended_line_stands_alone(contents: Seq<char>, line: Seq<char>)
    ensures
        ({
            let after = contents + appended_text(contents, line);
            let start = appended_line_start(contents);
            &&& after.subrange(0, contents.len() as int) == contents
            &&& occurs_at(after, line, start)
            &&& contains_seq(after, line)
            &&& start == 0 || after[start - 1] == '\n'
            &&& after.len() == start + line.len() + 1
            &&& after.last() == '\n'
        }),
{
    let after = contents + appended_text(contents, line);
    let start = appended_line_start(contents);
    assert(after.subrange(0, contents.len() as int) =~= contents);
    assert(after.subrange(start, start + line.len()) =~= line);
}

/// Appending the line to a file that lacks it puts no copy of the line
/// wholly inside the old contents: every occurrence reaches into the
/// appended text.
pub proof fn lemma_appended_line_is_new(contents: Seq<char>, line: Seq<char>, at: int)
    requires
        !contains_seq(contents, line),
        occurs_at(contents + appended_text(contents, line), line, at),
    ensures
        at + line.len() > contents.len(),
{
    if at + line.len() <= contents.len() {
        let whole = contents + appended_text(contents, line);
        assert(contents.subrange(at, at + line.len()) =~= whole.subrange(at, at + line.len()));
        assert(occurs_at(contents, line, at));
    }
}

/// In a file that lacked a line without a newline in it, the line occurs
/// after the installer's run where it was appended and nowhere else.
pub proof fn lemma_appended_line_occurs_once(contents: Seq<char>, line: Seq<char>, at: int)
    requires
        !contains_seq(contents, line),
        has_no_newline(line),
        occurs_at(installed(contents, line), line, at),
    ensures
        at == appended_line_start(contents),
{
    let after = contents + appended_text(contents, line);
    let start = appended_line_start(contents);
    lemma_appended_line_stands_alone(contents, line);
    lemma_appended_line_is_new(contents, line, at);
    assert(line.len() > 0) by {
        if line.len() == 0 {
            assert(contents.subrange(0, 0) =~= line);
            assert(occurs_at(contents, line, 0));
        }
    }
    let window = after.subrange(at, at + line.len());
    assert(window == line);
    if at < start {
        // The window covers the newline just before the appended line.
        let newline_at = start - 1;
        assert(after[newline_at] == '\n');
        assert(window[newline_at - at] == after[newline_at]);
    } else if at > start {
        // The window covers the newline that ends the file.
        let newline_at = after.len() - 1;
        assert(after[newline_at] == '\n');
        assert(window[newline_at - at] == after[newline_at]);
    }
}

/// The line that loads a script whose path holds no newline holds none.
pub proof fn lemma_source_line_has_no_newline(script_path: Seq<char>)
    requires
        has_no_newline(script_path),
    ensures
        has_no_newline(source_line_spec(script_path)),
{
    reveal_strlit("source ");
    let line = source_line_spec(script_path);
    assert forall|i: int| 0 <= i < line.len() implies #[trigger] line[i] != '\n' by {
        if i >= 7 {
            assert(line[i] == script_path[i - 7]);
        }
    }
}

/// The shell-identifier value decides the startup file: `.zshrc` for a
/// value that mentions `zsh`, `.bashrc` for any other, and so for the empty
/// value.
pub proof fn lemma_startup_file_by_shell_value(value: Seq<char>)
    ensures
        contains_seq(value, "zsh"@) ==> startup_file_name_spec(classify_shell_spec(value))
            == ".zshrc"@,
        !contains_seq(value, "zsh"@) ==> startup_file_name_spec(classify_shell_spec(value))
            == ".bashrc"@,
        value.len() < 3 ==> classify_shell_spec(value) == Shell::Bash,
{
    reveal_strlit("zsh");
    if value.len() < 3 {
        assert forall|at: int| !occurs_at(value, "zsh"@, at) by {}
    }
}

/// Installing is idempotent: after one run the file holds the line, so a
/// second run finds it, reports it as already added and leaves the file as
/// the first run left it. A file that held the line before is never changed.
pub proof fn lemma_install_idempotent(contents: Seq<char>, line: Seq<char>)
    ensures
        contains_seq(installed(contents, line), line),
        installed(installed(contents, line), line) == installed(contents, line),
        contains_seq(contents, line) ==> installed(contents, line) == contents,
        !contains_seq(contents, line) ==> installed(contents, line) == contents + appended_text(
            contents,
            line,
        ),
{
    if !contains_seq(contents, line) {
        lemma_appended_line_stands_alone(contents, line);
    }
}

/// Two runs of the installer on a file that lacked the line leave the line
/// in it exactly once, where the first run appended it, for every line
/// without a newline in it.
pub proof fn lemma_two_runs_leave_one_line(contents: Seq<char>, line: Seq<char>)
    requires
        !contains_seq(contents, line),
        has_no_newline(line),
    ensures
        ({
            let once = installed(contents, line);
            let twice = installed(once, line);
            &&& twice == once
            &&& forall|at: int| #[trigger]
                occurs_at(twice, line, at) <==> at == appended_line_start(contents)
        }),
{
    let once = installed(contents, line);
    lemma_install_idempotent(contents, line);
    lemma_appended_line_stands_alone(contents, line);
    assert forall|at: int| #[trigger] occurs_at(once, line, at) implies at == appended_line_start(
        contents,
    ) by {
        lemma_appended_line_occurs_once(contents, line, at);
    }
}

} // verus!
