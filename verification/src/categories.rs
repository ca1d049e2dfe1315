use vstd::prelude::*;
use vstd::string::StrSliceExecFns;
use crate::flog::category_t;

verus! {

/// What a category holds: its name, its description, and whether it is
/// enabled.
pub open spec fn category_view(c: category_t) -> (Seq<char>, Seq<char>, bool) {
    (c.name@, c.description@, c.enabled)
}

/// What the categories of a table hold, in order.
pub open spec fn table_view(table: Seq<category_t>) -> Seq<(Seq<char>, Seq<char>, bool)> {
    table.map_values(|c: category_t| category_view(c))
}

/// The categories that exist, each with its description and with whether it
/// is enabled from the start.
pub open spec fn default_categories() -> Seq<(Seq<char>, Seq<char>, bool)> {
    seq![
        ("error"@, "Serious unexpected errors (on by default)"@, true),
        ("debug"@, "Debugging aid (on by default)"@, true),
        ("warning"@, "Warnings (on by default)"@, true),
        ("warning-path"@, "Warnings about unusable paths for config/history (on by default)"@, true),
        ("config"@, "Finding and reading configuration"@, false),
        ("event"@, "Firing events"@, false),
        ("exec"@, "Errors reported by exec (on by default)"@, true),
        ("exec-job-status"@, "Jobs changing status"@, false),
        ("exec-job-exec"@, "Jobs being executed"@, false),
        ("exec-fork"@, "Calls to fork()"@, false),
        ("output-invalid"@, "Trying to print invalid output"@, false),
        ("ast-construction"@, "Parsing fish AST"@, false),
        ("proc-job-run"@, "Jobs getting started or continued"@, false),
        ("proc-termowner"@, "Terminal ownership events"@, false),
        ("proc-internal-proc"@, "Internal (non-forked) process events"@, false),
        ("proc-reap-internal"@, "Reaping internal (non-forked) processes"@, false),
        ("proc-reap-external"@, "Reaping external (forked) processes"@, false),
        ("proc-pgroup"@, "Process groups"@, false),
        ("env-locale"@, "Changes to locale variables"@, false),
        ("env-export"@, "Changes to exported variables"@, false),
        ("env-dispatch"@, "Reacting to variables"@, false),
        ("uvar-file"@, "Writing/reading the universal variable store"@, false),
        ("uvar-notifier"@, "Notifications about universal variable changes"@, false),
        ("topic-monitor"@, "Internal details of the topic monitor"@, false),
        ("char-encoding"@, "Character encoding issues"@, false),
        ("history"@, "Command history events"@, false),
        ("history-file"@, "Reading/Writing the history file"@, false),
        ("profile-history"@, "History performance measurements"@, false),
        ("iothread"@, "Background IO thread events"@, false),
        ("fd-monitor"@, "FD monitor events"@, false),
        ("term-support"@, "Terminal feature detection"@, false),
        ("reader"@, "The interactive reader/input system"@, false),
        ("reader-render"@, "Rendering the command line"@, false),
        ("complete"@, "The completion system"@, false),
        ("path"@, "Searching/using paths"@, false),
        ("screen"@, "Screen repaints"@, false),
    ]
}

/// The characters of a string.
pub fn chars_of(s: &str) -> (r: Vec<char>)
    ensures
        r@ == s@,
{
    let n: usize = s.unicode_len();
    let mut r: Vec<char> = Vec::new();
    let mut i: usize = 0;
    while i < n
        invariant
            i <= n,
            n == s@.len(),
            r@ == s@.take(i as int),
        decreases n - i,
    {
        r.push(s.get_char(i));
        assert(r@ =~= s@.take(i + 1));
        i += 1;
    }
    assert(s@.take(n as int) =~= s@);
    r
}

/// A category with the given name, description and state.
pub fn category(name: &str, description: &str, enabled: bool) -> (c: category_t)
    ensures
        category_view(c) == (name@, description@, enabled),
{
    category_t { name: chars_of(name), description: chars_of(description), enabled }
}

/// A fresh table of all the categories, each in the state it starts in.
pub fn all_categories() -> (table: Vec<category_t>)
    ensures
        table_view(table@) == default_categories(),
{
    let mut table: Vec<category_t> = Vec::new();
    table.push(category("error", "Serious unexpected errors (on by default)", true));
    table.push(category("debug", "Debugging aid (on by default)", true));
    table.push(category("warning", "Warnings (on by default)", true));
    table.push(category("warning-path", "Warnings about unusable paths for config/history (on by default)", true));
    table.push(category("config", "Finding and reading configuration", false));
    table.push(category("event", "Firing events", false));
    table.push(category("exec", "Errors reported by exec (on by default)", true));
    table.push(category("exec-job-status", "Jobs changing status", false));
    table.push(category("exec-job-exec", "Jobs being executed", false));
    table.push(category("exec-fork", "Calls to fork()", false));
    table.push(category("output-invalid", "Trying to print invalid output", false));
    table.push(category("ast-construction", "Parsing fish AST", false));
    table.push(category("proc-job-run", "Jobs getting started or continued", false));
    table.push(category("proc-termowner", "Terminal ownership events", false));
    table.push(category("proc-internal-proc", "Internal (non-forked) process events", false));
    table.push(category("proc-reap-internal", "Reaping internal (non-forked) processes", false));
    table.push(category("proc-reap-external", "Reaping external (forked) processes", false));
    table.push(category("proc-pgroup", "Process groups", false));
    table.push(category("env-locale", "Changes to locale variables", false));
    table.push(category("env-export", "Changes to exported variables", false));
    table.push(category("env-dispatch", "Reacting to variables", false));
    table.push(category("uvar-file", "Writing/reading the universal variable store", false));
    table.push(category("uvar-notifier", "Notifications about universal variable changes", false));
    table.push(category("topic-monitor", "Internal details of the topic monitor", false));
    table.push(category("char-encoding", "Character encoding issues", false));
    table.push(category("history", "Command history events", false));
    table.push(category("history-file", "Reading/Writing the history file", false));
    table.push(category("profile-history", "History performance measurements", false));
    table.push(category("iothread", "Background IO thread events", false));
    table.push(category("fd-monitor", "FD monitor events", false));
    table.push(category("term-support", "Terminal feature detection", false));
    table.push(category("reader", "The interactive reader/input system", false));
    table.push(category("reader-render", "Rendering the command line", false));
    table.push(category("complete", "The completion system", false));
    table.push(category("path", "Searching/using paths", false));
    table.push(category("screen", "Screen repaints", false));
    assert(table_view(table@) =~= default_categories());
    table
}

} // verus!
