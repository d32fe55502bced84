//! Per-session command history recorded by the shell integration.
//!
//! Terminals report neither exit code, cwd, duration, nor (for tmux) where one
//! command's output ends, so the shell hooks record each command after it ran.
//!
//! The log holds one entry per line: appending keeps the hook cheap, and
//! compaction past [`COMPACT_AT`] bounds the file in a long-lived shell.

use vstd::prelude::*;
use vstd::string::StringSliceAdditionalSpecFns;
use vstd::utf8::encode_utf8;

use crate::config::{below, push_name};
use crate::failure::{caused_failure, chain_text, plain_failure, Failure, FailureView};
use crate::text::{
    blank, chars_of, copy_of, decimal, decimal_of, free_of, has_char, is_blank, join, join_pieces,
    lines, lines_of, opt_text, piece, pieces, same, split, split_at, string_of, texts, words,
    words_of, Delimiter,
};

verus! {

/// Entries retained when the log is compacted. Comfortably exceeds the largest
/// `-c` anyone would plausibly type.
pub const KEEP: usize = 40;

/// The log is compacted once it exceeds this many lines.
pub const COMPACT_AT: usize = 120;

/// One command that was run.
#[derive(Clone, Debug)]
pub struct Record {
    pub command: String,
    pub exit_code: Option<i32>,
    pub cwd: Option<String>,
    pub duration_ms: Option<u64>,
    /// Absolute scrollback coordinate (`history_size + cursor_y`) of the first
    /// line of output.
    pub start_line: Option<i64>,
    /// That of the last line of output.
    pub end_line: Option<i64>,
    /// Set when tcap performed a capture during this command.
    ///
    /// Recorded by the hook rather than inferred from the command text, so it
    /// holds for an alias, a shell function or any other spelling that text
    /// matching cannot see.
    pub was_capture: bool,
}

/// What a [`Record`] holds.
#[verifier::ext_equal]
pub struct RecordView {
    pub command: Seq<char>,
    pub exit_code: Option<i32>,
    pub cwd: Option<Seq<char>>,
    pub duration_ms: Option<u64>,
    pub start_line: Option<i64>,
    pub end_line: Option<i64>,
    pub was_capture: bool,
}

impl View for Record {
    type V = RecordView;

    open spec fn view(&self) -> RecordView {
        RecordView {
            command: self.command@,
            exit_code: self.exit_code,
            cwd: opt_text(self.cwd),
            duration_ms: self.duration_ms,
            start_line: self.start_line,
            end_line: self.end_line,
            was_capture: self.was_capture,
        }
    }
}

impl Record {
    /// The record of a command that has just finished.
    ///
    /// `start_anchor` is where its output started, known inside tmux only;
    /// `end_line`, where its output ended, means nothing without that.
    /// `was_capture` says whether a capture left its marker meanwhile.
    pub fn assemble(
        command: String,
        exit_code: Option<i32>,
        cwd: Option<String>,
        duration_ms: Option<u64>,
        start_anchor: Option<i64>,
        end_line: Option<i64>,
        was_capture: bool,
    ) -> (r: Record)
        ensures
            r@ == (RecordView {
                command: command@,
                exit_code,
                cwd: opt_text(cwd),
                duration_ms,
                start_line: start_anchor,
                end_line: if start_anchor is Some {
                    end_line
                } else {
                    None
                },
                was_capture,
            }),
    {
        let (start_line, end_line) = match start_anchor {
            Some(anchor) => (Some(anchor), end_line),
            None => (None, None),
        };
        Record { command, exit_code, cwd, duration_ms, start_line, end_line, was_capture }
    }
}

// ---------------------------------------------------------------------------
// Recognising tcap itself
// ---------------------------------------------------------------------------

/// The last component of a path.
pub open spec fn base_name(w: Seq<char>) -> Seq<char> {
    split(w, Delimiter::Char('/')).last()
}

/// Whether `b` is a command that runs the command behind it.
pub open spec fn is_wrapper(b: Seq<char>) -> bool {
    b == "command"@ || b == "builtin"@ || b == "exec"@ || b == "env"@ || b == "nohup"@ || b
        == "time"@
}

/// Whether the word `w` stands before the command proper: an assignment or a
/// wrapper.
pub open spec fn precedes_command(w: Seq<char>) -> bool {
    (w.contains('=') && w.first() != '=') || is_wrapper(base_name(w))
}

/// `s` without the backslashes at its start.
pub open spec fn unescaped(s: Seq<char>) -> Seq<char>
    decreases s.len(),
{
    if s.len() > 0 && s.first() == '\\' {
        unescaped(s.drop_first())
    } else {
        s
    }
}

/// Whether the command that these words run is tcap.
pub open spec fn runs_tcap(ws: Seq<Seq<char>>) -> bool
    decreases ws.len(),
{
    if ws.len() == 0 {
        false
    } else if precedes_command(ws.first()) {
        runs_tcap(ws.drop_first())
    } else {
        unescaped(base_name(ws.first())) == "tcap"@
    }
}

/// Whether one of the commands of a shell line is tcap.
pub open spec fn invokes_tcap(cmd: Seq<char>) -> bool {
    let segments = split(cmd, Delimiter::ShellOperator);
    exists|i: int| 0 <= i < segments.len() && runs_tcap(words(#[trigger] segments[i]))
}

/// The last component of a path.
pub(crate) fn base_of(w: &[char]) -> (r: Vec<char>)
    ensures
        r@ == base_name(w@),
{
    let mut parts = split_at(w, Delimiter::Char('/'));
    let ghost all = pieces(parts@);
    match parts.pop() {
        Some(last) => {
            assert(all.last() == last@);
            last
        },
        None => Vec::new(),
    }
}

/// Whether the command that these words run is tcap.
fn is_tcap_command(ws: &[Vec<char>]) -> (r: bool)
    ensures
        r == runs_tcap(pieces(ws@)),
{
    let ghost all = pieces(ws@);
    let mut i: usize = 0;
    assert(all.skip(0) == all);
    while i < ws.len()
        invariant
            i <= ws@.len(),
            all == pieces(ws@),
            runs_tcap(all) == runs_tcap(all.skip(i as int)),
        decreases ws@.len() - i,
    {
        let w = ws[i].as_slice();
        assert(all.skip(i as int).first() == w@);
        assert(all.skip(i as int).drop_first() == all.skip(i + 1));
        let base = base_of(w);
        let b = base.as_slice();
        let assigns = has_char(w, '=') && w[0] != '=';
        let wraps = same(b, "command") || same(b, "builtin") || same(b, "exec") || same(b, "env")
            || same(b, "nohup") || same(b, "time");
        if !(assigns || wraps) {
            let mut k: usize = 0;
            assert(base@.skip(0) == base@);
            while k < base.len() && base[k] == '\\'
                invariant
                    k <= base@.len(),
                    unescaped(base@) == unescaped(base@.skip(k as int)),
                decreases base@.len() - k,
            {
                assert(base@.skip(k as int).drop_first() == base@.skip(k + 1));
                k = k + 1;
            }
            let name = piece(b, k, base.len());
            assert(name@ == base@.skip(k as int));
            return same(name.as_slice(), "tcap");
        }
        i = i + 1;
    }
    false
}

/// Whether `cmd` runs tcap. `-c` counts real commands, so `tcap -c 1` must
/// mean "the command I just ran", never a previous capture.
///
/// Text matching only, so it cannot see an alias or a shell function; for
/// those there is [`Record::was_capture`]. It looks past leading `VAR=value`
/// assignments and the usual wrappers.
pub fn is_tcap_invocation(cmd: &str) -> (r: bool)
    ensures
        r == invokes_tcap(cmd@),
{
    let cs = chars_of(cmd);
    let segments = split_at(cs.as_slice(), Delimiter::ShellOperator);
    let ghost all = pieces(segments@);
    let mut i: usize = 0;
    while i < segments.len()
        invariant
            i <= segments@.len(),
            all == pieces(segments@),
            all == split(cmd@, Delimiter::ShellOperator),
            forall|j: int| 0 <= j < i ==> !runs_tcap(words(#[trigger] all[j])),
        decreases segments@.len() - i,
    {
        let ws = words_of(segments[i].as_slice());
        assert(all[i as int] == segments@[i as int]@);
        if is_tcap_command(ws.as_slice()) {
            assert(runs_tcap(words(split(cmd@, Delimiter::ShellOperator)[i as int])));
            return true;
        }
        i = i + 1;
    }
    false
}

// ---------------------------------------------------------------------------
// Counting back
// ---------------------------------------------------------------------------

/// The records that are not tcap's own.
pub open spec fn real_commands(records: Seq<Record>) -> Seq<Record>
    decreases records.len(),
{
    if records.len() == 0 {
        records
    } else if invokes_tcap(records.last().command@) {
        real_commands(records.drop_last())
    } else {
        real_commands(records.drop_last()).push(records.last())
    }
}

/// The `n`th real command counting back from the most recent. There is no 0th:
/// 0 counts as 1.
pub open spec fn nth_back(records: Seq<Record>, n: usize) -> Option<Record> {
    let counted = real_commands(records);
    let back = crate::cli::at_least_one(n);
    if back <= counted.len() {
        Some(counted[counted.len() - back])
    } else {
        None
    }
}

/// The `n`th real command counting back from the most recent (`n == 1` is the
/// last command), with tcap invocations skipped.
///
/// Deliberately the text check, not `was_capture`, which is also true of a
/// script that happens to call tcap. Skipping those would silently return the
/// command before them.
pub fn nth_from_end(records: &[Record], n: usize) -> (r: Option<&Record>)
    ensures
        match nth_back(records@, n) {
            Some(rec) => r == Some(&rec),
            None => r is None,
        },
{
    let mut left: usize = crate::cli::one_or_more(n);
    let mut end: usize = records.len();
    assert(records@.take(end as int) == records@);
    while end > 0
        invariant
            end <= records@.len(),
            left >= 1,
            ({
                let counted = real_commands(records@);
                let part = real_commands(records@.take(end as int));
                let back = crate::cli::at_least_one(n);
                &&& part.len() <= counted.len()
                &&& part == counted.take(part.len() as int)
                &&& counted.len() - part.len() == back - left
            }),
        decreases end,
    {
        let ghost part = records@.take(end as int);
        assert(part.drop_last() == records@.take(end - 1));
        assert(part.last() == records@[end - 1]);
        let rec = &records[end - 1];
        if !is_tcap_invocation(rec.command.as_str()) {
            let ghost shorter = real_commands(part.drop_last());
            assert(real_commands(part) == shorter.push(part.last()));
            assert(shorter == real_commands(part).take(shorter.len() as int));
            assert(real_commands(records@)[shorter.len() as int] == real_commands(
                part,
            )[shorter.len() as int]);
            if left == 1 {
                return Some(rec);
            }
            assert(shorter == real_commands(records@).take(shorter.len() as int));
            left = left - 1;
        }
        end = end - 1;
    }
    assert(records@.take(0).len() == 0);
    None
}

/// How many records have pane coordinates.
pub open spec fn located(records: Seq<Record>) -> nat
    decreases records.len(),
{
    if records.len() == 0 {
        0
    } else if records.last().start_line is Some {
        located(records.drop_last()) + 1
    } else {
        located(records.drop_last())
    }
}

/// How many records have pane coordinates.
pub fn count_located(records: &[Record]) -> (r: usize)
    ensures
        r == located(records@),
{
    let mut n: usize = 0;
    let mut i: usize = 0;
    while i < records.len()
        invariant
            i <= records@.len(),
            n <= i,
            n == located(records@.take(i as int)),
        decreases records@.len() - i,
    {
        assert(records@.take(i + 1).drop_last() == records@.take(i as int));
        if records[i].start_line.is_some() {
            n = n + 1;
        }
        i = i + 1;
    }
    assert(records@.take(i as int) == records@);
    n
}

// ---------------------------------------------------------------------------
// The log
// ---------------------------------------------------------------------------

/// The lines that are not blank.
pub open spec fn nonblank(ls: Seq<Seq<char>>) -> Seq<Seq<char>>
    decreases ls.len(),
{
    if ls.len() == 0 {
        ls
    } else if is_blank(ls.last()) {
        nonblank(ls.drop_last())
    } else {
        nonblank(ls.drop_last()).push(ls.last())
    }
}

/// The entries of a log: its lines that are not blank.
pub open spec fn log_entries(text: Seq<char>) -> Seq<Seq<char>> {
    nonblank(lines(text))
}

/// A log after one more entry.
pub open spec fn appended(text: Seq<char>, entry: Seq<char>) -> Seq<char> {
    text + entry + "\n"@
}

/// The last `KEEP` of the lines of a log, one per line.
pub open spec fn compacted(text: Seq<char>) -> Seq<char> {
    let ls = lines(text);
    join(ls.skip(ls.len() - KEEP), "\n"@) + "\n"@
}

/// Whether a log is due for compaction.
pub open spec fn is_overlong(text: Seq<char>) -> bool {
    lines(text).len() > COMPACT_AT
}

/// A log after one more entry, compacted if that made it too long.
pub open spec fn grown(text: Seq<char>, entry: Seq<char>) -> Seq<char> {
    let longer = appended(text, entry);
    if is_overlong(longer) {
        compacted(longer)
    } else {
        longer
    }
}

/// What to add to the log for one entry.
pub fn append(entry: &str) -> (r: String)
    ensures
        r@ == entry@ + "\n"@,
        forall|text: Seq<char>| text + r@ == #[trigger] appended(text, entry@),
{
    let mut s = copy_of(entry);
    s.append("\n");
    assert forall|text: Seq<char>| text + s@ == #[trigger] appended(text, entry@) by {
        assert(text + (entry@ + "\n"@) == text + entry@ + "\n"@);
    }
    s
}

/// The text that replaces the log, if it is due for compaction.
pub fn compact_if_needed(text: &str) -> (r: Option<String>)
    ensures
        is_overlong(text@) ==> r is Some && r->0@ == compacted(text@),
        !is_overlong(text@) ==> r is None,
{
    let ls = lines_of(text);
    if ls.len() <= COMPACT_AT {
        return None;
    }
    let kept = vstd::slice::slice_subrange(ls.as_slice(), ls.len() - KEEP, ls.len());
    assert(pieces(kept@) == lines(text@).skip(lines(text@).len() - KEEP));
    let mut s = join_pieces(kept, "\n");
    s.append("\n");
    Some(s)
}

/// The entries of a log, oldest first.
pub fn load(text: &str) -> (r: Vec<String>)
    ensures
        texts(r@) == log_entries(text@),
{
    let ls = lines_of(text);
    let ghost all = pieces(ls@);
    let mut out: Vec<String> = Vec::new();
    let mut i: usize = 0;
    assert(texts(out@) == nonblank(all.take(0)));
    while i < ls.len()
        invariant
            i <= ls@.len(),
            all == pieces(ls@),
            texts(out@) == nonblank(all.take(i as int)),
        decreases ls@.len() - i,
    {
        assert(all.take(i + 1).drop_last() == all.take(i as int));
        assert(all.take(i + 1).last() == ls@[i as int]@);
        if !blank(ls[i].as_slice()) {
            let s = string_of(ls[i].as_slice());
            let ghost before = out@;
            out.push(s);
            assert(texts(out@) == texts(before).push(s@));
        }
        i = i + 1;
    }
    assert(all.take(all.len() as int) == all);
    out
}

/// The records among the entries of a log: those that could be parsed, in order.
pub open spec fn known(parsed: Seq<Option<Record>>) -> Seq<Record>
    decreases parsed.len(),
{
    if parsed.len() == 0 {
        Seq::empty()
    } else {
        match parsed.last() {
            Some(r) => known(parsed.drop_last()).push(r),
            None => known(parsed.drop_last()),
        }
    }
}

/// The records among the entries of a log, oldest first: an entry that could not
/// be parsed is skipped rather than failing the whole read.
pub fn kept(parsed: Vec<Option<Record>>) -> (r: Vec<Record>)
    ensures
        r@ == known(parsed@),
{
    let ghost all = parsed@;
    let mut out: Vec<Record> = Vec::new();
    assert(all.take(0) == Seq::<Option<Record>>::empty());
    for entry in it: parsed
        invariant
            it.seq() == all,
            out@ == known(all.take(it.index() as int)),
    {
        let ghost n = it.index() as int;
        assert(all.take(n + 1).drop_last() == all.take(n));
        assert(all.take(n + 1).last() == entry);
        if let Some(r) = entry {
            out.push(r);
        }
    }
    assert(all.take(all.len() as int) == all);
    out
}

// ---------------------------------------------------------------------------
// Names
// ---------------------------------------------------------------------------

/// Whether `c` is a letter or a digit of ASCII.
pub open spec fn is_alphanumeric(c: char) -> bool {
    ('a' <= c && c <= 'z') || ('A' <= c && c <= 'Z') || ('0' <= c && c <= '9')
}

/// `c` as it may stand in a file name.
pub open spec fn safe_char(c: char) -> char {
    if is_alphanumeric(c) {
        c
    } else {
        '_'
    }
}

/// `s` as it may stand in a file name.
pub open spec fn safe_name(s: Seq<char>) -> Seq<char> {
    s.map_values(|c: char| safe_char(c))
}

/// `s` with everything but ASCII letters and digits replaced by `_`.
pub fn sanitize(s: &str) -> (r: String)
    ensures
        r@ == safe_name(s@),
{
    let cs = chars_of(s);
    let mut out = String::new();
    let mut i: usize = 0;
    while i < cs.len()
        invariant
            i <= cs@.len(),
            cs@ == s@,
            out@ == safe_name(s@).take(i as int),
        decreases cs@.len() - i,
    {
        let c = cs[i];
        let keep = ('a' <= c && c <= 'z') || ('A' <= c && c <= 'Z') || ('0' <= c && c <= '9');
        out.push(
            if keep {
                c
            } else {
                '_'
            },
        );
        i = i + 1;
        assert(safe_name(s@).take(i as int) == safe_name(s@).take(i - 1).push(
            safe_name(s@)[i - 1],
        ));
    }
    assert(safe_name(s@).take(i as int) == safe_name(s@));
    out
}

/// The values of the environment variables that tell sessions apart, and the
/// process id of the shell.
pub struct SessionEnv {
    pub tmux_pane: Option<String>,
    pub kitty_window_id: Option<String>,
    pub wezterm_pane: Option<String>,
    pub iterm_session_id: Option<String>,
    pub parent_pid: u32,
}

/// Whether an environment variable is set to something.
pub open spec fn is_present(v: Option<String>) -> bool {
    v matches Some(s) && s@.len() > 0
}

/// The key that the variable `name` with the value `v` gives.
pub open spec fn variable_key(name: Seq<char>, v: Option<String>) -> Seq<char> {
    safe_name(name + "-"@ + v->0@)
}

/// The key of a session: of the first variable that is set, or of the shell.
pub open spec fn key_of(env: SessionEnv) -> Seq<char> {
    if is_present(env.tmux_pane) {
        variable_key("TMUX_PANE"@, env.tmux_pane)
    } else if is_present(env.kitty_window_id) {
        variable_key("KITTY_WINDOW_ID"@, env.kitty_window_id)
    } else if is_present(env.wezterm_pane) {
        variable_key("WEZTERM_PANE"@, env.wezterm_pane)
    } else if is_present(env.iterm_session_id) {
        variable_key("ITERM_SESSION_ID"@, env.iterm_session_id)
    } else {
        "ppid-"@ + decimal(env.parent_pid as nat)
    }
}

/// The key that the variable `name` gives, if it is set.
fn key_from(name: &str, v: &Option<String>) -> (r: Option<String>)
    ensures
        is_present(*v) ==> r is Some && r->0@ == variable_key(name@, *v),
        !is_present(*v) ==> r is None,
{
    match v {
        Some(s) => {
            if s.as_str().is_empty() {
                None
            } else {
                let mut k = copy_of(name);
                k.append("-");
                k.append(s.as_str());
                Some(sanitize(k.as_str()))
            }
        },
        None => None,
    }
}

/// Identifies the current terminal session.
///
/// Falls back to the parent process, which is the shell itself, so a session
/// without any of these variables still gets a stable key for its lifetime.
pub fn session_key(env: &SessionEnv) -> (r: String)
    ensures
        r@ == key_of(*env),
{
    if let Some(k) = key_from("TMUX_PANE", &env.tmux_pane) {
        return k;
    }
    if let Some(k) = key_from("KITTY_WINDOW_ID", &env.kitty_window_id) {
        return k;
    }
    if let Some(k) = key_from("WEZTERM_PANE", &env.wezterm_pane) {
        return k;
    }
    if let Some(k) = key_from("ITERM_SESSION_ID", &env.iterm_session_id) {
        return k;
    }
    let mut s = copy_of("ppid-");
    s.append(decimal_of(env.parent_pid as u64).as_str());
    s
}

/// The state directory of a user, below the directory for temporary files.
pub open spec fn state_dir_name(uid: u32) -> Seq<char> {
    "tcap-"@ + decimal(uid as nat)
}

/// The directory for temporary files.
pub open spec fn temporary_dir(tmpdir: Option<&[u8]>) -> Seq<u8> {
    match tmpdir {
        Some(dir) => dir@,
        None => "/tmp".spec_bytes(),
    }
}

/// The directory holding one log per terminal session. `tmpdir` is the value of
/// `TMPDIR`, in place of which `/tmp` serves. The user id matters for `/tmp`,
/// where it keeps one user's captures out of another's directory. Paths are byte
/// strings.
pub fn state_dir(tmpdir: Option<&[u8]>, uid: u32) -> (r: Vec<u8>)
    ensures
        r@ == below(temporary_dir(tmpdir), encode_utf8(state_dir_name(uid))),
{
    let mut dir = match tmpdir {
        Some(dir) => vstd::slice::slice_to_vec(dir),
        None => vstd::slice::slice_to_vec("/tmp".as_bytes()),
    };
    let mut name = copy_of("tcap-");
    name.append(decimal_of(uid as u64).as_str());
    push_name(&mut dir, name.as_str());
    dir
}

/// The path of the session's file in the state directory `dir` that ends in
/// `suffix`.
pub open spec fn session_file(dir: Seq<u8>, key: Seq<char>, suffix: Seq<char>) -> Seq<u8> {
    below(dir, encode_utf8(key + suffix))
}

/// The path of a session's log in the state directory `dir`.
pub fn log_path(dir: &[u8], key: &str) -> (r: Vec<u8>)
    ensures
        r@ == session_file(dir@, key@, ".jsonl"@),
{
    let mut path = vstd::slice::slice_to_vec(dir);
    let mut name = copy_of(key);
    name.append(".jsonl");
    push_name(&mut path, name.as_str());
    path
}

/// The path of the marker that a capture leaves in the state directory `dir` and
/// the next record collects. tcap captures during a command; the hook records
/// that same command when it finishes. So a marker present at that time means
/// that this command is the one that captured, whatever it was called.
pub fn marker_path(dir: &[u8], key: &str) -> (r: Vec<u8>)
    ensures
        r@ == session_file(dir@, key@, ".capturing"@),
{
    let mut path = vstd::slice::slice_to_vec(dir);
    let mut name = copy_of(key);
    name.append(".capturing");
    push_name(&mut path, name.as_str());
    path
}

// ---------------------------------------------------------------------------
// Whether the state directory can be trusted
// ---------------------------------------------------------------------------

/// What came of creating the directory.
pub enum Creation {
    /// It was created, or existed already.
    Done,
    /// It could not be created, for the given reason.
    Failed(String),
}

/// What the directory's own entry says, symbolic links not followed.
#[derive(Clone, Copy)]
pub struct DirFacts {
    pub is_dir: bool,
    pub uid: u32,
    pub mode: u32,
}

/// Whether others than the owner have any permission.
pub open spec fn is_exposed(mode: u32) -> bool {
    mode & 0o077 != 0
}

/// The failure of an operation on `path`.
pub open spec fn operation_failure(
    doing: Seq<char>,
    path: Seq<char>,
    cause: Seq<char>,
) -> FailureView {
    caused_failure(doing + path, cause)
}

/// The failure of an operation on `path`: `doing` names it.
pub fn could_not(doing: &str, path: &str, cause: String) -> (r: Failure)
    ensures
        r@ == operation_failure(doing@, path@, cause@),
{
    let mut m = copy_of(doing);
    m.append(path);
    Failure::caused_by(m, cause)
}

/// Decides whether the state directory `dir` may be used by the user `me`, and
/// whether its permissions have to be tightened first.
///
/// The paths under it are predictable, and may lie in a shared directory.
/// Another user could have created it first, so it has to be a real directory
/// of ours; nothing is changed before that is known, since changing
/// permissions follows symbolic links.
pub fn ensure_state_dir(
    dir: &str,
    created: Creation,
    facts: Result<DirFacts, String>,
    me: u32,
) -> (r: Result<bool, Failure>)
    ensures
        match (created, facts) {
            (Creation::Failed(cause), _) => r is Err && r->Err_0@ == operation_failure(
                "creating "@,
                dir@,
                cause@,
            ),
            (Creation::Done, Err(cause)) => r is Err && r->Err_0@ == operation_failure(
                "checking "@,
                dir@,
                cause@,
            ),
            (Creation::Done, Ok(f)) => if !f.is_dir {
                r is Err && r->Err_0@ == plain_failure(
                    dir@ + " is a symlink or not a directory \u{2014} refusing to use it"@,
                )
            } else if f.uid != me {
                r is Err && r->Err_0@ == plain_failure(
                    dir@ + " is owned by uid "@ + decimal(f.uid as nat)
                        + ", not you \u{2014} refusing to use it"@,
                )
            } else {
                r == Ok::<bool, Failure>(is_exposed(f.mode))
            },
        },
{
    if let Creation::Failed(cause) = created {
        return Err(could_not("creating ", dir, cause));
    }
    match facts {
        Err(cause) => Err(could_not("checking ", dir, cause)),
        Ok(f) => {
            if !f.is_dir {
                let mut m = copy_of(dir);
                m.append(" is a symlink or not a directory \u{2014} refusing to use it");
                return Err(Failure::new(m));
            }
            if f.uid != me {
                let mut m = copy_of(dir);
                m.append(" is owned by uid ");
                m.append(decimal_of(f.uid as u64).as_str());
                m.append(", not you \u{2014} refusing to use it");
                return Err(Failure::new(m));
            }
            Ok(f.mode & 0o077 != 0)
        },
    }
}

/// Why the state directory is unusable, if it is.
///
/// Loading an empty history also switches off what depends on it, so the
/// caller needs to be able to say so rather than behave as though this were a
/// fresh session.
pub fn unusable_reason(checked: &Result<bool, Failure>) -> (r: Option<String>)
    ensures
        match checked {
            Ok(_) => r is None,
            Err(e) => r is Some && r->0@ == chain_text(e@),
        },
{
    match checked {
        Ok(_) => None,
        Err(e) => Some(e.chain()),
    }
}

// ---------------------------------------------------------------------------
// Laws
// ---------------------------------------------------------------------------

/// A run of tcap does not count: the commands before it keep their places.
pub proof fn law_a_capture_does_not_count(records: Seq<Record>, r: Record, n: usize)
    requires
        invokes_tcap(r.command@),
    ensures
        nth_back(records.push(r), n) == nth_back(records, n),
{
    assert(records.push(r).drop_last() == records);
}

/// Any other command is the last one from then on, and the commands before it
/// move back by one.
pub proof fn law_a_command_moves_the_others_back(records: Seq<Record>, r: Record, n: usize)
    requires
        !invokes_tcap(r.command@),
        1 <= n < usize::MAX,
    ensures
        nth_back(records.push(r), 1) == Some(r),
        nth_back(records.push(r), (n + 1) as usize) == nth_back(records, n),
{
    assert(records.push(r).drop_last() == records);
}

/// The command that is found is never tcap itself.
pub proof fn law_a_found_command_is_not_tcap(records: Seq<Record>, n: usize)
    ensures
        nth_back(records, n) matches Some(r) ==> !invokes_tcap(r.command@),
{
    lemma_real_commands(records);
}

proof fn lemma_real_commands(records: Seq<Record>)
    ensures
        forall|i: int|
            0 <= i < real_commands(records).len() ==> !invokes_tcap(
                (#[trigger] real_commands(records)[i]).command@,
            ),
    decreases records.len(),
{
    if records.len() > 0 {
        lemma_real_commands(records.drop_last());
    }
}

/// Only the text of commands decides which one is found: whether a capture was
/// made during a command, by a script for instance, plays no part.
pub proof fn law_only_the_text_decides(a: Seq<Record>, b: Seq<Record>, n: usize)
    requires
        a.len() == b.len(),
        forall|i: int| 0 <= i < a.len() ==> (#[trigger] a[i]).command@ == b[i].command@,
    ensures
        match (nth_back(a, n), nth_back(b, n)) {
            (Some(x), Some(y)) => x.command@ == y.command@,
            (None, None) => true,
            _ => false,
        },
{
    lemma_real_texts(a, b);
}

proof fn lemma_real_texts(a: Seq<Record>, b: Seq<Record>)
    requires
        a.len() == b.len(),
        forall|i: int| 0 <= i < a.len() ==> (#[trigger] a[i]).command@ == b[i].command@,
    ensures
        real_commands(a).len() == real_commands(b).len(),
        forall|i: int|
            0 <= i < real_commands(a).len() ==> (#[trigger] real_commands(a)[i]).command@
                == real_commands(b)[i].command@,
    decreases a.len(),
{
    if a.len() > 0 {
        assert(a[a.len() - 1].command@ == b[b.len() - 1].command@);
        assert forall|i: int| 0 <= i < a.drop_last().len() implies (
        #[trigger] a.drop_last()[i]).command@ == b.drop_last()[i].command@ by {
            assert(a.drop_last()[i] == a[i]);
        }
        lemma_real_texts(a.drop_last(), b.drop_last());
    }
}

/// A line of commands runs tcap exactly when one of its commands does.
pub proof fn law_a_line_runs_tcap_where_a_part_does(a: Seq<char>, op: char, b: Seq<char>)
    requires
        Delimiter::ShellOperator.cuts(op),
    ensures
        invokes_tcap(a.push(op) + b) == (invokes_tcap(a) || invokes_tcap(b)),
{
    let d = Delimiter::ShellOperator;
    let sa = split(a, d);
    let sb = split(b, d);
    let all = split(a.push(op) + b, d);
    crate::text::lemma_split_concat(a, op, b, d);
    if invokes_tcap(a) {
        let i = choose|i: int| 0 <= i < sa.len() && runs_tcap(words(#[trigger] sa[i]));
        assert(all[i] == sa[i]);
    }
    if invokes_tcap(b) {
        let i = choose|i: int| 0 <= i < sb.len() && runs_tcap(words(#[trigger] sb[i]));
        assert(all[sa.len() + i] == sb[i]);
    }
    if invokes_tcap(a.push(op) + b) {
        let i = choose|i: int| 0 <= i < all.len() && runs_tcap(words(#[trigger] all[i]));
        if i < sa.len() {
            assert(all[i] == sa[i]);
        } else {
            assert(all[i] == sb[i - sa.len()]);
        }
    }
}

/// Assignments and wrappers in front of a command are looked past.
pub proof fn law_wrappers_are_looked_past(w: Seq<char>, ws: Seq<Seq<char>>)
    requires
        precedes_command(w),
    ensures
        runs_tcap(seq![w] + ws) == runs_tcap(ws),
{
    assert((seq![w] + ws).drop_first() == ws);
}

/// Whether a log ends where a line does.
pub open spec fn is_ended(text: Seq<char>) -> bool {
    text.len() == 0 || text.last() == '\n'
}

/// Whether a line comes back as it is when it is read from the log.
pub open spec fn is_plain_line(line: Seq<char>) -> bool {
    free_of(line, '\n') && (line.len() > 0 ==> line.last() != '\r')
}

proof fn lemma_ended_lines(front: Seq<Seq<char>>)
    requires
        front.len() > 0,
        forall|i: int| 0 <= i < front.len() ==> free_of(#[trigger] front[i], '\n'),
    ensures
        ({
            let text = join(front, "\n"@) + "\n"@;
            lines(text) == front.map_values(|l: Seq<char>| crate::text::chop_cr(l))
        }),
{
    let d = Delimiter::Char('\n');
    let body = join(front, "\n"@);
    let empty = Seq::<char>::empty();
    reveal_strlit("\n");
    assert("\n"@ == seq!['\n']);
    crate::text::lemma_split_join(front, '\n');
    crate::text::lemma_split_concat(body, '\n', empty, d);
    assert(body.push('\n') + empty == body + "\n"@);
    assert(split(empty, d) == seq![empty]);
    let parts = split(body + "\n"@, d);
    assert(parts == front.push(empty));
    assert(parts.drop_last() == front);
}

/// One more entry is one more line.
proof fn lemma_appended_lines(text: Seq<char>, entry: Seq<char>)
    requires
        is_ended(text),
        free_of(entry, '\n'),
    ensures
        lines(appended(text, entry)) == lines(text).push(crate::text::chop_cr(entry)),
{
    let d = Delimiter::Char('\n');
    let empty = Seq::<char>::empty();
    let chop = |l: Seq<char>| crate::text::chop_cr(l);
    reveal_strlit("\n");
    assert("\n"@ == seq!['\n']);
    assert(split(empty, d) == seq![empty]);
    crate::text::lemma_split_uncut(entry, d);
    crate::text::lemma_split_concat(entry, '\n', empty, d);
    let line = entry.push('\n');
    assert(line + empty == line);
    assert(split(line, d) == seq![entry, empty]);
    if text.len() == 0 {
        assert(appended(text, entry) == line);
        assert(seq![entry, empty].drop_last() == seq![entry]);
        assert(seq![empty].drop_last() == Seq::<Seq<char>>::empty());
        assert(lines(text) == Seq::<Seq<char>>::empty());
        assert(lines(line) == seq![crate::text::chop_cr(entry)]);
    } else {
        let front = text.drop_last();
        let sf = split(front, d);
        assert(text == front.push('\n'));
        crate::text::lemma_split_concat(front, '\n', line, d);
        crate::text::lemma_split_concat(front, '\n', empty, d);
        assert(front.push('\n') + line == appended(text, entry));
        assert(front.push('\n') + empty == text);
        assert((sf + seq![entry, empty]).drop_last() == sf.push(entry));
        assert((sf + seq![empty]).drop_last() == sf);
        assert(sf.push(entry).map_values(chop) == sf.map_values(chop).push(chop(entry)));
    }
}

/// What is recorded is read back: the entries of the log are those before and
/// the new one, which is the newest.
pub proof fn law_a_recorded_entry_is_read_back(text: Seq<char>, entry: Seq<char>)
    requires
        is_ended(text),
        is_plain_line(entry),
        !is_blank(entry),
    ensures
        log_entries(appended(text, entry)) == log_entries(text).push(entry),
        is_ended(appended(text, entry)),
{
    lemma_appended_lines(text, entry);
    reveal_strlit("\n");
    assert(lines(text).push(entry).drop_last() == lines(text));
    assert(appended(text, entry).last() == '\n');
}

/// An entry that cannot be parsed changes nothing, and one that can is the
/// newest record.
pub proof fn law_entries_that_do_not_parse_are_skipped(
    parsed: Seq<Option<Record>>,
    entry: Option<Record>,
)
    ensures
        known(parsed.push(entry)) == match entry {
            Some(r) => known(parsed).push(r),
            None => known(parsed),
        },
{
    assert(parsed.push(entry).drop_last() == parsed);
}

/// Compaction keeps the newest lines, in order. Of the others nothing is asked.
pub proof fn law_compaction_keeps_the_newest(text: Seq<char>)
    requires
        is_overlong(text),
        forall|i: int|
            lines(text).len() - KEEP <= i < lines(text).len() ==> is_plain_line(
                #[trigger] lines(text)[i],
            ),
    ensures
        lines(compacted(text)) == lines(text).skip(lines(text).len() - KEEP),
        is_ended(compacted(text)),
{
    let kept = lines(text).skip(lines(text).len() - KEEP);
    assert forall|i: int| 0 <= i < kept.len() implies free_of(#[trigger] kept[i], '\n') by {
        assert(is_plain_line(lines(text)[lines(text).len() - KEEP + i]));
    }
    lemma_ended_lines(kept);
    assert forall|i: int| 0 <= i < kept.len() implies crate::text::chop_cr(#[trigger] kept[i])
        == kept[i] by {
        assert(is_plain_line(lines(text)[lines(text).len() - KEEP + i]));
    }
    assert(kept.map_values(|l: Seq<char>| crate::text::chop_cr(l)) == kept);
    reveal_strlit("\n");
}

/// No line holds the end of a line.
proof fn lemma_lines_free(text: Seq<char>)
    ensures
        forall|i: int| 0 <= i < lines(text).len() ==> free_of(#[trigger] lines(text)[i], '\n'),
{
    let d = Delimiter::Char('\n');
    let parts = split(text, d);
    crate::text::lemma_split_pieces(text, d);
    crate::text::lemma_split_nonempty(text, d);
    assert forall|i: int| 0 <= i < lines(text).len() implies free_of(
        #[trigger] lines(text)[i],
        '\n',
    ) by {
        let line = lines(text)[i];
        assert(crate::text::is_uncut(parts[i], d));
        assert forall|k: int| 0 <= k < line.len() implies #[trigger] line[k] != '\n' by {
            assert(line[k] == parts[i][k]);
            assert(!d.cuts(parts[i][k]));
        }
    }
}

/// The log never holds more lines after an entry than the limit for compaction,
/// and it always ends where a line does.
pub proof fn law_the_log_stays_short(text: Seq<char>, entry: Seq<char>)
    ensures
        lines(grown(text, entry)).len() <= COMPACT_AT,
        is_ended(grown(text, entry)),
{
    let longer = appended(text, entry);
    reveal_strlit("\n");
    if is_overlong(longer) {
        let kept = lines(longer).skip(lines(longer).len() - KEEP);
        lemma_lines_free(longer);
        assert forall|i: int| 0 <= i < kept.len() implies free_of(#[trigger] kept[i], '\n') by {
            assert(kept[i] == lines(longer)[lines(longer).len() - KEEP + i]);
        }
        lemma_ended_lines(kept);
    } else {
        assert(longer.last() == '\n');
    }
}

/// A log after one more entry holds the lines before it and the entry, or the
/// newest of these where that was too many. Only lines that compaction writes
/// anew have to be plain.
pub proof fn law_a_log_grows_by_the_entry(text: Seq<char>, entry: Seq<char>)
    requires
        is_ended(text),
        is_plain_line(entry),
        is_overlong(appended(text, entry)) ==> forall|i: int|
            lines(text).len() + 1 - KEEP <= i < lines(text).len() ==> is_plain_line(
                #[trigger] lines(text)[i],
            ),
    ensures
        ({
            let all = lines(text).push(entry);
            lines(grown(text, entry)) == if all.len() > COMPACT_AT {
                all.skip(all.len() - KEEP)
            } else {
                all
            }
        }),
{
    let longer = appended(text, entry);
    lemma_appended_lines(text, entry);
    let all = lines(text).push(entry);
    assert(lines(longer) == all);
    if is_overlong(longer) {
        assert forall|i: int|
            lines(longer).len() - KEEP <= i < lines(longer).len() implies is_plain_line(
            #[trigger] lines(longer)[i],
        ) by {
            if i < lines(text).len() {
                assert(lines(longer)[i] == lines(text)[i]);
            }
        }
        law_compaction_keeps_the_newest(longer);
    }
}

/// The newest entry survives compaction.
pub proof fn law_the_newest_entry_survives(text: Seq<char>, entry: Seq<char>)
    requires
        is_ended(text),
        is_plain_line(entry),
        !is_blank(entry),
        is_overlong(appended(text, entry)) ==> forall|i: int|
            lines(text).len() + 1 - KEEP <= i < lines(text).len() ==> is_plain_line(
                #[trigger] lines(text)[i],
            ),
    ensures
        log_entries(grown(text, entry)).len() > 0,
        log_entries(grown(text, entry)).last() == entry,
{
    law_a_log_grows_by_the_entry(text, entry);
    assert(lines(grown(text, entry)).last() == entry);
}

/// Whether `c` may stand in a session key.
pub open spec fn is_key_char(c: char) -> bool {
    is_alphanumeric(c) || c == '_' || c == '-'
}

/// A session key names one file in the state directory: it is not empty and
/// holds only letters, digits, `_` and `-`, whatever the environment holds.
pub proof fn law_session_keys_are_file_names(env: SessionEnv)
    ensures
        key_of(env).len() > 0,
        forall|i: int| 0 <= i < key_of(env).len() ==> is_key_char(#[trigger] key_of(env)[i]),
{
    reveal_strlit("ppid-");
    reveal_strlit("-");
    crate::text::lemma_decimal(env.parent_pid as nat, 0);
    let tail = decimal(env.parent_pid as nat);
    if !is_present(env.tmux_pane) && !is_present(env.kitty_window_id) && !is_present(
        env.wezterm_pane,
    ) && !is_present(env.iterm_session_id) {
        assert forall|i: int| 0 <= i < key_of(env).len() implies is_key_char(
            #[trigger] key_of(env)[i],
        ) by {
            if i >= 5 {
                assert(key_of(env)[i] == tail[i - 5]);
                assert(crate::text::is_digit(tail[i - 5]));
            }
        }
    }
}

/// Every record with coordinates is counted, and no other.
pub proof fn law_records_with_coordinates_are_counted(records: Seq<Record>)
    ensures
        located(records) == records.filter(|r: Record| r.start_line is Some).len(),
    decreases records.len(),
{
    reveal(Seq::filter);
    if records.len() > 0 {
        law_records_with_coordinates_are_counted(records.drop_last());
    }
}

/// A record is seen with all that it holds.
pub proof fn law_records_are_seen_whole(r: Record)
    ensures
        r@.command == r.command@,
        r@.exit_code == r.exit_code,
        r@.cwd is Some == r.cwd is Some,
        r.cwd is Some ==> r@.cwd->0 == r.cwd->0@,
        r@.duration_ms == r.duration_ms,
        r@.start_line == r.start_line,
        r@.end_line == r.end_line,
        r@.was_capture == r.was_capture,
{
}

/// Counting back goes over all commands that are not tcap, however many there
/// are and however far back: the `n`th from the end is found exactly where there
/// are so many. 0 counts as 1.
pub proof fn law_counting_back_misses_nothing(records: Seq<Record>, n: usize)
    ensures
        ({
            let counted = records.filter(|r: Record| !invokes_tcap(r.command@));
            &&& 1 <= n <= counted.len() ==> nth_back(records, n) == Some(
                counted[counted.len() - n],
            )
            &&& n > counted.len() ==> nth_back(records, n) is None
            &&& nth_back(records, 0) == nth_back(records, 1)
        }),
{
    lemma_real_commands_filter(records);
}

proof fn lemma_real_commands_filter(records: Seq<Record>)
    ensures
        real_commands(records) == records.filter(|r: Record| !invokes_tcap(r.command@)),
    decreases records.len(),
{
    reveal(Seq::filter);
    if records.len() > 0 {
        lemma_real_commands_filter(records.drop_last());
    }
}

/// The last part of a path is what stands behind its last slash, or all of it
/// where there is none.
pub proof fn law_the_last_part_of_a_path(dir: Seq<char>, name: Seq<char>)
    requires
        forall|i: int| 0 <= i < name.len() ==> #[trigger] name[i] != '/',
    ensures
        base_name(dir + seq!['/'] + name) == name,
        base_name(name) == name,
{
    let d = Delimiter::Char('/');
    crate::text::lemma_split_uncut(name, d);
    crate::text::lemma_split_concat(dir, '/', name, d);
    assert(dir.push('/') + name == dir + seq!['/'] + name);
}

/// What is looked past: an assignment, which holds `=` behind its first
/// character and does not begin with it, and the commands that run another one,
/// wherever they lie.
pub proof fn law_what_stands_before_a_command(w: Seq<char>)
    requires
        w.len() > 0,
    ensures
        precedes_command(w) <==> (w[0] != '=' && exists|i: int|
            0 < i < w.len() && #[trigger] w[i] == '=') || base_name(w) == "command"@ || base_name(w)
            == "builtin"@ || base_name(w) == "exec"@ || base_name(w) == "env"@ || base_name(w)
            == "nohup"@ || base_name(w) == "time"@,
{
    if w.contains('=') && w[0] != '=' {
        let i = w.index_of('=');
        assert(w[i] == '=');
        assert(0 < i < w.len());
    }
    if w[0] != '=' && exists|i: int| 0 < i < w.len() && #[trigger] w[i] == '=' {
        let i = choose|i: int| 0 < i < w.len() && #[trigger] w[i] == '=';
        assert(w.contains('='));
    }
}

/// Backslashes in front of a name are taken away, all of them and nothing else.
pub proof fn law_backslashes_are_taken_away(s: Seq<char>)
    ensures
        unescaped(seq!['\\'] + s) == unescaped(s),
        s.len() == 0 || s[0] != '\\' ==> unescaped(s) == s,
{
    assert((seq!['\\'] + s).drop_first() == s);
}

/// The command is the first word that is not looked past; it alone decides,
/// whatever its arguments are. Without one, nothing is run.
pub proof fn law_the_command_word_decides(w: Seq<char>, args: Seq<Seq<char>>)
    ensures
        !runs_tcap(Seq::empty()),
        !precedes_command(w) ==> runs_tcap(seq![w] + args) == (unescaped(base_name(w)) == "tcap"@),
{
    assert((seq![w] + args).first() == w);
}

/// A line without operators between commands is one command, made of its words.
pub proof fn law_a_line_without_operators_is_one_command(s: Seq<char>)
    requires
        forall|i: int|
            0 <= i < s.len() ==> !Delimiter::ShellOperator.cuts(#[trigger] s[i]),
    ensures
        invokes_tcap(s) == runs_tcap(words(s)),
{
    crate::text::lemma_split_uncut(s, Delimiter::ShellOperator);
    assert(split(s, Delimiter::ShellOperator)[0] == s);
    if runs_tcap(words(s)) {
        assert(runs_tcap(words(split(s, Delimiter::ShellOperator)[0])));
    }
}

/// The entries of a log are all its lines but those of white space, in order,
/// however many there are.
pub proof fn law_every_entry_is_read(text: Seq<char>)
    ensures
        log_entries(text) == lines(text).filter(
            |l: Seq<char>|
                exists|i: int| 0 <= i < l.len() && !crate::text::is_space(#[trigger] l[i]),
        ),
{
    let p = |l: Seq<char>|
        exists|i: int| 0 <= i < l.len() && !crate::text::is_space(#[trigger] l[i]);
    let q = |l: Seq<char>| !is_blank(l);
    assert forall|l: Seq<char>| #[trigger] p(l) == q(l) by {}
    lemma_nonblank_filter(lines(text), p);
}

proof fn lemma_nonblank_filter(ls: Seq<Seq<char>>, p: spec_fn(Seq<char>) -> bool)
    requires
        forall|l: Seq<char>| #[trigger] p(l) == !is_blank(l),
    ensures
        nonblank(ls) == ls.filter(p),
    decreases ls.len(),
{
    reveal(Seq::filter);
    if ls.len() > 0 {
        lemma_nonblank_filter(ls.drop_last(), p);
    }
}

/// An entry is added behind all that the log holds, with a line end. More than
/// 120 lines are too many, and then the last 40 remain, each with its line end.
pub proof fn law_how_a_log_is_written(text: Seq<char>, entry: Seq<char>)
    ensures
        appended(text, entry) == text + entry + "\n"@,
        ({
            let longer = text + entry + "\n"@;
            let n = lines(longer).len() as int;
            &&& n <= 120 ==> grown(text, entry) == longer
            &&& n > 120 ==> grown(text, entry) == join(
                lines(longer).subrange(n - 40, n),
                "\n"@,
            ) + "\n"@
        }),
{
    let longer = text + entry + "\n"@;
    let n = lines(longer).len() as int;
    if n > 120 {
        assert(lines(longer).skip(n - 40) == lines(longer).subrange(n - 40, n));
    }
}

/// Without entries there are no records.
pub proof fn law_an_empty_log_has_no_records()
    ensures
        known(Seq::empty()).len() == 0,
        log_entries(Seq::empty()).len() == 0,
{
    assert(lines(Seq::empty()).len() == 0);
}

/// A name keeps its length, and each ASCII letter and digit in its place; all
/// else becomes `_`.
pub proof fn law_names_keep_letters_and_digits(s: Seq<char>)
    ensures
        safe_name(s).len() == s.len(),
        forall|i: int|
            0 <= i < s.len() ==> {
                let u = s[i] as int;
                let keep = 0x30 <= u <= 0x39 || 0x41 <= u <= 0x5a || 0x61 <= u <= 0x7a;
                #[trigger] safe_name(s)[i] == if keep {
                    s[i]
                } else {
                    '_'
                }
            },
{
}

/// A session is named after the first of the four variables that is set to
/// something, with its whole value, and else after the shell's process.
pub proof fn law_what_a_session_is_named_after(env: SessionEnv)
    ensures
        ({
            let tmux = env.tmux_pane is Some && env.tmux_pane->0@.len() > 0;
            let kitty = env.kitty_window_id is Some && env.kitty_window_id->0@.len() > 0;
            let wezterm = env.wezterm_pane is Some && env.wezterm_pane->0@.len() > 0;
            let iterm = env.iterm_session_id is Some && env.iterm_session_id->0@.len() > 0;
            &&& tmux ==> key_of(env) == safe_name("TMUX_PANE"@ + "-"@ + env.tmux_pane->0@)
            &&& !tmux && kitty ==> key_of(env) == safe_name(
                "KITTY_WINDOW_ID"@ + "-"@ + env.kitty_window_id->0@,
            )
            &&& !tmux && !kitty && wezterm ==> key_of(env) == safe_name(
                "WEZTERM_PANE"@ + "-"@ + env.wezterm_pane->0@,
            )
            &&& !tmux && !kitty && !wezterm && iterm ==> key_of(env) == safe_name(
                "ITERM_SESSION_ID"@ + "-"@ + env.iterm_session_id->0@,
            )
            &&& !tmux && !kitty && !wezterm && !iterm ==> key_of(env) == "ppid-"@ + decimal(
                env.parent_pid as nat,
            )
        }),
{
}

/// Where files lie: the state directory is named after the user, below `TMPDIR`
/// or `/tmp`; a session's files are named after its key, below that. A slash
/// stands between where none is there yet.
pub proof fn law_where_files_lie(
    uid: u32,
    tmpdir: Option<&[u8]>,
    dir: Seq<u8>,
    key: Seq<char>,
    suffix: Seq<char>,
)
    ensures
        state_dir_name(uid) == "tcap-"@ + decimal(uid as nat),
        tmpdir is Some ==> temporary_dir(tmpdir) == tmpdir->0@,
        tmpdir is None ==> temporary_dir(tmpdir) == "/tmp".spec_bytes(),
        dir.len() > 0 && dir.last() != 0x2f ==> session_file(dir, key, suffix) == dir
            + seq![0x2fu8] + encode_utf8(key + suffix),
        dir.len() == 0 || dir.last() == 0x2f ==> session_file(dir, key, suffix) == dir
            + encode_utf8(key + suffix),
{
    if dir.len() > 0 && dir.last() != 0x2f {
        assert(dir.push(0x2f) == dir + seq![0x2fu8]);
    }
}

/// A directory is exposed where any of the last six permission bits is set, those
/// of the group and of all others.
pub proof fn law_what_exposes_a_directory(mode: u32)
    ensures
        is_exposed(mode) <==> mode % 64 != 0,
        is_exposed(mode) <==> mode & 0o040 != 0 || mode & 0o020 != 0 || mode & 0o010 != 0 || mode
            & 0o004 != 0 || mode & 0o002 != 0 || mode & 0o001 != 0,
{
    assert(mode & 0o077 == mode % 64) by (bit_vector);
    assert((mode & 0o077 != 0) == (mode & 0o040 != 0 || mode & 0o020 != 0 || mode & 0o010 != 0
        || mode & 0o004 != 0 || mode & 0o002 != 0 || mode & 0o001 != 0)) by (bit_vector);
}

/// A failed operation is told with what was done to which path, and the cause.
pub proof fn law_failed_operations_name_the_path(
    doing: Seq<char>,
    path: Seq<char>,
    cause: Seq<char>,
)
    ensures
        operation_failure(doing, path, cause).message == doing + path,
        operation_failure(doing, path, cause).causes == seq![cause],
{
}

} // verus!
