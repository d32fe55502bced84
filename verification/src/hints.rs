//! Warnings about degraded captures, each naming the cause and the fix. They
//! go beside the output, so that a pipe still carries clean text.

use vstd::prelude::*;

use crate::backend::{Backend, Terminal};
use crate::capture::{captures, Capture, CaptureView};
use crate::cli::{Mode, ShellKind};
use crate::state::{base_name, base_of, invokes_tcap, is_tcap_invocation, Record};
use crate::text::{chars_of, copy_of, same, texts};

verus! {

impl ShellKind {
    /// The name of the shell.
    pub open spec fn called(self) -> Seq<char> {
        match self {
            ShellKind::Zsh => "zsh"@,
            ShellKind::Bash => "bash"@,
            ShellKind::Fish => "fish"@,
        }
    }

    /// The name of the shell.
    pub fn name(self) -> (r: &'static str)
        ensures
            r@ == self.called(),
    {
        match self {
            ShellKind::Zsh => "zsh",
            ShellKind::Bash => "bash",
            ShellKind::Fish => "fish",
        }
    }

    /// The file that the shell reads when it starts.
    pub open spec fn startup_file(self) -> Seq<char> {
        match self {
            ShellKind::Zsh => "~/.zshrc"@,
            ShellKind::Bash => "~/.bashrc"@,
            ShellKind::Fish => "~/.config/fish/config.fish"@,
        }
    }

    /// The file that the shell reads when it starts.
    pub fn rc_file(self) -> (r: &'static str)
        ensures
            r@ == self.startup_file(),
    {
        match self {
            ShellKind::Zsh => "~/.zshrc",
            ShellKind::Bash => "~/.bashrc",
            ShellKind::Fish => "~/.config/fish/config.fish",
        }
    }
}

/// The shell that a path names: zsh unless it is one of the others.
pub open spec fn shell_of(path: Option<&str>) -> ShellKind {
    match path {
        Some(p) => if base_name(p@) == "bash"@ {
            ShellKind::Bash
        } else if base_name(p@) == "fish"@ {
            ShellKind::Fish
        } else {
            ShellKind::Zsh
        },
        None => ShellKind::Zsh,
    }
}

/// The user's shell, from the value of `SHELL`.
pub fn detect_shell(path: Option<&str>) -> (r: ShellKind)
    ensures
        r == shell_of(path),
{
    match path {
        Some(p) => {
            let cs = chars_of(p);
            let base = base_of(cs.as_slice());
            if same(base.as_slice(), "bash") {
                ShellKind::Bash
            } else if same(base.as_slice(), "fish") {
                ShellKind::Fish
            } else {
                ShellKind::Zsh
            }
        },
        None => ShellKind::Zsh,
    }
}

/// Whether tcap itself ran most recently: it left its marker during the last
/// command, or the text of the last command says so.
pub open spec fn follows_tcap(records: Seq<Record>) -> bool {
    records.len() > 0 && (records.last().was_capture || invokes_tcap(records.last().command@))
}

/// Whether tcap itself ran most recently.
///
/// Of all records: for the count of commands tcap's own are skipped, but here
/// the question is whether one of them was the last.
pub fn after_tcap(records: &[Record]) -> (r: bool)
    ensures
        r == follows_tcap(records@),
{
    let n: usize = records.len();
    if n == 0 {
        return false;
    }
    let last = &records[n - 1];
    last.was_capture || is_tcap_invocation(last.command.as_str())
}

/// The warning that the output may be the previous capture's.
pub open spec fn own_output(source: Seq<char>) -> Seq<char> {
    "tcap: the previous command was tcap itself, and "@ + source
        + " can only report the\n  last non-empty output \u{2014} so this is most likely the previous capture's\n  own output, or whatever its pipeline printed, rather than a command's.\n  Re-run the command you meant to capture, or use tmux, which records\n  exact boundaries."@
}

/// The warning that nothing is known but the output.
pub open spec fn output_only(shell: ShellKind) -> Seq<char> {
    "tcap: captured output only \u{2014} no command, exit code or duration.\n  Cause: tcap's shell integration is not recording in this session,\n         so there is nothing to annotate the output with.\n  Fix:   add to your "@
        + shell.startup_file() + " then open a new shell:\n           eval \"$(tcap init "@
        + shell.called()
        + ")\"\n  Silence this with --quiet, or run `tcap doctor` for the full picture."@
}

/// The warning that older commands are out of reach.
pub open spec fn no_history(source: Seq<char>) -> Seq<char> {
    "tcap: "@ + source + " can only report its most recent command; -c 2 and beyond need tmux."@
}

/// Whether something is known of one of the commands.
pub open spec fn any_described(caps: Seq<CaptureView>) -> bool {
    exists|i: int| 0 <= i < caps.len() && (#[trigger] caps[i]).described()
}

/// The warnings about a capture, in order.
pub open spec fn warnings(
    caps: Seq<CaptureView>,
    source: Seq<char>,
    bounded: bool,
    deep: bool,
    mode: Mode,
    after_tcap: bool,
    shell: ShellKind,
) -> Seq<Seq<char>> {
    let a = if after_tcap && !bounded {
        seq![own_output(source)]
    } else {
        Seq::empty()
    };
    // Only the annotated view promises metadata, so only it can disappoint.
    if mode != Mode::Annotated || any_described(caps) {
        a
    } else if deep {
        a.push(output_only(shell))
    } else {
        a.push(output_only(shell)).push(no_history(source))
    }
}

/// The warnings about a capture, in order.
///
/// A terminal without real command boundaries returns the last *non-empty*
/// output. tcap's own output is non-empty, so a capture straight after another
/// one hands back the previous capture rather than a command. That older
/// commands are out of reach is mentioned only when something is missing
/// already.
pub fn emit_hints(
    caps: &[Capture],
    backend: &Terminal,
    mode: Mode,
    after_tcap: bool,
    shell: ShellKind,
) -> (r: Vec<String>)
    ensures
        texts(r@) == warnings(
            captures(caps@),
            backend.called(),
            backend.bounded(),
            backend.reaches_back(),
            mode,
            after_tcap,
            shell,
        ),
{
    let mut out: Vec<String> = Vec::new();
    assert(texts(out@) == Seq::<Seq<char>>::empty());
    if after_tcap && !backend.has_command_boundaries() {
        let mut s = copy_of("tcap: the previous command was tcap itself, and ");
        s.append(backend.name());
        s.append(
            " can only report the\n  last non-empty output \u{2014} so this is most likely the previous capture's\n  own output, or whatever its pipeline printed, rather than a command's.\n  Re-run the command you meant to capture, or use tmux, which records\n  exact boundaries.",
        );
        out.push(s);
        assert(texts(out@) == seq![s@]);
    }
    if mode != Mode::Annotated {
        return out;
    }
    let ghost views = captures(caps@);
    let mut i: usize = 0;
    while i < caps.len()
        invariant
            i <= caps@.len(),
            views == captures(caps@),
            forall|j: int| 0 <= j < i ==> !(#[trigger] views[j]).described(),
            mode == Mode::Annotated,
            texts(out@) == (if after_tcap && !backend.bounded() {
                seq![own_output(backend.called())]
            } else {
                Seq::empty()
            }),
        decreases caps@.len() - i,
    {
        assert(views[i as int] == caps@[i as int]@);
        if caps[i].has_metadata() {
            assert(any_described(views));
            return out;
        }
        i = i + 1;
    }
    assert(!any_described(views));
    let mut s = copy_of(
        "tcap: captured output only \u{2014} no command, exit code or duration.\n  Cause: tcap's shell integration is not recording in this session,\n         so there is nothing to annotate the output with.\n  Fix:   add to your ",
    );
    s.append(shell.rc_file());
    s.append(" then open a new shell:\n           eval \"$(tcap init ");
    s.append(shell.name());
    s.append(")\"\n  Silence this with --quiet, or run `tcap doctor` for the full picture.");
    let ghost before = out@;
    out.push(s);
    assert(texts(out@) == texts(before).push(s@));
    if !backend.supports_history() {
        let mut s = copy_of("tcap: ");
        s.append(backend.name());
        s.append(" can only report its most recent command; -c 2 and beyond need tmux.");
        let ghost before = out@;
        out.push(s);
        assert(texts(out@) == texts(before).push(s@));
    }
    out
}

// ---------------------------------------------------------------------------
// Laws
// ---------------------------------------------------------------------------

/// A capture of a terminal with real boundaries gives no warning where
/// something is known of it, or where nothing is promised of it.
pub proof fn law_full_captures_give_no_warning(
    caps: Seq<CaptureView>,
    source: Seq<char>,
    deep: bool,
    mode: Mode,
    after_tcap: bool,
    shell: ShellKind,
)
    requires
        mode != Mode::Annotated || any_described(caps),
    ensures
        warnings(caps, source, true, deep, mode, after_tcap, shell).len() == 0,
{
}

/// A capture straight after another one is warned about in every mode, where
/// the terminal has no real boundaries.
pub proof fn law_a_capture_after_a_capture_is_warned_about(
    caps: Seq<CaptureView>,
    source: Seq<char>,
    deep: bool,
    mode: Mode,
    shell: ShellKind,
)
    ensures
        warnings(caps, source, false, deep, mode, true, shell).len() > 0,
        warnings(caps, source, false, deep, mode, true, shell)[0] == own_output(source),
{
}

/// The warnings, all of them and in order, by what calls for each: tcap before
/// this capture where the boundaries are not known; nothing known of any command
/// where that was promised; and, along with that, a terminal that cannot reach
/// back.
pub proof fn law_what_calls_for_a_warning(
    caps: Seq<CaptureView>,
    source: Seq<char>,
    bounded: bool,
    deep: bool,
    mode: Mode,
    after_tcap: bool,
    shell: ShellKind,
)
    ensures
        ({
            let own = after_tcap && !bounded;
            let bare = mode == Mode::Annotated && forall|i: int|
                0 <= i < caps.len() ==> (#[trigger] caps[i]).command is None && caps[i].exit_code
                    is None && caps[i].cwd is None && caps[i].duration_ms is None;
            let told = warnings(caps, source, bounded, deep, mode, after_tcap, shell);
            &&& !own && !bare ==> told.len() == 0
            &&& own && !bare ==> told == seq![own_output(source)]
            &&& !own && bare && deep ==> told == seq![output_only(shell)]
            &&& !own && bare && !deep ==> told == seq![output_only(shell), no_history(source)]
            &&& own && bare && deep ==> told == seq![own_output(source), output_only(shell)]
            &&& own && bare && !deep ==> told == seq![
                own_output(source),
                output_only(shell),
                no_history(source),
            ]
        }),
{
    if any_described(caps) {
        let i = choose|i: int| 0 <= i < caps.len() && (#[trigger] caps[i]).described();
        assert(!(caps[i].command is None && caps[i].exit_code is None && caps[i].cwd is None
            && caps[i].duration_ms is None));
    } else {
        assert forall|i: int| 0 <= i < caps.len() implies (#[trigger] caps[i]).command is None
            && caps[i].exit_code is None && caps[i].cwd is None && caps[i].duration_ms is None by {
            assert(!caps[i].described());
        }
    }
}

/// The warning that nothing is known gives the line to add, for the user's own
/// shell and its own file; the other two name the terminal.
pub proof fn law_warnings_name_the_fix(source: Seq<char>)
    ensures
        ({
            let fix = |file: Seq<char>, shell: Seq<char>|
                "tcap: captured output only \u{2014} no command, exit code or duration.\n  Cause: tcap's shell integration is not recording in this session,\n         so there is nothing to annotate the output with.\n  Fix:   add to your "@
                    + file + " then open a new shell:\n           eval \"$(tcap init "@ + shell
                    + ")\"\n  Silence this with --quiet, or run `tcap doctor` for the full picture."@;
            &&& output_only(ShellKind::Zsh) == fix("~/.zshrc"@, "zsh"@)
            &&& output_only(ShellKind::Bash) == fix("~/.bashrc"@, "bash"@)
            &&& output_only(ShellKind::Fish) == fix("~/.config/fish/config.fish"@, "fish"@)
        }),
        no_history(source) == "tcap: "@ + source
            + " can only report its most recent command; -c 2 and beyond need tmux."@,
        exists|end: Seq<char>|
            own_output(source) == "tcap: the previous command was tcap itself, and "@ + source
                + #[trigger] (" can only report the\n"@ + end),
{
    let first = " can only report the\n"@;
    let whole =
        " can only report the\n  last non-empty output \u{2014} so this is most likely the previous capture's\n  own output, or whatever its pipeline printed, rather than a command's.\n  Re-run the command you meant to capture, or use tmux, which records\n  exact boundaries."@;
    reveal_strlit(" can only report the\n");
    reveal_strlit(
        " can only report the\n  last non-empty output \u{2014} so this is most likely the previous capture's\n  own output, or whatever its pipeline printed, rather than a command's.\n  Re-run the command you meant to capture, or use tmux, which records\n  exact boundaries.",
    );
    let end = whole.skip(first.len() as int);
    assert(whole == first + end);
}

/// The last record alone decides whether tcap ran most recently, by its mark or
/// by its text, however many there are.
pub proof fn law_only_the_last_record_counts(records: Seq<Record>, last: Record)
    ensures
        follows_tcap(records.push(last)) == (last.was_capture || invokes_tcap(last.command@)),
        !follows_tcap(Seq::empty()),
{
    assert(records.push(last).last() == last);
}

/// The shell is told by the last part of its path, and is zsh where that is
/// neither bash nor fish, or where there is none.
pub proof fn law_the_shell_is_told_by_its_name(path: &str)
    ensures
        shell_of(Some(path)) == ShellKind::Bash <==> base_name(path@) == "bash"@,
        shell_of(Some(path)) == ShellKind::Fish <==> base_name(path@) == "fish"@,
        shell_of(None) == ShellKind::Zsh,
{
    reveal_strlit("bash");
    reveal_strlit("fish");
    assert("bash"@[0] == 'b' && "fish"@[0] == 'f');
}

} // verus!
