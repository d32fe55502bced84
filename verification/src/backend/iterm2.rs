//! iTerm2 backend.
//!
//! iTerm2 has the richest source of all: its last prompt comes with the
//! command text, its output and the working directory. Its API is driven
//! through a small shim written in Python, which prints what it found and ends
//! with a status that says what was missing.

use vstd::prelude::*;

use super::{
    arg, env_is, findings, good, has_value, no_args, note, replies, wrong, Backend, Checkup,
    CheckupView, Diagnostic, DiagnosticView, Facts, Fetched, Reply, ReplyView, Step, StepView,
    TerminalEnv,
};
use crate::failure::{plain_failure, Failure, FailureView};
use crate::state::Record;
use crate::text::{copy_of, decimal, decimal_of, same_text, texts, trim, trim_text};

verus! {

/// The iTerm2 terminal.
pub struct ITerm2;

/// Whether the environment shows iTerm2.
pub open spec fn is_iterm2(env: TerminalEnv) -> bool {
    has_value(env.term_program, "iTerm.app"@) || has_value(env.lc_terminal, "iTerm2"@)
}

/// The status with which the shim says that its library is missing.
pub const E_NO_MODULE: i32 = 3;

/// The status with which the shim says that there is no prompt.
pub const E_NO_PROMPT: i32 = 4;

/// The status with which the shim says that it cannot reach the API.
pub const E_NO_CONNECT: i32 = 5;

/// What to say when the shim's library is missing.
pub const NO_MODULE: &'static str = "the iTerm2 Python library is missing. Install it with:\n  \
    python3 -m pip install --user iterm2";

/// What to say, before the shim's complaint, when there is no prompt.
pub const NO_PROMPT: &'static str = "iTerm2 has no prompt information for this session.\n\n\
    Install Shell Integration from the iTerm2 menu:\n  \
    iTerm2 > Install Shell Integration\n\n\
    (";

/// What to say, before the shim's complaint, when the API cannot be reached.
pub const NO_CONNECT: &'static str = "could not reach the iTerm2 API.\n\n\
    Enable it under Preferences > General > Magic > \
    \"Enable Python API\",\n\
    and accept the permission prompt the first time tcap runs.\n\n\
    (";

/// How the shim ended.
pub enum ShimEnd {
    /// With what it found.
    Found(Fetched),
    /// With a result that could not be read, for the given reason.
    Unreadable(String),
    /// With a status other than success, if it had one, and a complaint.
    Failed { status: Option<i32>, stderr: String },
    /// It could not be started, for the given reason.
    NotStarted(String),
    /// It could not be put in its place, for the given reason.
    NotPlaced(String),
}

/// What a status of the shim and its complaint mean.
pub open spec fn shim_failure(status: Option<i32>, complaint: Seq<char>) -> FailureView {
    plain_failure(
        if status == Some(E_NO_MODULE) {
            NO_MODULE@
        } else if status == Some(E_NO_PROMPT) {
            NO_PROMPT@ + complaint + ")"@
        } else if status == Some(E_NO_CONNECT) {
            NO_CONNECT@ + complaint + ")"@
        } else {
            "iTerm2 capture failed: "@ + complaint
        },
    )
}

/// What the shim's end means.
pub open spec fn shim_outcome(end: ShimEnd) -> ReplyView {
    match end {
        ShimEnd::Found(f) => Ok(f@),
        ShimEnd::Unreadable(cause) => Err(
            plain_failure("could not parse the iTerm2 shim's output: "@ + cause@),
        ),
        ShimEnd::Failed { status, stderr } => Err(shim_failure(status, trim(stderr@))),
        ShimEnd::NotStarted(cause) => Err(plain_failure("could not run python3: "@ + cause@)),
        ShimEnd::NotPlaced(cause) => Err(plain_failure(cause@)),
    }
}

/// The failure when an older command is asked for.
pub open spec fn too_old(index: usize) -> FailureView {
    plain_failure(
        "iTerm2 exposes only its most recent prompt, so -c "@ + decimal(index as nat)
            + " is not available here.\n\nTo reach further back, run inside tmux."@,
    )
}

/// The arguments with which python3 tells whether the library is there.
pub open spec fn import_line() -> Seq<Seq<char>> {
    seq!["-c"@, "import iterm2"@]
}

/// The findings on an iTerm2 session.
pub open spec fn iterm2_report(
    facts: Facts,
    module: ReplyView,
    shim: ReplyView,
) -> Seq<DiagnosticView> {
    seq![
        good("detected"@, "iTerm2 session"@),
        if facts.on_path {
            good("python3"@, "found on PATH"@)
        } else {
            wrong("python3"@, "not on PATH \u{2014} required for the iTerm2 backend"@)
        },
        if module is Ok {
            good("iterm2 package"@, "importable"@)
        } else {
            wrong(
                "iterm2 package"@,
                "missing \u{2014} install with `python3 -m pip install --user iterm2`"@,
            )
        },
        if facts.iterm_session {
            good("session id"@, "$ITERM_SESSION_ID is set"@)
        } else {
            wrong(
                "session id"@,
                "$ITERM_SESSION_ID unset \u{2014} tcap will fall back to the focused session"@,
            )
        },
        match shim {
            Ok(_) => good("api + shell integration"@, "capture succeeded"@),
            Err(e) => wrong("api + shell integration"@, e.message),
        },
        wrong(
            "history depth"@,
            "iTerm2 serves only the latest command; -c 2 and beyond need tmux"@,
        ),
    ]
}

impl ITerm2 {
    /// Whether the environment shows iTerm2.
    pub fn detect(env: &TerminalEnv) -> (r: bool)
        ensures
            r == is_iterm2(*env),
    {
        env_is(&env.term_program, "iTerm.app") || env_is(&env.lc_terminal, "iTerm2")
    }

    /// A backend.
    pub fn new() -> (r: ITerm2)
        ensures
            r == ITerm2,
    {
        ITerm2
    }

    /// Whether the shim on disk, `existing` if it could be read, has to be
    /// written anew.
    pub fn shim_is_stale(existing: Option<&str>, shim: &str) -> (r: bool)
        ensures
            r == !(existing matches Some(e) && e@ == shim@),
    {
        match existing {
            Some(e) => !same_text(e, shim),
            None => true,
        }
    }

    /// What the shim's end means: the last prompt, or what is missing.
    pub fn call_shim(end: ShimEnd) -> (r: Reply)
        ensures
            super::reply(r) == shim_outcome(end),
    {
        match end {
            ShimEnd::Found(f) => Ok(f),
            ShimEnd::Unreadable(cause) => {
                let mut m = copy_of("could not parse the iTerm2 shim's output: ");
                m.append(cause.as_str());
                Err(Failure::new(m))
            },
            ShimEnd::Failed { status, stderr } => {
                let complaint = trim_text(stderr.as_str());
                let m = match status {
                    Some(3) => copy_of(NO_MODULE),
                    Some(4) => {
                        let mut m = copy_of(NO_PROMPT);
                        m.append(complaint.as_str());
                        m.append(")");
                        m
                    },
                    Some(5) => {
                        let mut m = copy_of(NO_CONNECT);
                        m.append(complaint.as_str());
                        m.append(")");
                        m
                    },
                    _ => {
                        let mut m = copy_of("iTerm2 capture failed: ");
                        m.append(complaint.as_str());
                        m
                    },
                };
                Err(Failure::new(m))
            },
            ShimEnd::NotStarted(cause) => {
                let mut m = copy_of("could not run python3: ");
                m.append(cause.as_str());
                Err(Failure::new(m))
            },
            ShimEnd::NotPlaced(cause) => Err(Failure::new(cause)),
        }
    }
}

impl Backend for ITerm2 {
    open spec fn called(&self) -> Seq<char> {
        "iterm2"@
    }

    open spec fn looked_for(&self) -> Option<Seq<char>> {
        Some("python3"@)
    }

    open spec fn reaches_back(&self) -> bool {
        false
    }

    open spec fn bounded(&self) -> bool {
        true
    }

    open spec fn fetch_step(
        &self,
        index: usize,
        rec: Option<Record>,
        raw: bool,
        heard: Seq<ReplyView>,
    ) -> StepView {
        if index > 1 {
            StepView::Failed(too_old(index))
        } else if heard.len() == 0 {
            StepView::Shim { ansi: raw }
        } else {
            match heard[0] {
                Ok(f) => StepView::Done(f),
                Err(e) => StepView::Failed(e),
            }
        }
    }

    open spec fn diagnose_step(&self, facts: Facts, heard: Seq<ReplyView>) -> CheckupView {
        if heard.len() == 0 {
            CheckupView::Run { program: "python3"@, args: import_line() }
        } else if heard.len() == 1 {
            CheckupView::Shim { ansi: false }
        } else {
            CheckupView::Report(iterm2_report(facts, heard[0], heard[1]))
        }
    }

    fn name(&self) -> (r: &'static str) {
        "iterm2"
    }

    fn program(&self) -> (r: Option<&'static str>) {
        Some("python3")
    }

    fn supports_history(&self) -> (r: bool) {
        false
    }

    fn has_command_boundaries(&self) -> (r: bool) {
        true
    }

    fn fetch(&self, index: usize, _rec: Option<&Record>, raw: bool, heard: &[Reply]) -> (r: Step) {
        if index > 1 {
            let mut m = copy_of("iTerm2 exposes only its most recent prompt, so -c ");
            m.append(decimal_of(index as u64).as_str());
            m.append(
                " is not available here.\n\nTo reach further back, run inside tmux.",
            );
            return Step::Failed(Failure::new(m));
        }
        if heard.len() == 0 {
            return Step::Shim { ansi: raw };
        }
        assert(replies(heard@)[0] == super::reply(heard@[0]));
        match &heard[0] {
            Ok(f) => Step::Done(f.copy()),
            Err(e) => Step::Failed(e.copy()),
        }
    }

    fn diagnose(&self, facts: &Facts, heard: &[Reply]) -> (r: Checkup) {
        if heard.len() == 0 {
            let mut args = no_args();
            arg(&mut args, "-c");
            arg(&mut args, "import iterm2");
            assert(texts(args@) == import_line());
            return Checkup::Run { program: copy_of("python3"), args };
        }
        if heard.len() == 1 {
            return Checkup::Shim { ansi: false };
        }
        assert(replies(heard@)[0] == super::reply(heard@[0]));
        assert(replies(heard@)[1] == super::reply(heard@[1]));
        let mut d: Vec<Diagnostic> = Vec::new();
        assert(findings(d@) == Seq::<DiagnosticView>::empty());
        note(&mut d, Diagnostic::ok("detected", "iTerm2 session"));
        if facts.on_path {
            note(&mut d, Diagnostic::ok("python3", "found on PATH"));
        } else {
            note(
                &mut d,
                Diagnostic::bad(
                    "python3",
                    "not on PATH \u{2014} required for the iTerm2 backend",
                ),
            );
        }
        if heard[0].is_ok() {
            note(&mut d, Diagnostic::ok("iterm2 package", "importable"));
        } else {
            note(
                &mut d,
                Diagnostic::bad(
                    "iterm2 package",
                    "missing \u{2014} install with `python3 -m pip install --user iterm2`",
                ),
            );
        }
        if facts.iterm_session {
            note(&mut d, Diagnostic::ok("session id", "$ITERM_SESSION_ID is set"));
        } else {
            note(
                &mut d,
                Diagnostic::bad(
                    "session id",
                    "$ITERM_SESSION_ID unset \u{2014} tcap will fall back to the focused session",
                ),
            );
        }
        match &heard[1] {
            Ok(_) => note(
                &mut d,
                Diagnostic::ok("api + shell integration", "capture succeeded"),
            ),
            Err(e) => note(
                &mut d,
                Diagnostic::bad("api + shell integration", e.message.as_str()),
            ),
        }
        note(
            &mut d,
            Diagnostic::bad(
                "history depth",
                "iTerm2 serves only the latest command; -c 2 and beyond need tmux",
            ),
        );
        assert(findings(d@) == iterm2_report(
            *facts,
            super::reply(heard@[0]),
            super::reply(heard@[1]),
        ));
        Checkup::Report(d)
    }
}

// ---------------------------------------------------------------------------
// Laws
// ---------------------------------------------------------------------------

/// The last prompt is asked for with colours exactly where these are wanted, and
/// what comes of it is handed on whole: output, command, exit code and directory.
pub proof fn law_the_last_prompt_is_handed_on_whole(
    t: ITerm2,
    rec: Option<Record>,
    raw: bool,
    f: super::FetchedView,
    e: FailureView,
)
    ensures
        forall|index: usize|
            index <= 1 ==> #[trigger] t.fetch_step(index, rec, raw, Seq::empty())
                == (StepView::Shim { ansi: raw }),
        forall|index: usize|
            index <= 1 ==> #[trigger] t.fetch_step(index, rec, raw, seq![Ok(f)])
                == StepView::Done(f),
        forall|index: usize|
            index <= 1 ==> #[trigger] t.fetch_step(index, rec, raw, seq![Err(e)])
                == StepView::Failed(e),
        forall|index: usize|
            index > 1 ==> #[trigger] t.fetch_step(index, rec, raw, Seq::empty())
                == StepView::Failed(
                plain_failure(
                    "iTerm2 exposes only its most recent prompt, so -c "@ + decimal(index as nat)
                        + " is not available here.\n\nTo reach further back, run inside tmux."@,
                ),
            ),
{
}

/// What each end of the shim means. A complaint is passed on without the white
/// space around it; what was found is passed on as it is.
pub proof fn law_what_the_shim_tells(f: Fetched, cause: String, status: Option<i32>, stderr: String)
    ensures
        shim_outcome(ShimEnd::Found(f)) == Ok::<super::FetchedView, FailureView>(f@),
        shim_outcome(ShimEnd::Unreadable(cause)) == Err::<super::FetchedView, FailureView>(
            plain_failure("could not parse the iTerm2 shim's output: "@ + cause@),
        ),
        shim_outcome(ShimEnd::NotStarted(cause)) == Err::<super::FetchedView, FailureView>(
            plain_failure("could not run python3: "@ + cause@),
        ),
        shim_outcome(ShimEnd::NotPlaced(cause)) == Err::<super::FetchedView, FailureView>(
            plain_failure(cause@),
        ),
        ({
            let told = shim_outcome(ShimEnd::Failed { status, stderr });
            let complaint = trim(stderr@);
            told == Err::<super::FetchedView, FailureView>(
                plain_failure(
                    if status == Some(3i32) {
                        NO_MODULE@
                    } else if status == Some(4i32) {
                        NO_PROMPT@ + complaint + ")"@
                    } else if status == Some(5i32) {
                        NO_CONNECT@ + complaint + ")"@
                    } else {
                        "iTerm2 capture failed: "@ + complaint
                    },
                ),
            )
        }),
{
}

/// The diagnosis tries to import the library, then to capture without colours,
/// and reports each by what came of it.
pub proof fn law_what_the_iterm2_diagnosis_reports(
    t: ITerm2,
    facts: Facts,
    module: ReplyView,
    shim: ReplyView,
)
    ensures
        t.diagnose_step(facts, Seq::empty()) == (CheckupView::Run {
            program: "python3"@,
            args: seq!["-c"@, "import iterm2"@],
        }),
        t.diagnose_step(facts, seq![module]) == (CheckupView::Shim { ansi: false }),
        t.diagnose_step(facts, seq![module, shim]) matches CheckupView::Report(r) && {
            &&& r.len() == 6
            &&& r[0].label == "detected"@ && r[0].ok
            &&& r[1].label == "python3"@ && r[1].ok == facts.on_path
            &&& r[2].label == "iterm2 package"@ && r[2].ok == (module is Ok)
            &&& r[3].label == "session id"@ && r[3].ok == facts.iterm_session
            &&& r[4].label == "api + shell integration"@ && r[4].ok == (shim is Ok)
            &&& shim is Err ==> r[4].detail == shim->Err_0.message
            &&& r[5].label == "history depth"@ && !r[5].ok
        },
{
}

/// Replies beyond those that were asked for change nothing.
pub proof fn law_iterm2_needs_no_more_replies(
    t: ITerm2,
    index: usize,
    rec: Option<Record>,
    raw: bool,
    facts: Facts,
    heard: Seq<ReplyView>,
)
    ensures
        heard.len() >= 1 ==> t.fetch_step(index, rec, raw, heard) == t.fetch_step(
            index,
            rec,
            raw,
            heard.take(1),
        ),
        heard.len() >= 2 ==> t.diagnose_step(facts, heard) == t.diagnose_step(facts, heard.take(2)),
{
}

} // verus!
