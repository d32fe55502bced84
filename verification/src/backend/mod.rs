//! Terminal adapters.
//!
//! Each backend answers one question: "give me the text of command block N".
//! They differ enormously in what they can do: kitty knows its own command
//! boundaries and needs no help, while tmux knows nothing and relies entirely
//! on the coordinates that the shell hook recorded.
//!
//! A backend only decides. What it needs from outside it asks for, one step at
//! a time: it is told the replies heard so far and says what to do next.

use vstd::prelude::*;

use crate::failure::{caused_failure, plain_failure, Failure, FailureView};
use crate::state::Record;
use crate::text::{
    chars_of, contains, copy_of, copy_opt, decimal, lemma_occurs_within, mentions, occurs_at,
    opt_str, opt_text, same_text, texts, trim, trim_text,
};

pub mod iterm2;
pub mod kitty;
pub mod tmux;
pub mod wezterm;

use iterm2::ITerm2;
use kitty::{ExeSearch, Kitty, PrivateDir};
use tmux::Tmux;
use wezterm::WezTerm;

verus! {

// ---------------------------------------------------------------------------
// What backends deal in
// ---------------------------------------------------------------------------

/// One line of `tcap doctor` output.
pub struct Diagnostic {
    pub ok: bool,
    pub label: String,
    pub detail: String,
}

/// What a [`Diagnostic`] holds.
#[verifier::ext_equal]
pub struct DiagnosticView {
    pub ok: bool,
    pub label: Seq<char>,
    pub detail: Seq<char>,
}

impl View for Diagnostic {
    type V = DiagnosticView;

    open spec fn view(&self) -> DiagnosticView {
        DiagnosticView { ok: self.ok, label: self.label@, detail: self.detail@ }
    }
}

/// A finding that is as it should be.
pub open spec fn good(label: Seq<char>, detail: Seq<char>) -> DiagnosticView {
    DiagnosticView { ok: true, label, detail }
}

/// A finding that is not as it should be.
pub open spec fn wrong(label: Seq<char>, detail: Seq<char>) -> DiagnosticView {
    DiagnosticView { ok: false, label, detail }
}

/// What a list of findings holds.
pub open spec fn findings(v: Seq<Diagnostic>) -> Seq<DiagnosticView> {
    v.map_values(|d: Diagnostic| d@)
}

impl Diagnostic {
    /// A finding that is as it should be.
    pub fn ok(label: &str, detail: &str) -> (r: Diagnostic)
        ensures
            r@ == good(label@, detail@),
    {
        Diagnostic { ok: true, label: copy_of(label), detail: copy_of(detail) }
    }

    /// A finding that is not as it should be.
    pub fn bad(label: &str, detail: &str) -> (r: Diagnostic)
        ensures
            r@ == wrong(label@, detail@),
    {
        Diagnostic { ok: false, label: copy_of(label), detail: copy_of(detail) }
    }
}

/// Adds a finding.
pub(crate) fn note(list: &mut Vec<Diagnostic>, d: Diagnostic)
    ensures
        findings(final(list)@) == findings(old(list)@).push(d@),
{
    let ghost before = list@;
    list.push(d);
    assert(findings(list@) == findings(before).push(d@));
}

/// Most backends return only text, but iTerm2's API hands back the command and
/// cwd too, which covers the gap when shell integration is not installed.
pub struct Fetched {
    pub output: String,
    pub command: Option<String>,
    pub exit_code: Option<i32>,
    pub cwd: Option<String>,
}

/// What a [`Fetched`] holds.
#[verifier::ext_equal]
pub struct FetchedView {
    pub output: Seq<char>,
    pub command: Option<Seq<char>>,
    pub exit_code: Option<i32>,
    pub cwd: Option<Seq<char>>,
}

impl View for Fetched {
    type V = FetchedView;

    open spec fn view(&self) -> FetchedView {
        FetchedView {
            output: self.output@,
            command: opt_text(self.command),
            exit_code: self.exit_code,
            cwd: opt_text(self.cwd),
        }
    }
}

/// Output of which nothing else is known.
pub open spec fn only_output(output: Seq<char>) -> FetchedView {
    FetchedView { output, command: None, exit_code: None, cwd: None }
}

impl From<String> for Fetched {
    fn from(output: String) -> (r: Fetched) {
        Fetched { output, command: None, exit_code: None, cwd: None }
    }
}

impl vstd::std_specs::convert::FromSpecImpl<String> for Fetched {
    open spec fn obeys_from_spec() -> bool {
        true
    }

    open spec fn from_spec(output: String) -> Fetched {
        Fetched { output, command: None, exit_code: None, cwd: None }
    }
}

impl Fetched {
    /// A copy.
    pub fn copy(&self) -> (r: Fetched)
        ensures
            r@ == self@,
    {
        Fetched {
            output: copy_of(self.output.as_str()),
            command: copy_opt(&self.command),
            exit_code: self.exit_code,
            cwd: copy_opt(&self.cwd),
        }
    }
}

/// What came of a step that a backend asked for.
pub type Reply = Result<Fetched, Failure>;

/// What a [`Reply`] holds.
pub type ReplyView = Result<FetchedView, FailureView>;

/// What a reply holds.
pub open spec fn reply(r: Reply) -> ReplyView {
    match r {
        Ok(f) => Ok(f@),
        Err(e) => Err(e@),
    }
}

/// What a list of replies holds.
pub open spec fn replies(v: Seq<Reply>) -> Seq<ReplyView> {
    v.map_values(|r: Reply| reply(r))
}

/// What a backend asks for next, or what it has come to.
pub enum Step {
    /// Run a program with these arguments and reply with its standard output.
    Run { program: String, args: Vec<String> },
    /// Ask iTerm2 for its last prompt, with colours or without.
    Shim { ansi: bool },
    /// The block that was asked for.
    Done(Fetched),
    /// Why there is no such block.
    Failed(Failure),
}

/// What a [`Step`] holds.
#[verifier::ext_equal]
pub enum StepView {
    Run { program: Seq<char>, args: Seq<Seq<char>> },
    Shim { ansi: bool },
    Done(FetchedView),
    Failed(FailureView),
}

impl View for Step {
    type V = StepView;

    open spec fn view(&self) -> StepView {
        match self {
            Step::Run { program, args } => StepView::Run { program: program@, args: texts(args@) },
            Step::Shim { ansi } => StepView::Shim { ansi: *ansi },
            Step::Done(f) => StepView::Done(f@),
            Step::Failed(e) => StepView::Failed(e@),
        }
    }
}

/// What a backend asks for next to diagnose itself, or what it has found.
pub enum Checkup {
    /// Run a program with these arguments and reply with its standard output.
    Run { program: String, args: Vec<String> },
    /// Ask iTerm2 for its last prompt, with colours or without.
    Shim { ansi: bool },
    /// The findings.
    Report(Vec<Diagnostic>),
}

/// What a [`Checkup`] holds.
#[verifier::ext_equal]
pub enum CheckupView {
    Run { program: Seq<char>, args: Seq<Seq<char>> },
    Shim { ansi: bool },
    Report(Seq<DiagnosticView>),
}

impl View for Checkup {
    type V = CheckupView;

    open spec fn view(&self) -> CheckupView {
        match self {
            Checkup::Run { program, args } => CheckupView::Run {
                program: program@,
                args: texts(args@),
            },
            Checkup::Shim { ansi } => CheckupView::Shim { ansi: *ansi },
            Checkup::Report(list) => CheckupView::Report(findings(list@)),
        }
    }
}

/// What a diagnosis starts from.
#[derive(Clone, Copy)]
pub struct Facts {
    /// Whether the program that the diagnosis looks for is on the search path.
    pub on_path: bool,
    /// How many commands this session has recorded.
    pub records: usize,
    /// How many of them have pane coordinates.
    pub located: usize,
    /// Whether `ITERM_SESSION_ID` is set.
    pub iterm_session: bool,
}

/// Adds one argument to a command line.
pub(crate) fn arg(args: &mut Vec<String>, a: &str)
    ensures
        texts(final(args)@) == texts(old(args)@).push(a@),
{
    let ghost before = args@;
    let s = copy_of(a);
    args.push(s);
    assert(texts(args@) == texts(before).push(a@));
}

/// An empty command line.
pub(crate) fn no_args() -> (r: Vec<String>)
    ensures
        texts(r@) == Seq::<Seq<char>>::empty(),
{
    let r: Vec<String> = Vec::new();
    assert(texts(r@) == Seq::<Seq<char>>::empty());
    r
}

// ---------------------------------------------------------------------------
// The interface
// ---------------------------------------------------------------------------

/// A terminal that can be asked for its scrollback.
pub trait Backend {
    /// The name of this backend.
    spec fn called(&self) -> Seq<char>;

    /// The program that a diagnosis looks for on the search path, if it looks
    /// for one.
    spec fn looked_for(&self) -> Option<Seq<char>>;

    /// Whether this backend can reach past the most recent command.
    spec fn reaches_back(&self) -> bool;

    /// Whether this backend knows which output belongs to which command.
    spec fn bounded(&self) -> bool;

    /// The next step towards the block at `index`.
    spec fn fetch_step(
        &self,
        index: usize,
        rec: Option<Record>,
        raw: bool,
        heard: Seq<ReplyView>,
    ) -> StepView;

    /// The next step of a diagnosis.
    spec fn diagnose_step(&self, facts: Facts, heard: Seq<ReplyView>) -> CheckupView;

    fn name(&self) -> (r: &'static str)
        ensures
            r@ == self.called(),
    ;

    /// The program that [`Facts::on_path`] speaks of: the one that a diagnosis
    /// looks for on the search path, if it looks for one.
    fn program(&self) -> (r: Option<&'static str>)
        ensures
            opt_str(r) == self.looked_for(),
    ;

    /// Whether this backend can reach past the most recent command.
    ///
    /// Only tmux can. kitty and iTerm2 expose their latest command block and
    /// nothing older, so `-c 2` has to fail loudly rather than quietly return
    /// the wrong block.
    fn supports_history(&self) -> (r: bool)
        ensures
            r == self.reaches_back(),
    ;

    /// Whether this backend knows which output belongs to which command.
    fn has_command_boundaries(&self) -> (r: bool)
        ensures
            r == self.bounded(),
    ;

    /// The command block at `index`, where 1 is the most recent: the next step
    /// towards it, after the replies `heard` so far.
    ///
    /// `rec` is the matching shell-integration record when there is one. tmux
    /// cannot find boundaries without it; the others do not need it.
    fn fetch(&self, index: usize, rec: Option<&Record>, raw: bool, heard: &[Reply]) -> (r: Step)
        ensures
            r@ == self.fetch_step(
                index,
                match rec {
                    Some(x) => Some(*x),
                    None => None,
                },
                raw,
                replies(heard@),
            ),
    ;

    /// The next step of a diagnosis, after the replies `heard` so far.
    fn diagnose(&self, facts: &Facts, heard: &[Reply]) -> (r: Checkup)
        ensures
            r@ == self.diagnose_step(*facts, replies(heard@)),
    ;
}

// ---------------------------------------------------------------------------
// Choosing a backend
// ---------------------------------------------------------------------------

/// The environment variables that tell the terminal.
pub struct TerminalEnv {
    pub tmux: Option<String>,
    pub term: Option<String>,
    pub term_program: Option<String>,
    pub lc_terminal: Option<String>,
    pub kitty_window_id: Option<String>,
    pub wezterm_pane: Option<String>,
    pub iterm_session_id: Option<String>,
}

/// The backends there are.
#[derive(Clone, Copy, PartialEq, Eq, Structural, Debug)]
pub enum Kind {
    Tmux,
    Kitty,
    WezTerm,
    ITerm2,
}

impl Kind {
    /// The name of the backend.
    pub open spec fn label(self) -> Seq<char> {
        match self {
            Kind::Tmux => "tmux"@,
            Kind::Kitty => "kitty"@,
            Kind::WezTerm => "wezterm"@,
            Kind::ITerm2 => "iterm2"@,
        }
    }
}

/// Whether an environment variable is set to something non-empty.
pub open spec fn is_set(v: Option<String>) -> bool {
    v matches Some(s) && s@.len() > 0
}

/// Whether an environment variable has exactly this value.
pub open spec fn has_value(v: Option<String>, value: Seq<char>) -> bool {
    v matches Some(s) && s@ == value
}

/// Whether an environment variable is set to something non-empty.
pub fn has_env(v: &Option<String>) -> (r: bool)
    ensures
        r == is_set(*v),
{
    match v {
        Some(s) => !s.as_str().is_empty(),
        None => false,
    }
}

/// Whether an environment variable has exactly this value.
pub(crate) fn env_is(v: &Option<String>, value: &str) -> (r: bool)
    ensures
        r == has_value(*v, value@),
{
    match v {
        Some(s) => same_text(s.as_str(), value),
        None => false,
    }
}

/// Whether an environment variable holds `needle` somewhere.
pub(crate) fn env_mentions(v: &Option<String>, needle: &str) -> (r: bool)
    ensures
        r == (v matches Some(s) && contains(s@, needle@)),
{
    match v {
        Some(s) => {
            let cs = chars_of(s.as_str());
            mentions(cs.as_slice(), needle)
        },
        None => false,
    }
}

/// The terminal that the environment shows. Order matters: tmux wins whenever
/// it is present.
pub open spec fn shown_terminal(env: TerminalEnv) -> Option<Kind> {
    if tmux::is_tmux(env) {
        Some(Kind::Tmux)
    } else if kitty::is_kitty(env) {
        Some(Kind::Kitty)
    } else if wezterm::is_wezterm(env) {
        Some(Kind::WezTerm)
    } else if iterm2::is_iterm2(env) {
        Some(Kind::ITerm2)
    } else {
        None
    }
}

/// The backend with a given name.
pub open spec fn kind_named(name: Seq<char>) -> Option<Kind> {
    if name == Kind::Tmux.label() {
        Some(Kind::Tmux)
    } else if name == Kind::Kitty.label() {
        Some(Kind::Kitty)
    } else if name == Kind::WezTerm.label() {
        Some(Kind::WezTerm)
    } else if name == Kind::ITerm2.label() {
        Some(Kind::ITerm2)
    } else {
        None
    }
}

/// What to say outside every supported terminal.
pub const NO_TERMINAL: &'static str = "no supported terminal detected.\n\n\
    tcap needs a terminal that can be asked for its scrollback. Supported:\n  \
    tmux, kitty, WezTerm, iTerm2\n\n\
    Ghostty, Terminal.app and Alacritty have no remote-control API, so they\n\
    cannot be supported this way. Running inside tmux works in any of them:\n  \
    tmux\n\n\
    Run `tcap doctor` for details.";

/// The terminal that the environment shows.
fn terminal_shown(env: &TerminalEnv) -> (r: Option<Kind>)
    ensures
        r == shown_terminal(*env),
{
    if Tmux::detect(env) {
        Some(Kind::Tmux)
    } else if Kitty::detect(env) {
        Some(Kind::Kitty)
    } else if WezTerm::detect(env) {
        Some(Kind::WezTerm)
    } else if ITerm2::detect(env) {
        Some(Kind::ITerm2)
    } else {
        None
    }
}

/// The kind of backend to use: the one that was forced, or else the one of the
/// terminal that the environment shows.
pub open spec fn chosen(forced: Option<&str>, env: TerminalEnv) -> Result<Kind, FailureView> {
    match forced {
        Some(name) => match kind_named(name@) {
            Some(k) => Ok(k),
            None => Err(
                plain_failure(
                    "unknown backend `"@ + name@ + "` (expected tmux, kitty, wezterm or iterm2)"@,
                ),
            ),
        },
        None => match shown_terminal(env) {
            Some(k) => Ok(k),
            None => Err(plain_failure(NO_TERMINAL@)),
        },
    }
}

/// The kind of backend to use: the one that was `forced`, or else the one of
/// the terminal that the environment shows.
pub fn choose_kind(forced: Option<&str>, env: &TerminalEnv) -> (r: Result<Kind, Failure>)
    ensures
        match (r, chosen(forced, *env)) {
            (Ok(got), Ok(want)) => got == want,
            (Err(got), Err(want)) => got@ == want,
            _ => false,
        },
{
    match forced {
        Some(name) => {
            if same_text(name, "tmux") {
                Ok(Kind::Tmux)
            } else if same_text(name, "kitty") {
                Ok(Kind::Kitty)
            } else if same_text(name, "wezterm") {
                Ok(Kind::WezTerm)
            } else if same_text(name, "iterm2") {
                Ok(Kind::ITerm2)
            } else {
                let mut m = copy_of("unknown backend `");
                m.append(name);
                m.append("` (expected tmux, kitty, wezterm or iterm2)");
                Err(Failure::new(m))
            }
        },
        None => match terminal_shown(env) {
            Some(k) => Ok(k),
            None => Err(Failure::because(NO_TERMINAL)),
        },
    }
}

/// What a backend is made from.
pub struct Surroundings {
    pub env: TerminalEnv,
    /// The value of `TMUX_PANE`.
    pub tmux_pane: Option<String>,
    /// What a search for kitty's executable came to.
    pub search: ExeSearch,
    /// The value of `KITTY_LISTEN_ON`.
    pub kitty_listen_on: Option<String>,
    /// The value of `XDG_RUNTIME_DIR`.
    pub xdg_runtime_dir: Option<String>,
    /// Whether this is macOS.
    pub macos: bool,
}

/// The value of an environment variable, where it is set to something
/// non-empty.
pub open spec fn set_value(v: Option<String>) -> Option<Seq<char>> {
    if is_set(v) {
        opt_text(v)
    } else {
        None
    }
}

/// The backend to use: the one that was `forced`, or else the one of the
/// terminal that the environment shows.
///
/// **tmux wins whenever it is present.** Inside kitty running tmux, asking
/// kitty returns tmux's rendered viewport rather than the shell's scrollback,
/// and tmux swallows kitty's prompt marks, so asking kitty there silently
/// returns the wrong text.
pub fn detect(forced: Option<&str>, at: &Surroundings) -> (r: Result<Terminal, Failure>)
    ensures
        match chosen(forced, at.env) {
            Err(e) => r is Err && r->Err_0@ == e,
            Ok(Kind::Tmux) => r matches Ok(Terminal::Tmux(t)) && opt_text(t.pane) == set_value(
                at.tmux_pane,
            ),
            Ok(Kind::Kitty) => match kitty::found_exe(at.search) {
                Some(exe) => r matches Ok(Terminal::Kitty(k)) && k.exe@ == exe && opt_text(
                    k.listen_on,
                ) == set_value(at.kitty_listen_on) && opt_text(k.window_id) == opt_text(
                    at.env.kitty_window_id,
                ) && k.private_dir == kitty::private_dir_of(at.macos, at.xdg_runtime_dir),
                None => r is Err && r->Err_0@ == plain_failure(kitty::NO_EXECUTABLE@),
            },
            Ok(Kind::WezTerm) => r matches Ok(Terminal::WezTerm(_)),
            Ok(Kind::ITerm2) => r matches Ok(Terminal::ITerm2(_)),
        },
{
    match choose_kind(forced, &at.env) {
        Err(e) => Err(e),
        Ok(Kind::Tmux) => Ok(Terminal::Tmux(Tmux::new(copy_opt(&at.tmux_pane)))),
        Ok(Kind::Kitty) => {
            let dir = PrivateDir::here(at.macos, &at.xdg_runtime_dir);
            let made = Kitty::new(
                &at.search,
                copy_opt(&at.kitty_listen_on),
                copy_opt(&at.env.kitty_window_id),
                dir,
            );
            match made {
                Ok(k) => Ok(Terminal::Kitty(k)),
                Err(e) => Err(e),
            }
        },
        Ok(Kind::WezTerm) => Ok(Terminal::WezTerm(WezTerm::new())),
        Ok(Kind::ITerm2) => Ok(Terminal::ITerm2(ITerm2::new())),
    }
}

/// Which backend `detect` would choose.
pub fn detected_name(env: &TerminalEnv) -> (r: Option<&'static str>)
    ensures
        match shown_terminal(*env) {
            Some(k) => r is Some && r->0@ == k.label(),
            None => r is None,
        },
{
    match terminal_shown(env) {
        Some(Kind::Tmux) => Some("tmux"),
        Some(Kind::Kitty) => Some("kitty"),
        Some(Kind::WezTerm) => Some("wezterm"),
        Some(Kind::ITerm2) => Some("iterm2"),
        None => None,
    }
}

/// A backend of any kind.
pub enum Terminal {
    Tmux(Tmux),
    Kitty(Kitty),
    WezTerm(WezTerm),
    ITerm2(ITerm2),
}

impl Backend for Terminal {
    open spec fn called(&self) -> Seq<char> {
        match self {
            Terminal::Tmux(b) => b.called(),
            Terminal::Kitty(b) => b.called(),
            Terminal::WezTerm(b) => b.called(),
            Terminal::ITerm2(b) => b.called(),
        }
    }

    open spec fn looked_for(&self) -> Option<Seq<char>> {
        match self {
            Terminal::Tmux(b) => b.looked_for(),
            Terminal::Kitty(b) => b.looked_for(),
            Terminal::WezTerm(b) => b.looked_for(),
            Terminal::ITerm2(b) => b.looked_for(),
        }
    }

    open spec fn reaches_back(&self) -> bool {
        match self {
            Terminal::Tmux(b) => b.reaches_back(),
            Terminal::Kitty(b) => b.reaches_back(),
            Terminal::WezTerm(b) => b.reaches_back(),
            Terminal::ITerm2(b) => b.reaches_back(),
        }
    }

    open spec fn bounded(&self) -> bool {
        match self {
            Terminal::Tmux(b) => b.bounded(),
            Terminal::Kitty(b) => b.bounded(),
            Terminal::WezTerm(b) => b.bounded(),
            Terminal::ITerm2(b) => b.bounded(),
        }
    }

    open spec fn fetch_step(
        &self,
        index: usize,
        rec: Option<Record>,
        raw: bool,
        heard: Seq<ReplyView>,
    ) -> StepView {
        match self {
            Terminal::Tmux(b) => b.fetch_step(index, rec, raw, heard),
            Terminal::Kitty(b) => b.fetch_step(index, rec, raw, heard),
            Terminal::WezTerm(b) => b.fetch_step(index, rec, raw, heard),
            Terminal::ITerm2(b) => b.fetch_step(index, rec, raw, heard),
        }
    }

    open spec fn diagnose_step(&self, facts: Facts, heard: Seq<ReplyView>) -> CheckupView {
        match self {
            Terminal::Tmux(b) => b.diagnose_step(facts, heard),
            Terminal::Kitty(b) => b.diagnose_step(facts, heard),
            Terminal::WezTerm(b) => b.diagnose_step(facts, heard),
            Terminal::ITerm2(b) => b.diagnose_step(facts, heard),
        }
    }

    fn name(&self) -> (r: &'static str) {
        match self {
            Terminal::Tmux(b) => b.name(),
            Terminal::Kitty(b) => b.name(),
            Terminal::WezTerm(b) => b.name(),
            Terminal::ITerm2(b) => b.name(),
        }
    }

    fn program(&self) -> (r: Option<&'static str>) {
        match self {
            Terminal::Tmux(b) => b.program(),
            Terminal::Kitty(b) => b.program(),
            Terminal::WezTerm(b) => b.program(),
            Terminal::ITerm2(b) => b.program(),
        }
    }

    fn supports_history(&self) -> (r: bool) {
        match self {
            Terminal::Tmux(b) => b.supports_history(),
            Terminal::Kitty(b) => b.supports_history(),
            Terminal::WezTerm(b) => b.supports_history(),
            Terminal::ITerm2(b) => b.supports_history(),
        }
    }

    fn has_command_boundaries(&self) -> (r: bool) {
        match self {
            Terminal::Tmux(b) => b.has_command_boundaries(),
            Terminal::Kitty(b) => b.has_command_boundaries(),
            Terminal::WezTerm(b) => b.has_command_boundaries(),
            Terminal::ITerm2(b) => b.has_command_boundaries(),
        }
    }

    fn fetch(&self, index: usize, rec: Option<&Record>, raw: bool, heard: &[Reply]) -> (r: Step) {
        match self {
            Terminal::Tmux(b) => b.fetch(index, rec, raw, heard),
            Terminal::Kitty(b) => b.fetch(index, rec, raw, heard),
            Terminal::WezTerm(b) => b.fetch(index, rec, raw, heard),
            Terminal::ITerm2(b) => b.fetch(index, rec, raw, heard),
        }
    }

    fn diagnose(&self, facts: &Facts, heard: &[Reply]) -> (r: Checkup) {
        match self {
            Terminal::Tmux(b) => b.diagnose(facts, heard),
            Terminal::Kitty(b) => b.diagnose(facts, heard),
            Terminal::WezTerm(b) => b.diagnose(facts, heard),
            Terminal::ITerm2(b) => b.diagnose(facts, heard),
        }
    }
}

// ---------------------------------------------------------------------------
// Running programs
// ---------------------------------------------------------------------------

/// How a program ended.
pub enum Finished {
    /// With success, having printed this.
    Success(String),
    /// Without success, having complained like this.
    Failure(String),
    /// It could not be started, for the given reason.
    NotStarted(String),
}

/// What a program's end means: its output, or what went wrong.
pub open spec fn outcome(program: Seq<char>, end: Finished) -> Result<Seq<char>, FailureView> {
    match end {
        Finished::Success(stdout) => Ok(stdout@),
        Finished::Failure(stderr) => Err(
            plain_failure(
                if trim(stderr@).len() == 0 {
                    "`"@ + program + "` failed"@
                } else {
                    "`"@ + program + "` failed"@ + ": "@ + trim(stderr@)
                },
            ),
        ),
        Finished::NotStarted(cause) => Err(
            caused_failure("could not run `"@ + program + "`"@, cause@),
        ),
    }
}

/// The output of a program that has run, turning an end without success into a
/// failure.
pub fn run(program: &str, end: Finished) -> (r: Result<String, Failure>)
    ensures
        match (r, outcome(program@, end)) {
            (Ok(got), Ok(want)) => got@ == want,
            (Err(got), Err(want)) => got@ == want,
            _ => false,
        },
{
    match end {
        Finished::Success(stdout) => Ok(stdout),
        Finished::Failure(stderr) => {
            let complaint = trim_text(stderr.as_str());
            let mut m = copy_of("`");
            m.append(program);
            m.append("` failed");
            if !complaint.as_str().is_empty() {
                m.append(": ");
                m.append(complaint.as_str());
            }
            Err(Failure::new(m))
        },
        Finished::NotStarted(cause) => {
            let mut m = copy_of("could not run `");
            m.append(program);
            m.append("`");
            Err(Failure::caused_by(m, cause))
        },
    }
}

// ---------------------------------------------------------------------------
// Laws
// ---------------------------------------------------------------------------

/// tmux wins whenever it is running, whatever terminal it runs in.
pub proof fn law_tmux_wins(env: TerminalEnv)
    requires
        is_set(env.tmux),
    ensures
        shown_terminal(env) == Some(Kind::Tmux),
{
}

/// Every backend can be asked for by its name.
pub proof fn law_names_tell_the_backends_apart(k: Kind)
    ensures
        kind_named(k.label()) == Some(k),
{
    reveal_strlit("tmux");
    reveal_strlit("kitty");
    reveal_strlit("wezterm");
    reveal_strlit("iterm2");
    assert("tmux"@[0] == 't' && "kitty"@[0] == 'k' && "wezterm"@[0] == 'w' && "iterm2"@[0] == 'i');
}

/// A backend that cannot reach past the most recent command fails when an older
/// one is asked for, and asks nothing of the terminal. The failure points to
/// tmux, which can.
pub proof fn law_older_commands_fail_loudly(
    t: Terminal,
    index: usize,
    rec: Option<Record>,
    raw: bool,
    heard: Seq<ReplyView>,
)
    requires
        !t.reaches_back(),
        index > 1,
    ensures
        t.fetch_step(index, rec, raw, heard) matches StepView::Failed(e) && contains(
            e.message,
            "tmux"@,
        ),
{
    let empty = Seq::<char>::empty();
    let needle = "tmux"@;
    reveal_strlit("tmux");
    match t {
        Terminal::Tmux(_) => {},
        Terminal::Kitty(_) => {
            let start = "kitty can only report its most recent command's output, so -c "@
                + decimal(index as nat);
            let end = " is not available here.\n\nkitty exposes only the latest output and nothing for older\ncommands. To reach further back, run inside tmux."@;
            reveal_strlit(
                " is not available here.\n\nkitty exposes only the latest output and nothing for older\ncommands. To reach further back, run inside tmux.",
            );
            assert(end.subrange(end.len() - 5, end.len() - 1) == needle);
            lemma_occurs_within(start, end, empty, needle, end.len() - 5);
            assert(start + end + empty == kitty::too_old(index).message);
        },
        Terminal::WezTerm(_) => {
            let m = wezterm::NOT_IMPLEMENTED@;
            reveal_strlit(
                "WezTerm support is not implemented yet.\n\n\
    `wezterm cli get-text` can dump a pane, but tcap has no verified way\n\
    to map a recorded command boundary onto WezTerm's line numbering, so\n\
    it would return the wrong region rather than fail.\n\n\
    Workaround: run inside tmux, which tcap supports fully.",
            );
            assert(m.subrange(m.len() - 32, m.len() - 28) == needle);
            assert(occurs_at(m, needle, m.len() - 32));
        },
        Terminal::ITerm2(_) => {
            let start = "iTerm2 exposes only its most recent prompt, so -c "@ + decimal(
                index as nat,
            );
            let end =
                " is not available here.\n\nTo reach further back, run inside tmux."@;
            reveal_strlit(
                " is not available here.\n\nTo reach further back, run inside tmux.",
            );
            assert(end.subrange(end.len() - 5, end.len() - 1) == needle);
            lemma_occurs_within(start, end, empty, needle, end.len() - 5);
            assert(start + end + empty == iterm2::too_old(index).message);
        },
    }
}

/// Only tmux reaches past the most recent command.
pub proof fn law_only_tmux_reaches_back(t: Terminal)
    ensures
        t.reaches_back() == (t is Tmux),
{
}

/// A fetch comes to its end after two replies at most.
pub proof fn law_a_fetch_ends_after_two_replies(
    t: Terminal,
    index: usize,
    rec: Option<Record>,
    raw: bool,
    heard: Seq<ReplyView>,
)
    requires
        heard.len() >= 2,
    ensures
        t.fetch_step(index, rec, raw, heard) is Done || t.fetch_step(
            index,
            rec,
            raw,
            heard,
        ) is Failed,
{
}

/// A diagnosis comes to its end after two replies at most.
pub proof fn law_a_diagnosis_ends_after_two_replies(
    t: Terminal,
    facts: Facts,
    heard: Seq<ReplyView>,
)
    requires
        heard.len() >= 2,
    ensures
        t.diagnose_step(facts, heard) is Report,
{
}

/// Findings and what was fetched are seen with all that they hold.
pub proof fn law_findings_are_seen_whole(
    d: Diagnostic,
    list: Seq<Diagnostic>,
    label: Seq<char>,
    detail: Seq<char>,
)
    ensures
        d@.ok == d.ok && d@.label == d.label@ && d@.detail == d.detail@,
        findings(list).len() == list.len(),
        forall|i: int| 0 <= i < list.len() ==> #[trigger] findings(list)[i] == list[i]@,
        good(label, detail).ok && !wrong(label, detail).ok,
        good(label, detail).label == label && wrong(label, detail).label == label,
        good(label, detail).detail == detail && wrong(label, detail).detail == detail,
{
}

/// What was fetched, and each of a list of replies, is seen with all that it
/// holds.
pub proof fn law_replies_are_seen_whole(f: Fetched, e: Failure, list: Seq<Reply>, output: Seq<char>)
    ensures
        f@.output == f.output@,
        f@.exit_code == f.exit_code,
        f@.command is Some == f.command is Some,
        f.command is Some ==> f@.command->0 == f.command->0@,
        f@.cwd is Some == f.cwd is Some,
        f.cwd is Some ==> f@.cwd->0 == f.cwd->0@,
        replies(list).len() == list.len(),
        forall|i: int|
            0 <= i < list.len() && list[i] is Ok ==> #[trigger] replies(list)[i] == Ok::<
                FetchedView,
                FailureView,
            >(list[i]->Ok_0@),
        forall|i: int|
            0 <= i < list.len() && list[i] is Err ==> #[trigger] replies(list)[i] == Err::<
                FetchedView,
                FailureView,
            >(list[i]->Err_0@),
        only_output(output).output == output,
        only_output(output).command is None,
        only_output(output).exit_code is None,
        only_output(output).cwd is None,
{
}

/// A step is seen with the program and every argument, in order, and with what
/// it ends in.
pub proof fn law_steps_are_seen_whole(
    program: String,
    args: Vec<String>,
    ansi: bool,
    f: Fetched,
    e: Failure,
    list: Vec<Diagnostic>,
)
    ensures
        ({
            let words = Seq::new(args@.len(), |i: int| args@[i]@);
            &&& (Step::Run { program, args })@ == (StepView::Run { program: program@, args: words })
            &&& (Checkup::Run { program, args })@ == (CheckupView::Run {
                program: program@,
                args: words,
            })
        }),
        (Step::Shim { ansi })@ == (StepView::Shim { ansi }),
        (Checkup::Shim { ansi })@ == (CheckupView::Shim { ansi }),
        Step::Done(f)@ == StepView::Done(f@),
        Step::Failed(e)@ == StepView::Failed(e@),
        Checkup::Report(list)@ == CheckupView::Report(
            Seq::new(list@.len(), |i: int| list@[i]@),
        ),
{
    assert(texts(args@) == Seq::new(args@.len(), |i: int| args@[i]@));
    assert(findings(list@) == Seq::new(list@.len(), |i: int| list@[i]@));
}

/// What shows each terminal: tmux by `TMUX`, else kitty by `KITTY_WINDOW_ID` or
/// by `kitty` in `TERM`, else WezTerm by `WEZTERM_PANE` or its name in
/// `TERM_PROGRAM`, else iTerm2 by its names in `TERM_PROGRAM` or `LC_TERMINAL`.
/// A variable that is set to nothing shows nothing.
pub proof fn law_what_shows_each_terminal(env: TerminalEnv)
    ensures
        ({
            let tmux = env.tmux is Some && env.tmux->0@.len() > 0;
            let kitty = (env.kitty_window_id is Some && env.kitty_window_id->0@.len() > 0) || (
            env.term is Some && contains(env.term->0@, "kitty"@));
            let wezterm = (env.wezterm_pane is Some && env.wezterm_pane->0@.len() > 0) || (
            env.term_program is Some && env.term_program->0@ == "WezTerm"@);
            let iterm2 = (env.term_program is Some && env.term_program->0@ == "iTerm.app"@) || (
            env.lc_terminal is Some && env.lc_terminal->0@ == "iTerm2"@);
            let shown = shown_terminal(env);
            &&& shown == Some(Kind::Tmux) <==> tmux
            &&& shown == Some(Kind::Kitty) <==> !tmux && kitty
            &&& shown == Some(Kind::WezTerm) <==> !tmux && !kitty && wezterm
            &&& shown == Some(Kind::ITerm2) <==> !tmux && !kitty && !wezterm && iterm2
            &&& shown is None <==> !tmux && !kitty && !wezterm && !iterm2
        }),
{
}

/// A backend that was asked for by name is used whatever the environment shows;
/// a name that no backend has is refused with the name in the message. Without
/// one the environment decides.
pub proof fn law_a_forced_backend_is_used(name: &str, env: TerminalEnv)
    ensures
        name@ == "tmux"@ ==> chosen(Some(name), env) == Ok::<Kind, FailureView>(Kind::Tmux),
        name@ == "kitty"@ ==> chosen(Some(name), env) == Ok::<Kind, FailureView>(Kind::Kitty),
        name@ == "wezterm"@ ==> chosen(Some(name), env) == Ok::<Kind, FailureView>(Kind::WezTerm),
        name@ == "iterm2"@ ==> chosen(Some(name), env) == Ok::<Kind, FailureView>(Kind::ITerm2),
        name@ != "tmux"@ && name@ != "kitty"@ && name@ != "wezterm"@ && name@ != "iterm2"@
            ==> chosen(Some(name), env) == Err::<Kind, FailureView>(
            plain_failure(
                "unknown backend `"@ + name@ + "` (expected tmux, kitty, wezterm or iterm2)"@,
            ),
        ),
        shown_terminal(env) is Some ==> chosen(None, env) == Ok::<Kind, FailureView>(
            shown_terminal(env)->0,
        ),
        shown_terminal(env) is None ==> chosen(None, env) == Err::<Kind, FailureView>(
            plain_failure(NO_TERMINAL@),
        ),
{
    reveal_strlit("tmux");
    reveal_strlit("kitty");
    reveal_strlit("wezterm");
    reveal_strlit("iterm2");
    assert("tmux"@[0] == 't' && "kitty"@[0] == 'k' && "wezterm"@[0] == 'w' && "iterm2"@[0] == 'i');
}

/// A terminal does what its backend does.
pub proof fn law_a_terminal_is_its_backend(
    tm: Tmux,
    k: Kitty,
    w: WezTerm,
    it: ITerm2,
    index: usize,
    rec: Option<Record>,
    raw: bool,
    facts: Facts,
    heard: Seq<ReplyView>,
)
    ensures
        Terminal::Tmux(tm).fetch_step(index, rec, raw, heard) == tm.fetch_step(
            index,
            rec,
            raw,
            heard,
        ),
        Terminal::Kitty(k).fetch_step(index, rec, raw, heard) == k.fetch_step(
            index,
            rec,
            raw,
            heard,
        ),
        Terminal::WezTerm(w).fetch_step(index, rec, raw, heard) == w.fetch_step(
            index,
            rec,
            raw,
            heard,
        ),
        Terminal::ITerm2(it).fetch_step(index, rec, raw, heard) == it.fetch_step(
            index,
            rec,
            raw,
            heard,
        ),
        Terminal::Tmux(tm).diagnose_step(facts, heard) == tm.diagnose_step(facts, heard),
        Terminal::Kitty(k).diagnose_step(facts, heard) == k.diagnose_step(facts, heard),
        Terminal::WezTerm(w).diagnose_step(facts, heard) == w.diagnose_step(facts, heard),
        Terminal::ITerm2(it).diagnose_step(facts, heard) == it.diagnose_step(facts, heard),
        Terminal::Tmux(tm).called() == "tmux"@,
        Terminal::Kitty(k).called() == "kitty"@,
        Terminal::WezTerm(w).called() == "wezterm"@,
        Terminal::ITerm2(it).called() == "iterm2"@,
        Kind::Tmux.label() == "tmux"@ && Kind::Kitty.label() == "kitty"@,
        Kind::WezTerm.label() == "wezterm"@ && Kind::ITerm2.label() == "iterm2"@,
        Terminal::Tmux(tm).looked_for() == Some("tmux"@),
        Terminal::Kitty(k).looked_for() is None,
        Terminal::WezTerm(w).looked_for() == Some("wezterm"@),
        Terminal::ITerm2(it).looked_for() == Some("python3"@),
        Terminal::Tmux(tm).bounded() && !Terminal::Kitty(k).bounded() && Terminal::WezTerm(
            w,
        ).bounded() && Terminal::ITerm2(it).bounded(),
{
}

/// What each end of a program means: its whole output, or the program's name
/// with its complaint, or why it could not be run.
pub proof fn law_what_a_program_tells(program: Seq<char>, text: String)
    ensures
        outcome(program, Finished::Success(text)) == Ok::<Seq<char>, FailureView>(text@),
        trim(text@).len() > 0 ==> outcome(program, Finished::Failure(text)) == Err::<
            Seq<char>,
            FailureView,
        >(plain_failure("`"@ + program + "` failed"@ + ": "@ + trim(text@))),
        trim(text@).len() == 0 ==> outcome(program, Finished::Failure(text)) == Err::<
            Seq<char>,
            FailureView,
        >(plain_failure("`"@ + program + "` failed"@)),
        outcome(program, Finished::NotStarted(text)) == Err::<Seq<char>, FailureView>(
            caused_failure("could not run `"@ + program + "`"@, text@),
        ),
{
}

/// A variable counts where it is set to something, and then as a whole.
pub proof fn law_what_counts_as_set(v: Option<String>)
    ensures
        set_value(v) is Some <==> v is Some && v->0@.len() > 0,
        v is Some && v->0@.len() > 0 ==> set_value(v) == Some(v->0@),
{
}

} // verus!
