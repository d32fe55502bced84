//! WezTerm backend, detection only.
//!
//! WezTerm can dump a pane, but exposes no equivalent of tmux's history size
//! for converting absolute coordinates back to pane-relative ones. A guess
//! would return plausible-looking but wrong text, so detection is wired up
//! only far enough for `doctor` to say so and point at tmux.

use vstd::prelude::*;

use super::{
    env_is, findings, good, has_env, has_value, is_set, note, wrong, Backend, Checkup,
    CheckupView, Diagnostic, DiagnosticView, Facts, Reply, ReplyView, Step, StepView, TerminalEnv,
};
use crate::failure::{plain_failure, Failure};
use crate::state::Record;

verus! {

/// The WezTerm terminal.
pub struct WezTerm;

/// Whether the environment shows WezTerm.
pub open spec fn is_wezterm(env: TerminalEnv) -> bool {
    is_set(env.wezterm_pane) || has_value(env.term_program, "WezTerm"@)
}

/// Why nothing can be captured in WezTerm.
pub const NOT_IMPLEMENTED: &'static str = "WezTerm support is not implemented yet.\n\n\
    `wezterm cli get-text` can dump a pane, but tcap has no verified way\n\
    to map a recorded command boundary onto WezTerm's line numbering, so\n\
    it would return the wrong region rather than fail.\n\n\
    Workaround: run inside tmux, which tcap supports fully.";

/// The findings on a WezTerm session.
pub open spec fn wezterm_report(facts: Facts) -> Seq<DiagnosticView> {
    seq![
        good("detected"@, "WezTerm session"@),
        wrong(
            "support"@,
            "not implemented in this version \u{2014} run inside tmux instead"@,
        ),
        if facts.on_path {
            good("wezterm binary"@, "found on PATH"@)
        } else {
            wrong("wezterm binary"@, "not on PATH"@)
        },
    ]
}

impl WezTerm {
    /// Whether the environment shows WezTerm.
    pub fn detect(env: &TerminalEnv) -> (r: bool)
        ensures
            r == is_wezterm(*env),
    {
        has_env(&env.wezterm_pane) || env_is(&env.term_program, "WezTerm")
    }

    /// A backend.
    pub fn new() -> (r: WezTerm)
        ensures
            r == WezTerm,
    {
        WezTerm
    }
}

impl Backend for WezTerm {
    open spec fn called(&self) -> Seq<char> {
        "wezterm"@
    }

    open spec fn looked_for(&self) -> Option<Seq<char>> {
        Some("wezterm"@)
    }

    open spec fn reaches_back(&self) -> bool {
        false
    }

    open spec fn bounded(&self) -> bool {
        true
    }

    open spec fn fetch_step(
        &self,
        index: usize,
        rec: Option<Record>,
        raw: bool,
        heard: Seq<ReplyView>,
    ) -> StepView {
        StepView::Failed(plain_failure(NOT_IMPLEMENTED@))
    }

    open spec fn diagnose_step(&self, facts: Facts, heard: Seq<ReplyView>) -> CheckupView {
        CheckupView::Report(wezterm_report(facts))
    }

    fn name(&self) -> (r: &'static str) {
        "wezterm"
    }

    fn program(&self) -> (r: Option<&'static str>) {
        Some("wezterm")
    }

    fn supports_history(&self) -> (r: bool) {
        false
    }

    fn has_command_boundaries(&self) -> (r: bool) {
        true
    }

    fn fetch(&self, _index: usize, _rec: Option<&Record>, _raw: bool, _heard: &[Reply]) -> (r:
        Step) {
        Step::Failed(Failure::because(NOT_IMPLEMENTED))
    }

    fn diagnose(&self, facts: &Facts, _heard: &[Reply]) -> (r: Checkup) {
        let mut d: Vec<Diagnostic> = Vec::new();
        assert(findings(d@) == Seq::<DiagnosticView>::empty());
        note(&mut d, Diagnostic::ok("detected", "WezTerm session"));
        note(
            &mut d,
            Diagnostic::bad(
                "support",
                "not implemented in this version \u{2014} run inside tmux instead",
            ),
        );
        if facts.on_path {
            note(&mut d, Diagnostic::ok("wezterm binary", "found on PATH"));
        } else {
            note(&mut d, Diagnostic::bad("wezterm binary", "not on PATH"));
        }
        assert(findings(d@) == wezterm_report(*facts));
        Checkup::Report(d)
    }
}

// ---------------------------------------------------------------------------
// Laws
// ---------------------------------------------------------------------------

/// Nothing is captured in WezTerm, whatever is asked for, and the diagnosis says
/// so without asking for anything.
pub proof fn law_wezterm_captures_nothing(
    w: WezTerm,
    index: usize,
    rec: Option<Record>,
    raw: bool,
    facts: Facts,
    heard: Seq<ReplyView>,
)
    ensures
        w.fetch_step(index, rec, raw, heard) == StepView::Failed(plain_failure(NOT_IMPLEMENTED@)),
        w.diagnose_step(facts, heard) matches CheckupView::Report(r) && {
            &&& r.len() == 3
            &&& r[0].label == "detected"@ && r[0].ok
            &&& r[1].label == "support"@ && !r[1].ok
            &&& r[2].label == "wezterm binary"@ && r[2].ok == facts.on_path
        },
{
}

} // verus!
