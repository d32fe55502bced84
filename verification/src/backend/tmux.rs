//! tmux backend, the only one that can reach past the most recent command.
//!
//! tmux does not mark command boundaries, so they come from the shell hook.
//!
//! Coordinates: `capture-pane -S/-E` are pane-relative and shift under a line
//! of text as the pane scrolls, so the hook stores `history_size + cursor_y`
//! instead, which is stable, because the two move oppositely by the same
//! amount. Convert back with `relative = absolute - history_size_now`.

use vstd::prelude::*;

use super::{
    arg, findings, good, has_env, is_set, no_args, note, only_output, replies, wrong, Backend,
    Checkup, CheckupView, Diagnostic, DiagnosticView, Facts, Fetched, FetchedView, Reply,
    ReplyView, Step, StepView, TerminalEnv,
};
use crate::failure::{plain_failure, Failure, FailureView};
use crate::state::Record;
use crate::text::{
    chars_of, copy_of, decimal, decimal_of, opt_text, parse_i64, parsed_i64, pieces,
    signed_decimal, signed_decimal_of, string_of, texts, trim, trimmed, words, words_of,
};

verus! {

/// The tmux pane that tcap runs in, where it is known.
pub struct Tmux {
    pub pane: Option<String>,
}

/// Whether the environment shows tmux.
pub open spec fn is_tmux(env: TerminalEnv) -> bool {
    is_set(env.tmux)
}

/// The tmux format for the lines of scrollback.
pub const HISTORY_FORMAT: &'static str = "#{history_size}";

/// The tmux format for the absolute row and the column of the cursor.
pub const CURSOR_FORMAT: &'static str = "#{e|+:#{history_size},#{cursor_y}} #{cursor_x}";

/// What to say when there is no record to go by.
pub const NO_RECORD: &'static str = "no command history recorded for this pane.\n\n\
    The tmux backend needs tcap's shell integration to know where\n\
    each command's output starts and ends. Add to your ~/.zshrc:\n\n  \
    eval \"$(tcap init zsh)\"\n\n\
    then start a new shell and run a command.";

/// What to say of a command that was recorded outside tmux.
pub const NO_COORDINATES: &'static str = "this command was recorded outside tmux, so it has no pane\n\
    coordinates. Only commands run inside tmux can be captured here.";

/// The arguments that name the pane.
pub open spec fn target(pane: Option<Seq<char>>) -> Seq<Seq<char>> {
    match pane {
        Some(p) => seq!["-t"@, p],
        None => Seq::empty(),
    }
}

/// The arguments that ask tmux for `format`.
pub open spec fn query_line(pane: Option<Seq<char>>, format: Seq<char>) -> Seq<Seq<char>> {
    (seq!["display-message"@, "-p"@] + target(pane)).push(format)
}

/// The failure when tmux answers a question for a number with something else.
pub open spec fn not_a_number(raw: Seq<char>, format: Seq<char>) -> FailureView {
    plain_failure("tmux returned `"@ + raw + "` for "@ + format + ", expected a number"@)
}

/// The number that tmux answered.
pub open spec fn answered(answer: Seq<char>, format: Seq<char>) -> Result<i64, FailureView> {
    match parsed_i64(trim(answer)) {
        Some(n) => Ok(n),
        None => Err(not_a_number(trim(answer), format)),
    }
}

/// The first pane-relative row of output that starts at the absolute row
/// `start`. Output that has scrolled out of the retained history is taken from
/// where the history begins.
pub open spec fn relative_start(start: int, history: int) -> int {
    if start - history < -history {
        -history
    } else {
        start - history
    }
}

/// The last pane-relative row of output that ends at the absolute row `end`.
pub open spec fn relative_end(end: int, history: int) -> int {
    end - history
}

/// The arguments that dump the rows from `start` to `end`.
pub open spec fn dump_line(
    pane: Option<Seq<char>>,
    raw: bool,
    start: int,
    end: int,
    history: int,
) -> Seq<Seq<char>> {
    let plain = seq!["capture-pane"@, "-p"@, "-J"@];
    let coloured = if raw {
        plain.push("-e"@)
    } else {
        plain
    };
    coloured + target(pane) + seq![
        "-S"@,
        signed_decimal(relative_start(start, history)),
        "-E"@,
        signed_decimal(relative_end(end, history)),
    ]
}

/// The next step towards the output of a recorded command: ask how much history
/// there is, then dump the rows.
pub open spec fn next_step(
    pane: Option<Seq<char>>,
    rec: Option<Record>,
    raw: bool,
    heard: Seq<ReplyView>,
) -> StepView {
    match rec {
        None => StepView::Failed(plain_failure(NO_RECORD@)),
        Some(r) => match (r.start_line, r.end_line) {
            (Some(start), Some(end)) => if end < start {
                // A command that printed nothing leaves end one row above start.
                StepView::Done(only_output(Seq::empty()))
            } else if heard.len() == 0 {
                StepView::Run { program: "tmux"@, args: query_line(pane, HISTORY_FORMAT@) }
            } else {
                match heard[0] {
                    Err(e) => StepView::Failed(e),
                    Ok(f) => match answered(f.output, HISTORY_FORMAT@) {
                        Err(e) => StepView::Failed(e),
                        Ok(history) => if heard.len() == 1 {
                            StepView::Run {
                                program: "tmux"@,
                                args: dump_line(
                                    pane,
                                    raw,
                                    start as int,
                                    end as int,
                                    history as int,
                                ),
                            }
                        } else {
                            match heard[1] {
                                Err(e) => StepView::Failed(e),
                                Ok(f) => StepView::Done(only_output(f.output)),
                            }
                        },
                    },
                }
            },
            _ => StepView::Failed(plain_failure(NO_COORDINATES@)),
        },
    }
}

/// The finding on the pane's scrollback.
pub open spec fn scrollback(heard: ReplyView) -> DiagnosticView {
    match heard {
        Err(e) => wrong("scrollback"@, e.message),
        Ok(f) => match answered(f.output, HISTORY_FORMAT@) {
            Ok(n) => good(
                "scrollback"@,
                signed_decimal(n as int) + " lines of history in this pane"@,
            ),
            Err(e) => wrong("scrollback"@, e.message),
        },
    }
}

/// The findings on a tmux session.
pub open spec fn tmux_report(
    pane: Option<Seq<char>>,
    facts: Facts,
    heard: ReplyView,
) -> Seq<DiagnosticView> {
    seq![
        if facts.on_path {
            good("tmux binary"@, "found on PATH"@)
        } else {
            wrong("tmux binary"@, "not on PATH"@)
        },
        match pane {
            Some(p) => good("pane"@, "$TMUX_PANE = "@ + p),
            None => wrong("pane"@, "$TMUX_PANE is unset; falling back to tmux's active pane"@),
        },
        scrollback(heard),
        if facts.records == 0 {
            wrong(
                "shell integration"@,
                "no commands recorded \u{2014} add `eval \"$(tcap init zsh)\"` to ~/.zshrc"@,
            )
        } else {
            good(
                "shell integration"@,
                decimal(facts.records as nat) + " commands recorded, "@ + decimal(
                    facts.located as nat,
                ) + " with pane coordinates"@,
            )
        },
    ]
}

/// The failure when tmux does not answer with the cursor's place.
pub open spec fn no_cursor(raw: Seq<char>) -> FailureView {
    plain_failure("tmux returned `"@ + raw + "`, expected `<anchor> <col>`"@)
}

/// The number that the `i`th word of an answer writes.
pub open spec fn word_number(answer: Seq<char>, i: int) -> Option<i64> {
    if i < words(trim(answer)).len() {
        parsed_i64(words(trim(answer))[i])
    } else {
        None
    }
}

/// `i` in decimal, for differences of two 64-bit numbers.
fn wide_decimal(i: i128) -> (r: String)
    requires
        -0x1_0000_0000_0000_0000 < i < 0x1_0000_0000_0000_0000,
    ensures
        r@ == signed_decimal(i as int),
{
    if i < 0 {
        let mut s = copy_of("-");
        s.append(decimal_of((-i) as u64).as_str());
        proof {
            reveal_strlit("-");
            assert("-"@ == seq!['-']);
        }
        s
    } else {
        decimal_of(i as u64)
    }
}

impl Tmux {
    /// Whether the environment shows tmux.
    pub fn detect(env: &TerminalEnv) -> (r: bool)
        ensures
            r == is_tmux(*env),
    {
        has_env(&env.tmux)
    }

    /// A backend for the pane that `TMUX_PANE` names, if it names one.
    pub fn new(tmux_pane: Option<String>) -> (r: Tmux)
        ensures
            is_set(tmux_pane) ==> r.pane == tmux_pane,
            !is_set(tmux_pane) ==> r.pane is None,
    {
        if has_env(&tmux_pane) {
            Tmux { pane: tmux_pane }
        } else {
            Tmux { pane: None }
        }
    }

    /// The arguments that ask tmux for `format`.
    pub fn query(&self, format: &str) -> (r: Vec<String>)
        ensures
            texts(r@) == query_line(opt_text(self.pane), format@),
    {
        let mut args = no_args();
        arg(&mut args, "display-message");
        arg(&mut args, "-p");
        if let Some(pane) = &self.pane {
            arg(&mut args, "-t");
            arg(&mut args, pane.as_str());
        }
        arg(&mut args, format);
        assert(texts(args@) == query_line(opt_text(self.pane), format@));
        args
    }

    /// The number that tmux answered when asked for `format`.
    pub fn query_i64(answer: &str, format: &str) -> (r: Result<i64, Failure>)
        ensures
            match (r, answered(answer@, format@)) {
                (Ok(got), Ok(want)) => got == want,
                (Err(got), Err(want)) => got@ == want,
                _ => false,
            },
    {
        let cs = chars_of(answer);
        let raw = trimmed(cs.as_slice());
        match parse_i64(raw.as_slice()) {
            Some(n) => Ok(n),
            None => {
                let mut m = copy_of("tmux returned `");
                m.append(string_of(raw.as_slice()).as_str());
                m.append("` for ");
                m.append(format);
                m.append(", expected a number");
                Err(Failure::new(m))
            },
        }
    }

    /// Lines currently held in scrollback above the visible pane, from tmux's
    /// answer.
    pub fn history_size(answer: &str) -> (r: Result<i64, Failure>)
        ensures
            match (r, answered(answer@, HISTORY_FORMAT@)) {
                (Ok(got), Ok(want)) => got == want,
                (Err(got), Err(want)) => got@ == want,
                _ => false,
            },
    {
        Tmux::query_i64(answer, HISTORY_FORMAT)
    }

    /// Absolute coordinate of the cursor's row, plus its column, from tmux's
    /// answer. A column that is missing or not a number counts as 0.
    pub fn anchor_and_col(answer: &str) -> (r: Result<(i64, i64), Failure>)
        ensures
            match word_number(answer@, 0) {
                Some(anchor) => r == Ok::<(i64, i64), Failure>(
                    (
                        anchor,
                        match word_number(answer@, 1) {
                            Some(col) => col,
                            None => 0,
                        },
                    ),
                ),
                None => r is Err && r->Err_0@ == no_cursor(trim(answer@)),
            },
    {
        let cs = chars_of(answer);
        let raw = trimmed(cs.as_slice());
        let parts = words_of(raw.as_slice());
        let ghost all = words(trim(answer@));
        assert(pieces(parts@) == all);
        let anchor = if parts.len() > 0 {
            assert(all[0] == parts@[0]@);
            parse_i64(parts[0].as_slice())
        } else {
            None
        };
        match anchor {
            Some(anchor) => {
                let col = if parts.len() > 1 {
                    assert(all[1] == parts@[1]@);
                    parse_i64(parts[1].as_slice())
                } else {
                    None
                };
                let col: i64 = match col {
                    Some(c) => c,
                    None => 0,
                };
                Ok((anchor, col))
            },
            None => {
                let mut m = copy_of("tmux returned `");
                m.append(string_of(raw.as_slice()).as_str());
                m.append("`, expected `<anchor> <col>`");
                Err(Failure::new(m))
            },
        }
    }

    /// Last row occupied by output that has just finished printing. A non-zero
    /// column means the output had no trailing newline, so the cursor is still
    /// on its final row rather than past it.
    pub fn output_end_line(anchor: i64, col: i64) -> (r: i64)
        requires
            col > 0 || anchor > i64::MIN,
        ensures
            r == if col > 0 {
                anchor as int
            } else {
                anchor - 1
            },
    {
        if col > 0 {
            anchor
        } else {
            anchor - 1
        }
    }

    /// The arguments that dump the rows from `start` to `end`.
    fn dump(&self, raw: bool, start: i64, end: i64, history: i64) -> (r: Vec<String>)
        ensures
            texts(r@) == dump_line(
                opt_text(self.pane),
                raw,
                start as int,
                end as int,
                history as int,
            ),
    {
        let from: i128 = if start < 0 {
            -(history as i128)
        } else {
            start as i128 - history as i128
        };
        let to: i128 = end as i128 - history as i128;
        let mut args = no_args();
        arg(&mut args, "capture-pane");
        arg(&mut args, "-p");
        arg(&mut args, "-J");
        if raw {
            // Attributes as escape sequences.
            arg(&mut args, "-e");
        }
        if let Some(pane) = &self.pane {
            arg(&mut args, "-t");
            arg(&mut args, pane.as_str());
        }
        arg(&mut args, "-S");
        arg(&mut args, wide_decimal(from).as_str());
        arg(&mut args, "-E");
        arg(&mut args, wide_decimal(to).as_str());
        assert(texts(args@) == dump_line(
            opt_text(self.pane),
            raw,
            start as int,
            end as int,
            history as int,
        ));
        args
    }
}

impl Backend for Tmux {
    open spec fn called(&self) -> Seq<char> {
        "tmux"@
    }

    open spec fn looked_for(&self) -> Option<Seq<char>> {
        Some("tmux"@)
    }

    open spec fn reaches_back(&self) -> bool {
        true
    }

    open spec fn bounded(&self) -> bool {
        true
    }

    open spec fn fetch_step(
        &self,
        index: usize,
        rec: Option<Record>,
        raw: bool,
        heard: Seq<ReplyView>,
    ) -> StepView {
        next_step(opt_text(self.pane), rec, raw, heard)
    }

    open spec fn diagnose_step(&self, facts: Facts, heard: Seq<ReplyView>) -> CheckupView {
        if heard.len() == 0 {
            CheckupView::Run {
                program: "tmux"@,
                args: query_line(opt_text(self.pane), HISTORY_FORMAT@),
            }
        } else {
            CheckupView::Report(tmux_report(opt_text(self.pane), facts, heard[0]))
        }
    }

    fn name(&self) -> (r: &'static str) {
        "tmux"
    }

    fn program(&self) -> (r: Option<&'static str>) {
        Some("tmux")
    }

    fn supports_history(&self) -> (r: bool) {
        true
    }

    fn has_command_boundaries(&self) -> (r: bool) {
        true
    }

    fn fetch(&self, _index: usize, rec: Option<&Record>, raw: bool, heard: &[Reply]) -> (r: Step) {
        let rec = match rec {
            Some(r) => r,
            None => {
                return Step::Failed(Failure::because(NO_RECORD));
            },
        };
        let (start, end) = match (rec.start_line, rec.end_line) {
            (Some(start), Some(end)) => (start, end),
            _ => {
                return Step::Failed(Failure::because(NO_COORDINATES));
            },
        };
        if end < start {
            return Step::Done(Fetched::from(String::new()));
        }
        if heard.len() == 0 {
            return Step::Run { program: copy_of("tmux"), args: self.query(HISTORY_FORMAT) };
        }
        assert(replies(heard@)[0] == super::reply(heard@[0]));
        let history = match &heard[0] {
            Ok(f) => match Tmux::history_size(f.output.as_str()) {
                Ok(n) => n,
                Err(e) => {
                    return Step::Failed(e);
                },
            },
            Err(e) => {
                return Step::Failed(e.copy());
            },
        };
        if heard.len() == 1 {
            return Step::Run { program: copy_of("tmux"), args: self.dump(raw, start, end, history) };
        }
        assert(replies(heard@)[1] == super::reply(heard@[1]));
        match &heard[1] {
            Ok(f) => Step::Done(Fetched::from(copy_of(f.output.as_str()))),
            Err(e) => Step::Failed(e.copy()),
        }
    }

    fn diagnose(&self, facts: &Facts, heard: &[Reply]) -> (r: Checkup) {
        if heard.len() == 0 {
            return Checkup::Run { program: copy_of("tmux"), args: self.query(HISTORY_FORMAT) };
        }
        assert(replies(heard@)[0] == super::reply(heard@[0]));
        let mut d: Vec<Diagnostic> = Vec::new();
        assert(findings(d@) == Seq::<DiagnosticView>::empty());
        if facts.on_path {
            note(&mut d, Diagnostic::ok("tmux binary", "found on PATH"));
        } else {
            note(&mut d, Diagnostic::bad("tmux binary", "not on PATH"));
        }
        match &self.pane {
            Some(p) => {
                let mut m = copy_of("$TMUX_PANE = ");
                m.append(p.as_str());
                note(&mut d, Diagnostic::ok("pane", m.as_str()));
            },
            None => {
                note(
                    &mut d,
                    Diagnostic::bad(
                        "pane",
                        "$TMUX_PANE is unset; falling back to tmux's active pane",
                    ),
                );
            },
        }
        match &heard[0] {
            Ok(f) => match Tmux::history_size(f.output.as_str()) {
                Ok(n) => {
                    let mut m = signed_decimal_of(n);
                    m.append(" lines of history in this pane");
                    note(&mut d, Diagnostic::ok("scrollback", m.as_str()));
                },
                Err(e) => {
                    note(&mut d, Diagnostic::bad("scrollback", e.message.as_str()));
                },
            },
            Err(e) => {
                note(&mut d, Diagnostic::bad("scrollback", e.message.as_str()));
            },
        }
        if facts.records == 0 {
            note(
                &mut d,
                Diagnostic::bad(
                    "shell integration",
                    "no commands recorded \u{2014} add `eval \"$(tcap init zsh)\"` to ~/.zshrc",
                ),
            );
        } else {
            let mut m = decimal_of(facts.records as u64);
            m.append(" commands recorded, ");
            m.append(decimal_of(facts.located as u64).as_str());
            m.append(" with pane coordinates");
            note(&mut d, Diagnostic::ok("shell integration", m.as_str()));
        }
        assert(findings(d@) == tmux_report(opt_text(self.pane), *facts, super::reply(heard@[0])));
        Checkup::Report(d)
    }
}

// ---------------------------------------------------------------------------
// Laws
// ---------------------------------------------------------------------------

/// The rows that are dumped are pinned to the text: counted from the first line
/// that the pane ever showed, they are the recorded ones, however far the pane
/// has scrolled since.
pub proof fn law_rows_are_pinned(start: int, end: int, history: int)
    requires
        start >= 0,
    ensures
        relative_start(start, history) + history == start,
        relative_end(end, history) + history == end,
{
}

/// A row of text that was at `cursor` when `history` lines had scrolled off is
/// found `scrolled` rows higher when so many more have.
pub proof fn law_rows_move_with_the_text(history: int, cursor: int, scrolled: int)
    requires
        history >= 0,
        cursor >= 0,
    ensures
        relative_start(history + cursor, history + scrolled) == cursor - scrolled,
        relative_end(history + cursor, history + scrolled) == cursor - scrolled,
{
}

/// tmux is never asked for rows above those it still holds.
pub proof fn law_rows_stay_in_the_history(start: int, history: int)
    ensures
        relative_start(start, history) >= -history,
{
}

/// A command that printed nothing, whose output ends one row above where it
/// starts, has empty output, and tmux is not asked for it.
pub proof fn law_a_silent_command_has_empty_output(
    pane: Option<Seq<char>>,
    rec: Record,
    raw: bool,
    heard: Seq<ReplyView>,
)
    requires
        rec.start_line is Some,
        rec.end_line is Some,
        rec.end_line->0 == rec.start_line->0 - 1,
    ensures
        next_step(pane, Some(rec), raw, heard) == StepView::Done(only_output(Seq::empty())),
{
}

/// The dump that follows the answer on the history covers exactly the recorded
/// rows, whatever their number: it begins at the row that the record gives as
/// the first and ends at the one that it gives as the last, each counted from
/// the top of the visible pane. It is a dump of this pane, with wrapped lines
/// joined, and with colours exactly where these are wanted.
pub proof fn law_the_dump_covers_the_recorded_rows(
    t: Tmux,
    index: usize,
    rec: Record,
    raw: bool,
    answer: FetchedView,
    h: i64,
)
    requires
        rec.start_line is Some,
        rec.end_line is Some,
        rec.end_line->0 >= rec.start_line->0,
        rec.start_line->0 >= 0,
        parsed_i64(trim(answer.output)) == Some(h),
    ensures
        ({
            let colours = if raw {
                seq!["-e"@]
            } else {
                Seq::empty()
            };
            let pane = if t.pane is Some {
                seq!["-t"@, t.pane->0@]
            } else {
                Seq::empty()
            };
            let rows = seq![
                "-S"@,
                signed_decimal(rec.start_line->0 - h),
                "-E"@,
                signed_decimal(rec.end_line->0 - h),
            ];
            t.fetch_step(index, Some(rec), raw, seq![Ok(answer)]) == (StepView::Run {
                program: "tmux"@,
                args: seq!["capture-pane"@, "-p"@, "-J"@] + colours + pane + rows,
            })
        }),
{
}

/// The same of rows that begin above all that is recorded: the dump begins where
/// the history begins, and still ends at the last recorded row.
pub proof fn law_lost_rows_are_left_out(
    t: Tmux,
    index: usize,
    rec: Record,
    raw: bool,
    answer: FetchedView,
    h: i64,
)
    requires
        rec.start_line is Some,
        rec.end_line is Some,
        rec.end_line->0 >= rec.start_line->0,
        rec.start_line->0 < 0,
        parsed_i64(trim(answer.output)) == Some(h),
    ensures
        t.fetch_step(index, Some(rec), raw, seq![Ok(answer)]) matches StepView::Run {
            program,
            args,
        } && program == "tmux"@ && args.len() >= 4 && args.skip(args.len() - 4) == seq![
            "-S"@,
            signed_decimal(-h),
            "-E"@,
            signed_decimal(rec.end_line->0 - h),
        ],
{
    let step = t.fetch_step(index, Some(rec), raw, seq![Ok(answer)]);
    let args = step->args;
    assert(args.skip(args.len() - 4) == seq![
        "-S"@,
        signed_decimal(-h),
        "-E"@,
        signed_decimal(rec.end_line->0 - h),
    ]);
}

/// tmux answers with a number and a line end, and that number is what the rows
/// are counted from.
pub proof fn law_the_answer_is_the_number_that_tmux_prints(h: i64)
    ensures
        parsed_i64(trim(signed_decimal(h as int) + "\n"@)) == Some(h),
{
    let s = signed_decimal(h as int);
    reveal_strlit("\n");
    assert("\n"@ == seq!['\n']);
    crate::text::law_numbers_are_read_back(0, h, s);
    let m = if h < 0 {
        -(h as int)
    } else {
        h as int
    };
    let d = decimal(m as nat);
    crate::text::lemma_decimal(m as nat, 0);
    assert(crate::text::is_digit(d[0]));
    assert(crate::text::is_digit(d[d.len() - 1]));
    assert(s.last() == d.last());
    assert((s + "\n"@).drop_last() == s);
    assert((s + "\n"@).last() == '\n');
    reveal_with_fuel(crate::text::trim_end, 2);
    assert(crate::text::trim_end(s + "\n"@) == s);
    assert(trim(s + "\n"@) == s);
}

/// Before anything is dumped, this pane is asked how much history it holds.
pub proof fn law_the_history_is_asked_for_first(t: Tmux, index: usize, rec: Record, raw: bool)
    requires
        rec.start_line is Some,
        rec.end_line is Some,
        rec.end_line->0 >= rec.start_line->0,
    ensures
        ({
            let pane = if t.pane is Some {
                seq!["-t"@, t.pane->0@]
            } else {
                Seq::empty()
            };
            t.fetch_step(index, Some(rec), raw, Seq::empty()) == (StepView::Run {
                program: "tmux"@,
                args: seq!["display-message"@, "-p"@] + pane + seq!["#{history_size}"@],
            })
        }),
{
}

/// What tmux dumps is handed on whole, and nothing is claimed of it.
pub proof fn law_the_dump_is_handed_on_whole(
    t: Tmux,
    index: usize,
    rec: Record,
    raw: bool,
    answer: FetchedView,
    dump: FetchedView,
)
    requires
        rec.start_line is Some,
        rec.end_line is Some,
        rec.end_line->0 >= rec.start_line->0,
        parsed_i64(trim(answer.output)) is Some,
    ensures
        t.fetch_step(index, Some(rec), raw, seq![Ok(answer), Ok(dump)]) == StepView::Done(
            (FetchedView { output: dump.output, command: None, exit_code: None, cwd: None }),
        ),
{
}

/// What goes wrong is passed on: tmux's own failures as they are, an answer that
/// is no number with the answer in it, a missing record and missing coordinates.
pub proof fn law_tmux_failures_are_passed_on(
    t: Tmux,
    index: usize,
    rec: Record,
    raw: bool,
    answer: FetchedView,
    e: FailureView,
    heard: Seq<ReplyView>,
)
    ensures
        ({
            let located = rec.start_line is Some && rec.end_line is Some;
            let printed = located && rec.end_line->0 >= rec.start_line->0;
            let number = parsed_i64(trim(answer.output));
            &&& printed ==> t.fetch_step(index, Some(rec), raw, seq![Err(e)]) == StepView::Failed(e)
            &&& printed && number is None ==> t.fetch_step(index, Some(rec), raw, seq![Ok(answer)])
                == StepView::Failed(
                plain_failure(
                    "tmux returned `"@ + trim(answer.output)
                        + "` for #{history_size}, expected a number"@,
                ),
            )
            &&& printed && number is Some ==> t.fetch_step(
                index,
                Some(rec),
                raw,
                seq![Ok(answer), Err(e)],
            ) == StepView::Failed(e)
            &&& !located ==> t.fetch_step(index, Some(rec), raw, heard) == StepView::Failed(
                plain_failure(
                    "this command was recorded outside tmux, so it has no pane\ncoordinates. Only commands run inside tmux can be captured here."@,
                ),
            )
            &&& t.fetch_step(index, None, raw, heard) == StepView::Failed(plain_failure(NO_RECORD@))
        }),
{
    reveal_strlit("#{history_size}");
    reveal_strlit("` for ");
    reveal_strlit(", expected a number");
    reveal_strlit("` for #{history_size}, expected a number");
    assert("` for #{history_size}, expected a number"@ == "` for "@ + HISTORY_FORMAT@
        + ", expected a number"@);
    assert("tmux returned `"@ + trim(answer.output) + "` for #{history_size}, expected a number"@
        == "tmux returned `"@ + trim(answer.output) + "` for "@ + HISTORY_FORMAT@
        + ", expected a number"@);
}

/// The diagnosis asks what a capture asks first, and then reports on the
/// program, the pane, the scrollback and the records, each with what it found.
pub proof fn law_what_the_tmux_diagnosis_reports(
    t: Tmux,
    facts: Facts,
    heard: ReplyView,
    rec: Record,
    h: i64,
)
    requires
        rec.start_line is Some,
        rec.end_line is Some,
        rec.end_line->0 >= rec.start_line->0,
    ensures
        t.fetch_step(1, Some(rec), false, Seq::empty()) matches StepView::Run { program, args }
            && t.diagnose_step(facts, Seq::empty()) == (CheckupView::Run { program, args }),
        t.diagnose_step(facts, seq![heard]) matches CheckupView::Report(r) && {
            &&& r.len() == 4
            &&& r[0].label == "tmux binary"@ && r[0].ok == facts.on_path
            &&& r[1].label == "pane"@ && r[1].ok == (t.pane is Some)
            &&& t.pane is Some ==> r[1].detail == "$TMUX_PANE = "@ + t.pane->0@
            &&& r[2].label == "scrollback"@
            &&& heard is Err ==> !r[2].ok && r[2].detail == heard->Err_0.message
            &&& heard is Ok ==> r[2].ok == (parsed_i64(trim(heard->Ok_0.output)) is Some)
            &&& heard is Ok && parsed_i64(trim(heard->Ok_0.output)) == Some(h) ==> r[2].detail
                == signed_decimal(h as int) + " lines of history in this pane"@
            &&& r[3].label == "shell integration"@ && r[3].ok == (facts.records > 0)
            &&& facts.records > 0 ==> r[3].detail == decimal(facts.records as nat)
                + " commands recorded, "@ + decimal(facts.located as nat)
                + " with pane coordinates"@
        },
{
}

/// The cursor's place is the first two words of tmux's answer, read as numbers.
pub proof fn law_the_cursor_is_two_words(answer: Seq<char>, i: int)
    requires
        0 <= i,
    ensures
        i < words(trim(answer)).len() ==> word_number(answer, i) == parsed_i64(
            words(trim(answer))[i],
        ),
        i >= words(trim(answer)).len() ==> word_number(answer, i) is None,
        no_cursor(answer).message == "tmux returned `"@ + answer
            + "`, expected `<anchor> <col>`"@,
        no_cursor(answer).causes.len() == 0,
{
}

/// Replies beyond those that were asked for change nothing.
pub proof fn law_tmux_needs_no_more_replies(
    t: Tmux,
    index: usize,
    rec: Option<Record>,
    raw: bool,
    facts: Facts,
    heard: Seq<ReplyView>,
)
    ensures
        heard.len() >= 2 ==> t.fetch_step(index, rec, raw, heard) == t.fetch_step(
            index,
            rec,
            raw,
            heard.take(2),
        ),
        heard.len() >= 1 ==> t.diagnose_step(facts, heard) == t.diagnose_step(facts, heard.take(1)),
{
}

} // verus!
