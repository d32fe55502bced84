use tcap::backend::tmux::{Tmux, CURSOR_FORMAT, HISTORY_FORMAT};
use tcap::backend::{Backend, Checkup, Facts, Fetched, Reply, Step};
use tcap::failure::Failure;
use tcap::state::Record;

fn tmux() -> Tmux {
    Tmux::new(Some("%3".into()))
}

fn rec(start: Option<i64>, end: Option<i64>) -> Record {
    Record::assemble("ls".into(), None, None, None, start, end, false)
}

fn text(s: &str) -> Reply {
    Ok(Fetched::from(s.to_string()))
}

fn failure_of(step: Step) -> String {
    match step {
        Step::Failed(e) => e.chain(),
        _ => panic!("no failure"),
    }
}

fn args_of(step: Step) -> Vec<String> {
    match step {
        Step::Run { program, args } => {
            assert_eq!(program, "tmux");
            args
        }
        _ => panic!("nothing is run"),
    }
}

#[test]
fn an_empty_pane_is_no_pane() {
    assert_eq!(Tmux::new(Some("".into())).pane, None);
    assert_eq!(Tmux::new(None).pane, None);
    assert_eq!(tmux().pane.as_deref(), Some("%3"));
}

#[test]
fn queries_name_the_pane() {
    assert_eq!(
        tmux().query(CURSOR_FORMAT),
        [
            "display-message",
            "-p",
            "-t",
            "%3",
            "#{e|+:#{history_size},#{cursor_y}} #{cursor_x}"
        ]
    );
    assert_eq!(
        Tmux::new(None).query(HISTORY_FORMAT),
        ["display-message", "-p", "#{history_size}"]
    );
}

#[test]
fn answers_are_numbers() {
    assert_eq!(Tmux::history_size("  120\n").ok(), Some(120));
    assert_eq!(Tmux::history_size("-3").ok(), Some(-3));
    assert_eq!(
        Tmux::history_size(" x \n").err().unwrap().chain(),
        "tmux returned `x` for #{history_size}, expected a number"
    );
    assert_eq!(
        Tmux::query_i64("", "#{q}").err().unwrap().chain(),
        "tmux returned `` for #{q}, expected a number"
    );
}

#[test]
fn the_cursor_has_a_row_and_a_column() {
    assert_eq!(Tmux::anchor_and_col("42 7\n").ok(), Some((42, 7)));
    assert_eq!(Tmux::anchor_and_col("42").ok(), Some((42, 0)));
    assert_eq!(Tmux::anchor_and_col("42 x").ok(), Some((42, 0)));
    assert_eq!(
        Tmux::anchor_and_col(" x 7 ").err().unwrap().chain(),
        "tmux returned `x 7`, expected `<anchor> <col>`"
    );
    assert!(Tmux::anchor_and_col("").is_err());
}

#[test]
fn output_ends_above_the_cursor_or_on_its_row() {
    assert_eq!(Tmux::output_end_line(42, 0), 41);
    assert_eq!(Tmux::output_end_line(42, 5), 42);
}

#[test]
fn a_capture_needs_a_record_with_coordinates() {
    assert!(failure_of(tmux().fetch(1, None, false, &[]))
        .starts_with("no command history recorded for this pane.\n\n"));
    for r in [rec(None, None), rec(Some(1), None)] {
        assert_eq!(
            failure_of(tmux().fetch(1, Some(&r), false, &[])),
            "this command was recorded outside tmux, so it has no pane\n\
             coordinates. Only commands run inside tmux can be captured here."
        );
    }
}

#[test]
fn a_silent_command_has_empty_output() {
    match tmux().fetch(1, Some(&rec(Some(10), Some(9))), false, &[]) {
        Step::Done(f) => assert_eq!(f.output, ""),
        _ => panic!("tmux is asked"),
    }
}

#[test]
fn rows_are_asked_for_relative_to_the_history() {
    let t = tmux();
    let r = rec(Some(100), Some(104));
    assert_eq!(
        args_of(t.fetch(3, Some(&r), false, &[])),
        t.query(HISTORY_FORMAT)
    );
    assert_eq!(
        args_of(t.fetch(3, Some(&r), true, &[text("90\n")])),
        ["capture-pane", "-p", "-J", "-e", "-t", "%3", "-S", "10", "-E", "14"]
    );
    // The same rows, after more has scrolled off.
    assert_eq!(
        args_of(Tmux::new(None).fetch(3, Some(&r), false, &[text("120")])),
        ["capture-pane", "-p", "-J", "-S", "-20", "-E", "-16"]
    );
    match t.fetch(3, Some(&r), false, &[text("90"), text("a\nb\n")]) {
        Step::Done(f) => assert_eq!(f.output, "a\nb\n"),
        _ => panic!("the output is lost"),
    }
}

#[test]
fn rows_before_the_history_are_not_asked_for() {
    let args = args_of(tmux().fetch(1, Some(&rec(Some(-5), Some(4))), false, &[text("90")]));
    assert_eq!(args[5..], ["-S", "-90", "-E", "-86"]);
}

#[test]
fn extreme_coordinates_are_differences_all_the_same() {
    let r = rec(Some(i64::MAX), Some(i64::MAX));
    let args = args_of(Tmux::new(None).fetch(1, Some(&r), false, &[text("-9223372036854775808")]));
    assert_eq!(
        args[3..],
        ["-S", "18446744073709551615", "-E", "18446744073709551615"]
    );
}

#[test]
fn trouble_on_the_way_ends_the_capture() {
    let r = rec(Some(1), Some(2));
    let bad = || Err(Failure::because("`tmux` failed: gone"));
    assert_eq!(
        failure_of(tmux().fetch(1, Some(&r), false, &[bad()])),
        "`tmux` failed: gone"
    );
    assert_eq!(
        failure_of(tmux().fetch(1, Some(&r), false, &[text("many")])),
        "tmux returned `many` for #{history_size}, expected a number"
    );
    assert_eq!(
        failure_of(tmux().fetch(1, Some(&r), false, &[text("5"), bad()])),
        "`tmux` failed: gone"
    );
}

#[test]
fn tmux_reaches_back_and_has_boundaries() {
    assert_eq!(tmux().name(), "tmux");
    assert!(tmux().supports_history());
    assert!(tmux().has_command_boundaries());
}

fn report(t: &Tmux, facts: &Facts, heard: &[Reply]) -> Vec<(bool, String, String)> {
    match t.diagnose(facts, heard) {
        Checkup::Report(list) => list
            .into_iter()
            .map(|d| (d.ok, d.label, d.detail))
            .collect(),
        _ => panic!("not at its end"),
    }
}

fn line(ok: bool, label: &str, detail: &str) -> (bool, String, String) {
    (ok, label.to_string(), detail.to_string())
}

#[test]
fn the_diagnosis_of_a_session() {
    let facts = Facts {
        on_path: true,
        records: 12,
        located: 9,
        iterm_session: false,
    };
    match tmux().diagnose(&facts, &[]) {
        Checkup::Run { program, args } => {
            assert_eq!(program, "tmux");
            assert_eq!(args, tmux().query(HISTORY_FORMAT));
        }
        _ => panic!("nothing is asked"),
    }
    assert_eq!(
        report(&tmux(), &facts, &[text("250\n")]),
        [
            line(true, "tmux binary", "found on PATH"),
            line(true, "pane", "$TMUX_PANE = %3"),
            line(true, "scrollback", "250 lines of history in this pane"),
            line(
                true,
                "shell integration",
                "12 commands recorded, 9 with pane coordinates"
            ),
        ]
    );
    let nothing = Facts {
        on_path: false,
        records: 0,
        located: 0,
        iterm_session: false,
    };
    assert_eq!(
        report(
            &Tmux::new(None),
            &nothing,
            &[Err(Failure::caused_by(
                "could not run `tmux`".into(),
                "not found".into()
            ))]
        ),
        [
            line(false, "tmux binary", "not on PATH"),
            line(
                false,
                "pane",
                "$TMUX_PANE is unset; falling back to tmux's active pane"
            ),
            line(false, "scrollback", "could not run `tmux`"),
            line(
                false,
                "shell integration",
                "no commands recorded — add `eval \"$(tcap init zsh)\"` to ~/.zshrc"
            ),
        ]
    );
    assert_eq!(
        report(&tmux(), &facts, &[text("?")])[2],
        line(
            false,
            "scrollback",
            "tmux returned `?` for #{history_size}, expected a number"
        )
    );
}
