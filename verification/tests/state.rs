use tcap::state::{
    append, compact_if_needed, could_not, count_located, ensure_state_dir, is_tcap_invocation,
    kept, load, log_path, marker_path, nth_from_end, sanitize, session_key, state_dir, unusable_reason,
    Creation, DirFacts, Record, SessionEnv, COMPACT_AT, KEEP,
};

fn rec(command: &str) -> Record {
    Record {
        command: command.to_string(),
        exit_code: None,
        cwd: None,
        duration_ms: None,
        start_line: None,
        end_line: None,
        was_capture: false,
    }
}

#[test]
fn detects_tcap_invocations() {
    assert!(is_tcap_invocation("tcap"));
    assert!(is_tcap_invocation("tcap -n 2"));
    assert!(is_tcap_invocation("tcap | sgpt \"fix it\""));
    assert!(is_tcap_invocation("/usr/local/bin/tcap --json"));
    assert!(is_tcap_invocation("FOO=bar tcap"));
    assert!(is_tcap_invocation("ls; tcap"));
}

/// Wrappers in front of the command proper.
#[test]
fn detects_wrapped_invocations() {
    for cmd in [
        "command tcap",
        "env tcap --output",
        "env FOO=1 tcap",
        "builtin tcap",
        "exec tcap",
        "nohup tcap",
        "command /usr/local/bin/tcap",
    ] {
        assert!(is_tcap_invocation(cmd), "should detect: {cmd}");
    }
}

/// The two signals answer different questions. An alias is visible only to
/// `was_capture`; a piped capture only to the text check.
#[test]
fn the_two_capture_signals_are_independent() {
    let mut aliased = rec("t");
    aliased.was_capture = true;
    assert!(
        !is_tcap_invocation(&aliased.command),
        "text cannot see an alias"
    );

    let piped = rec("tcap --output | llm");
    assert!(
        is_tcap_invocation(&piped.command),
        "text sees an explicit run"
    );
    assert!(
        !piped.was_capture,
        "but stdout was a pipe, so nothing was displayed"
    );
}

#[test]
fn does_not_match_unrelated_commands() {
    assert!(!is_tcap_invocation("npm run build"));
    assert!(!is_tcap_invocation("echo tcap"));
    assert!(!is_tcap_invocation("git commit -m 'add tcap'"));
    assert!(!is_tcap_invocation("tcapture"));
    assert!(!is_tcap_invocation(""));
}

#[test]
fn nth_skips_tcap_and_is_one_based() {
    // Chronological: build, ls, tcap
    let records = vec![rec("npm run build"), rec("ls"), rec("tcap")];
    assert_eq!(nth_from_end(&records, 1).unwrap().command, "ls");
    assert_eq!(nth_from_end(&records, 2).unwrap().command, "npm run build");
    assert!(nth_from_end(&records, 3).is_none());
}

/// A command that merely *called* tcap is still a real command, and must stay
/// indexable.
#[test]
fn nth_keeps_commands_that_merely_called_tcap() {
    let mut wrapper = rec("./deploy.sh");
    wrapper.was_capture = true;
    let records = vec![rec("npm run build"), wrapper];

    assert_eq!(nth_from_end(&records, 1).unwrap().command, "./deploy.sh");
    assert_eq!(nth_from_end(&records, 2).unwrap().command, "npm run build");
}

#[test]
fn nth_returns_none_past_the_start_of_history() {
    assert!(nth_from_end(&[], 1).is_none());
    assert!(nth_from_end(&[rec("only")], 2).is_none());
}

fn env() -> SessionEnv {
    SessionEnv {
        tmux_pane: None,
        kitty_window_id: None,
        wezterm_pane: None,
        iterm_session_id: None,
        parent_pid: 4321,
    }
}

#[test]
fn escaped_and_timed_invocations_are_seen() {
    assert!(is_tcap_invocation("\\tcap"));
    assert!(is_tcap_invocation("time tcap"));
    assert!(is_tcap_invocation("A=1 B=2 env C=3 command tcap -c 2"));
    assert!(is_tcap_invocation("/usr/bin/env tcap"));
    assert!(!is_tcap_invocation("=tcap"));
    assert!(!is_tcap_invocation("command"));
    assert!(!is_tcap_invocation("tcap/"));
    assert!(!is_tcap_invocation("A=tcap"));
}

#[test]
fn a_line_runs_tcap_where_a_part_does() {
    for (a, b) in [("ls", "tcap"), ("tcap", "ls"), ("ls", "wc"), ("tcap", "tcap")] {
        for op in ["|", ";", "&", "&&", "||"] {
            assert_eq!(
                is_tcap_invocation(&format!("{a} {op} {b}")),
                is_tcap_invocation(a) || is_tcap_invocation(b)
            );
        }
    }
}

#[test]
fn a_capture_does_not_count_but_a_command_does() {
    let mut records = vec![rec("one"), rec("two")];
    assert_eq!(nth_from_end(&records, 1).unwrap().command, "two");
    records.push(rec("tcap -c 2"));
    assert_eq!(nth_from_end(&records, 1).unwrap().command, "two");
    records.push(rec("three"));
    assert_eq!(nth_from_end(&records, 1).unwrap().command, "three");
    assert_eq!(nth_from_end(&records, 2).unwrap().command, "two");
    assert_eq!(nth_from_end(&records, 3).unwrap().command, "one");
    // There is no 0th.
    assert_eq!(nth_from_end(&records, 0).unwrap().command, "three");
}

#[test]
fn records_with_coordinates_are_counted() {
    let mut a = rec("a");
    a.start_line = Some(3);
    assert_eq!(count_located(&[rec("x"), a, rec("y")]), 1);
    assert_eq!(count_located(&[]), 0);
}

#[test]
fn a_record_outside_tmux_has_no_coordinates() {
    let inside = Record::assemble(
        "ls".into(),
        Some(0),
        Some("/".into()),
        Some(5),
        Some(10),
        Some(12),
        true,
    );
    assert_eq!((inside.start_line, inside.end_line), (Some(10), Some(12)));
    assert!(inside.was_capture);
    assert_eq!(inside.command, "ls");
    assert_eq!(inside.exit_code, Some(0));
    assert_eq!(inside.cwd.as_deref(), Some("/"));
    assert_eq!(inside.duration_ms, Some(5));

    let outside = Record::assemble("ls".into(), None, None, None, None, Some(12), false);
    assert_eq!((outside.start_line, outside.end_line), (None, None));
}

#[test]
fn what_is_recorded_is_read_back() {
    let mut log = String::new();
    for entry in ["{\"a\":1}", "{\"b\":2}", "{\"c\":3}"] {
        log.push_str(&append(entry));
        assert_eq!(load(&log).last().unwrap(), entry);
    }
    assert_eq!(log, "{\"a\":1}\n{\"b\":2}\n{\"c\":3}\n");
    assert_eq!(load(&log), ["{\"a\":1}", "{\"b\":2}", "{\"c\":3}"]);
    assert_eq!(load("\n  \nx\r\n\ny"), ["x", "y"]);
    assert!(load("").is_empty());
}

#[test]
fn entries_that_do_not_parse_are_skipped() {
    let records = kept(vec![None, Some(rec("a")), None, None, Some(rec("b"))]);
    let commands: Vec<&str> = records.iter().map(|r| r.command.as_str()).collect();
    assert_eq!(commands, ["a", "b"]);
    assert!(kept(vec![None]).is_empty());
    assert!(kept(Vec::new()).is_empty());
}

#[test]
fn a_long_log_is_compacted_to_its_newest_entries() {
    let mut log = String::new();
    for i in 0..COMPACT_AT {
        log.push_str(&append(&format!("entry {i}")));
    }
    assert_eq!(compact_if_needed(&log), None);
    log.push_str(&append("the last straw"));
    let short = compact_if_needed(&log).unwrap();
    let entries = load(&short);
    assert_eq!(entries.len(), KEEP);
    assert_eq!(entries[0], format!("entry {}", COMPACT_AT + 1 - KEEP));
    assert_eq!(entries[KEEP - 1], "the last straw");
    assert!(short.ends_with("the last straw\n"));
    assert_eq!(compact_if_needed(&short), None);
}

#[test]
fn names_are_made_safe() {
    assert_eq!(sanitize("TMUX_PANE-%3"), "TMUX_PANE__3");
    assert_eq!(sanitize("a/../b é"), "a____b__");
}

#[test]
fn the_first_variable_that_is_set_gives_the_session_key() {
    assert_eq!(session_key(&env()), "ppid-4321");

    let mut e = env();
    e.iterm_session_id = Some("w0t0p0:AB".into());
    assert_eq!(session_key(&e), "ITERM_SESSION_ID_w0t0p0_AB");
    e.wezterm_pane = Some("4".into());
    assert_eq!(session_key(&e), "WEZTERM_PANE_4");
    e.kitty_window_id = Some("12".into());
    assert_eq!(session_key(&e), "KITTY_WINDOW_ID_12");
    e.tmux_pane = Some("%1".into());
    assert_eq!(session_key(&e), "TMUX_PANE__1");
    e.tmux_pane = Some("".into());
    assert_eq!(session_key(&e), "KITTY_WINDOW_ID_12");
}

#[test]
fn a_session_key_is_a_file_name() {
    let mut e = env();
    e.tmux_pane = Some("../../etc/passwd\n".into());
    let key = session_key(&e);
    assert!(key
        .chars()
        .all(|c| c.is_ascii_alphanumeric() || c == '_' || c == '-'));
    assert!(!key.is_empty());
}

#[test]
fn state_files_are_named_after_user_and_session() {
    assert_eq!(state_dir(None, 501), b"/tmp/tcap-501");
    for tmp in ["/var/t", "/var/t/", "t", ""] {
        let dir = state_dir(Some(tmp.as_bytes()), 501);
        let path = std::path::Path::new(tmp).join("tcap-501");
        assert_eq!(dir, path.to_str().unwrap().as_bytes());
    }
    assert_eq!(log_path(b"/d", "ppid-7"), b"/d/ppid-7.jsonl");
    assert_eq!(marker_path(b"/d/", "ppid-7"), b"/d/ppid-7.capturing");
}

#[test]
fn only_a_directory_of_our_own_is_used() {
    let facts = DirFacts {
        is_dir: true,
        uid: 501,
        mode: 0o40700,
    };
    let check = |f: DirFacts| ensure_state_dir("/tmp/tcap-501", Creation::Done, Ok(f), 501);
    assert!(matches!(check(facts), Ok(false)));
    assert!(matches!(
        check(DirFacts {
            mode: 0o40755,
            ..facts
        }),
        Ok(true)
    ));

    let link = check(DirFacts {
        is_dir: false,
        ..facts
    });
    assert_eq!(
        link.unwrap_err().message,
        "/tmp/tcap-501 is a symlink or not a directory — refusing to use it"
    );

    let other = check(DirFacts { uid: 0, ..facts });
    assert_eq!(
        unusable_reason(&other).unwrap(),
        "/tmp/tcap-501 is owned by uid 0, not you — refusing to use it"
    );
    assert_eq!(unusable_reason(&check(facts)), None);
}

#[test]
fn trouble_with_the_directory_is_reported_with_its_cause() {
    let facts = DirFacts {
        is_dir: true,
        uid: 501,
        mode: 0o40700,
    };
    let made = ensure_state_dir("/t", Creation::Failed("no space".into()), Ok(facts), 501);
    assert_eq!(unusable_reason(&made).unwrap(), "creating /t: no space");
    let seen = ensure_state_dir("/t", Creation::Done, Err("gone".into()), 501);
    assert_eq!(unusable_reason(&seen).unwrap(), "checking /t: gone");
    assert_eq!(could_not("opening ", "/t/x", "denied".into()).chain(), "opening /t/x: denied");
}
