use tcap::backend::iterm2::{ITerm2, ShimEnd};
use tcap::backend::kitty::{ExeSearch, PrivateDir};
use tcap::backend::wezterm::WezTerm;
use tcap::backend::{
    choose_kind, detect, detected_name, has_env, run, Backend, Checkup, Diagnostic, Facts, Fetched,
    Finished, Kind, Reply, Step, Surroundings, Terminal, TerminalEnv,
};
use tcap::failure::Failure;

fn env() -> TerminalEnv {
    TerminalEnv {
        tmux: None,
        term: None,
        term_program: None,
        lc_terminal: None,
        kitty_window_id: None,
        wezterm_pane: None,
        iterm_session_id: None,
    }
}

fn at(env: TerminalEnv) -> Surroundings {
    Surroundings {
        env,
        tmux_pane: Some("%1".into()),
        search: ExeSearch {
            kitten: true,
            kitty: false,
            bundled: None,
            fallback: false,
        },
        kitty_listen_on: Some("unix:/s".into()),
        xdg_runtime_dir: None,
        macos: false,
    }
}

fn facts(on_path: bool, iterm_session: bool) -> Facts {
    Facts {
        on_path,
        records: 0,
        located: 0,
        iterm_session,
    }
}

fn found() -> Fetched {
    Fetched {
        output: "out".into(),
        command: Some("ls".into()),
        exit_code: Some(2),
        cwd: Some("/".into()),
    }
}

#[test]
fn each_terminal_is_known_by_its_variables() {
    assert_eq!(detected_name(&env()), None);
    for (set, name) in [
        (
            TerminalEnv {
                tmux: Some("/tmp/tmux,1,0".into()),
                ..env()
            },
            Some("tmux"),
        ),
        (
            TerminalEnv {
                kitty_window_id: Some("1".into()),
                ..env()
            },
            Some("kitty"),
        ),
        (
            TerminalEnv {
                term: Some("xterm-kitty".into()),
                ..env()
            },
            Some("kitty"),
        ),
        (
            TerminalEnv {
                wezterm_pane: Some("0".into()),
                ..env()
            },
            Some("wezterm"),
        ),
        (
            TerminalEnv {
                term_program: Some("WezTerm".into()),
                ..env()
            },
            Some("wezterm"),
        ),
        (
            TerminalEnv {
                term_program: Some("iTerm.app".into()),
                ..env()
            },
            Some("iterm2"),
        ),
        (
            TerminalEnv {
                lc_terminal: Some("iTerm2".into()),
                ..env()
            },
            Some("iterm2"),
        ),
        (
            TerminalEnv {
                tmux: Some("".into()),
                kitty_window_id: Some("".into()),
                wezterm_pane: Some("".into()),
                term_program: Some("Apple_Terminal".into()),
                ..env()
            },
            None,
        ),
    ] {
        assert_eq!(detected_name(&set), name);
        assert_eq!(choose_kind(None, &set).is_ok(), name.is_some());
    }
}

#[test]
fn tmux_wins_whatever_it_runs_in() {
    let all = TerminalEnv {
        tmux: Some("x".into()),
        term: Some("xterm-kitty".into()),
        term_program: Some("iTerm.app".into()),
        lc_terminal: Some("iTerm2".into()),
        kitty_window_id: Some("1".into()),
        wezterm_pane: Some("1".into()),
        iterm_session_id: Some("1".into()),
    };
    assert_eq!(choose_kind(None, &all).ok(), Some(Kind::Tmux));
    assert_eq!(choose_kind(Some("kitty"), &all).ok(), Some(Kind::Kitty));
}

#[test]
fn a_backend_can_be_forced_by_its_name() {
    for (name, kind) in [
        ("tmux", Kind::Tmux),
        ("kitty", Kind::Kitty),
        ("wezterm", Kind::WezTerm),
        ("iterm2", Kind::ITerm2),
    ] {
        assert_eq!(choose_kind(Some(name), &env()).ok(), Some(kind));
        let t = detect(Some(name), &at(env())).ok().unwrap();
        assert_eq!(t.name(), name);
    }
    assert_eq!(
        choose_kind(Some("xterm"), &env()).err().unwrap().chain(),
        "unknown backend `xterm` (expected tmux, kitty, wezterm or iterm2)"
    );
}

#[test]
fn no_terminal_is_an_error_that_names_the_supported_ones() {
    assert_eq!(
        detect(None, &at(env())).err().unwrap().chain(),
        "no supported terminal detected.\n\n\
         tcap needs a terminal that can be asked for its scrollback. Supported:\n  \
         tmux, kitty, WezTerm, iTerm2\n\n\
         Ghostty, Terminal.app and Alacritty have no remote-control API, so they\n\
         cannot be supported this way. Running inside tmux works in any of them:\n  \
         tmux\n\n\
         Run `tcap doctor` for details."
    );
}

#[test]
fn a_backend_is_made_from_its_surroundings() {
    let mut here = at(TerminalEnv {
        kitty_window_id: Some("5".into()),
        ..env()
    });
    match detect(None, &here) {
        Ok(Terminal::Kitty(k)) => {
            assert_eq!(k.exe, "kitten");
            assert_eq!(k.listen_on.as_deref(), Some("unix:/s"));
            assert_eq!(k.window_id.as_deref(), Some("5"));
            assert_eq!(k.private_dir, PrivateDir::Unknown);
        }
        _ => panic!("not kitty"),
    }
    here.search.kitten = false;
    assert!(detect(None, &here)
        .err()
        .unwrap()
        .chain()
        .starts_with("could not find the kitty"));
    match detect(Some("tmux"), &here) {
        Ok(Terminal::Tmux(t)) => assert_eq!(t.pane.as_deref(), Some("%1")),
        _ => panic!("not tmux"),
    }
}

#[test]
fn empty_variables_are_not_set() {
    assert!(!has_env(&None));
    assert!(!has_env(&Some("".into())));
    assert!(has_env(&Some("0".into())));
}

#[test]
fn only_tmux_reaches_back() {
    for name in ["tmux", "kitty", "wezterm", "iterm2"] {
        let t = detect(Some(name), &at(env())).ok().unwrap();
        assert_eq!(t.supports_history(), name == "tmux");
        assert_eq!(t.has_command_boundaries(), name != "kitty");
        if name != "tmux" {
            match t.fetch(2, None, false, &[]) {
                Step::Failed(e) => assert!(e.message.contains("tmux"), "{name}"),
                _ => panic!("{name} does not fail"),
            }
        }
    }
}

#[test]
fn each_diagnosis_looks_for_its_own_program() {
    for (name, program) in [
        ("tmux", Some("tmux")),
        ("kitty", None),
        ("wezterm", Some("wezterm")),
        ("iterm2", Some("python3")),
    ] {
        let t = detect(Some(name), &at(env())).ok().unwrap();
        assert_eq!(t.program(), program);
    }
}

#[test]
fn every_conversation_ends_after_two_replies() {
    for name in ["tmux", "kitty", "wezterm", "iterm2"] {
        let t = detect(Some(name), &at(env())).ok().unwrap();
        let heard: [Reply; 2] = [Ok(found()), Err(Failure::because("no"))];
        assert!(matches!(
            t.fetch(1, None, false, &heard),
            Step::Done(_) | Step::Failed(_)
        ));
        assert!(matches!(
            t.diagnose(&facts(true, true), &heard),
            Checkup::Report(_)
        ));
    }
}

#[test]
fn programs_end_well_or_with_a_complaint() {
    assert_eq!(
        run("tmux", Finished::Success("out\n".into())).ok().unwrap(),
        "out\n"
    );
    let bad = |end| run("tmux", end).err().unwrap().chain();
    assert_eq!(
        bad(Finished::Failure(" no server\n".into())),
        "`tmux` failed: no server"
    );
    assert_eq!(bad(Finished::Failure(" \n".into())), "`tmux` failed");
    assert_eq!(
        bad(Finished::NotStarted("not found".into())),
        "could not run `tmux`: not found"
    );
}

#[test]
fn output_alone_has_no_metadata() {
    let f = Fetched::from("x".to_string());
    assert_eq!(f.output, "x");
    assert_eq!((f.command, f.exit_code, f.cwd), (None, None, None));
    let c = found().copy();
    assert_eq!(c.command.as_deref(), Some("ls"));
}

#[test]
fn findings_are_good_or_bad() {
    let good = Diagnostic::ok("a", "b");
    let bad = Diagnostic::bad("a", "b");
    assert!(good.ok && !bad.ok);
    assert_eq!((good.label, good.detail), (bad.label, bad.detail));
}

#[test]
fn iterm2_hands_back_what_the_shim_found() {
    let t = ITerm2::new();
    assert!(matches!(
        t.fetch(1, None, true, &[]),
        Step::Shim { ansi: true }
    ));
    match t.fetch(1, None, false, &[ITerm2::call_shim(ShimEnd::Found(found()))]) {
        Step::Done(f) => {
            assert_eq!(f.output, "out");
            assert_eq!(f.command.as_deref(), Some("ls"));
            assert_eq!(f.exit_code, Some(2));
            assert_eq!(f.cwd.as_deref(), Some("/"));
        }
        _ => panic!("the prompt is lost"),
    }
    match t.fetch(3, None, false, &[]) {
        Step::Failed(e) => assert_eq!(
            e.chain(),
            "iTerm2 exposes only its most recent prompt, so -c 3 is not available here.\n\n\
             To reach further back, run inside tmux."
        ),
        _ => panic!("no failure"),
    }
    assert!(matches!(
        t.fetch(1, None, false, &[Err(Failure::because("x"))]),
        Step::Failed(_)
    ));
}

#[test]
fn the_shim_says_what_is_missing() {
    let bad = |end| ITerm2::call_shim(end).err().unwrap().chain();
    let failed = |status: Option<i32>| {
        bad(ShimEnd::Failed {
            status,
            stderr: " why\n".into(),
        })
    };
    assert_eq!(
        failed(Some(3)),
        "the iTerm2 Python library is missing. Install it with:\n  \
         python3 -m pip install --user iterm2"
    );
    assert_eq!(
        failed(Some(4)),
        "iTerm2 has no prompt information for this session.\n\n\
         Install Shell Integration from the iTerm2 menu:\n  \
         iTerm2 > Install Shell Integration\n\n(why)"
    );
    assert_eq!(
        failed(Some(5)),
        "could not reach the iTerm2 API.\n\n\
         Enable it under Preferences > General > Magic > \"Enable Python API\",\n\
         and accept the permission prompt the first time tcap runs.\n\n(why)"
    );
    assert_eq!(failed(Some(1)), "iTerm2 capture failed: why");
    assert_eq!(failed(None), "iTerm2 capture failed: why");
    assert_eq!(
        bad(ShimEnd::Unreadable("eof".into())),
        "could not parse the iTerm2 shim's output: eof"
    );
    assert_eq!(
        bad(ShimEnd::NotStarted("not found".into())),
        "could not run python3: not found"
    );
    assert_eq!(bad(ShimEnd::NotPlaced("read-only".into())), "read-only");
}

#[test]
fn a_shim_that_differs_is_written_anew() {
    assert!(ITerm2::shim_is_stale(None, "x"));
    assert!(ITerm2::shim_is_stale(Some("y"), "x"));
    assert!(!ITerm2::shim_is_stale(Some("x"), "x"));
}

fn report(c: Checkup) -> Vec<(bool, String, String)> {
    match c {
        Checkup::Report(list) => list
            .into_iter()
            .map(|d| (d.ok, d.label, d.detail))
            .collect(),
        _ => panic!("not at its end"),
    }
}

fn line(ok: bool, label: &str, detail: &str) -> (bool, String, String) {
    (ok, label.to_string(), detail.to_string())
}

#[test]
fn the_diagnosis_of_iterm2() {
    let t = ITerm2::new();
    match t.diagnose(&facts(true, true), &[]) {
        Checkup::Run { program, args } => {
            assert_eq!(program, "python3");
            assert_eq!(args, ["-c", "import iterm2"]);
        }
        _ => panic!("nothing is asked"),
    }
    assert!(matches!(
        t.diagnose(&facts(true, true), &[Err(Failure::because("x"))]),
        Checkup::Shim { ansi: false }
    ));
    let depth = line(
        false,
        "history depth",
        "iTerm2 serves only the latest command; -c 2 and beyond need tmux",
    );
    assert_eq!(
        report(t.diagnose(&facts(true, true), &[Ok(found()), Ok(found())])),
        [
            line(true, "detected", "iTerm2 session"),
            line(true, "python3", "found on PATH"),
            line(true, "iterm2 package", "importable"),
            line(true, "session id", "$ITERM_SESSION_ID is set"),
            line(true, "api + shell integration", "capture succeeded"),
            depth.clone(),
        ]
    );
    assert_eq!(
        report(t.diagnose(
            &facts(false, false),
            &[Err(Failure::because("a")), Err(Failure::because("b"))]
        )),
        [
            line(true, "detected", "iTerm2 session"),
            line(
                false,
                "python3",
                "not on PATH — required for the iTerm2 backend"
            ),
            line(
                false,
                "iterm2 package",
                "missing — install with `python3 -m pip install --user iterm2`"
            ),
            line(
                false,
                "session id",
                "$ITERM_SESSION_ID unset — tcap will fall back to the focused session"
            ),
            line(false, "api + shell integration", "b"),
            depth,
        ]
    );
}

#[test]
fn wezterm_is_only_detected() {
    let t = WezTerm::new();
    match t.fetch(1, None, false, &[]) {
        Step::Failed(e) => assert_eq!(
            e.chain(),
            "WezTerm support is not implemented yet.\n\n\
             `wezterm cli get-text` can dump a pane, but tcap has no verified way\n\
             to map a recorded command boundary onto WezTerm's line numbering, so\n\
             it would return the wrong region rather than fail.\n\n\
             Workaround: run inside tmux, which tcap supports fully."
        ),
        _ => panic!("no failure"),
    }
    let support = line(
        false,
        "support",
        "not implemented in this version — run inside tmux instead",
    );
    assert_eq!(
        report(t.diagnose(&facts(true, false), &[])),
        [
            line(true, "detected", "WezTerm session"),
            support.clone(),
            line(true, "wezterm binary", "found on PATH"),
        ]
    );
    assert_eq!(
        report(t.diagnose(&facts(false, false), &[]))[2],
        line(false, "wezterm binary", "not on PATH")
    );
}
