use tcap::backend::kitty::{bundled_exe, ExeSearch, Kitty, PrivateDir, FALLBACK};
use tcap::backend::{Backend, Checkup, Facts, Fetched, Reply, Step};
use tcap::failure::Failure;

fn kitty(listen_on: Option<&str>) -> Kitty {
    Kitty {
        exe: "kitten".into(),
        listen_on: listen_on.map(|s| s.to_string()),
        window_id: Some("7".into()),
        private_dir: PrivateDir::RuntimeDir,
    }
}

/// Locks in two facts of the argument list: the extent, and `--match` following
/// the subcommand rather than preceding it.
#[test]
fn get_text_argv_order_and_extent() {
    let k = kitty(None);
    let args = k.get_text_args("id:7", false);
    assert_eq!(
        args,
        vec![
            "@",
            "get-text",
            "--match",
            "id:7",
            "--extent",
            "last_non_empty_output"
        ]
    );

    let sub = args.iter().position(|a| *a == "get-text").unwrap();
    let m = args.iter().position(|a| *a == "--match").unwrap();
    assert!(m > sub, "--match is a get-text option, not a global one");
    assert!(
        !args.contains(&"last_cmd_output".to_string()),
        "last_cmd_output returns tcap's own empty output"
    );
}

#[test]
fn socket_is_targeted_before_the_subcommand() {
    let k = kitty(Some("unix:/tmp/kitty-1"));
    let args = k.get_text_args("id:7", false);
    assert_eq!(&args[..3], &["@", "--to", "unix:/tmp/kitty-1"]);
    assert_eq!(
        args[3], "get-text",
        "--to is global, so it precedes get-text"
    );
}

#[test]
fn ansi_only_when_raw() {
    let k = kitty(None);
    let ansi = "--ansi".to_string();
    assert!(!k.get_text_args("id:1", false).contains(&ansi));
    assert!(k.get_text_args("id:1", true).contains(&ansi));
}

/// A non-numeric id must be rejected rather than widening the match.
#[test]
fn window_match_requires_a_number() {
    let cases = [
        ("7", Some("id:7")),
        (" 7 ", Some("id:7")),
        ("", None),
        ("all", None),
        ("1 or 2", None),
    ];
    for (raw, want) in cases {
        assert_eq!(
            Kitty::parse_window_id(raw).as_deref(),
            want,
            "input {raw:?}"
        );
    }
}

#[test]
fn hint_matches_the_mode_in_force() {
    let dir = PrivateDir::RuntimeDir;
    let socket_err = Failure::because("Error: Remote control is allowed over a socket only");

    // socket-only with no socket: the fix is listen_on, never `yes`.
    let no_sock = Kitty::remote_control_hint(&socket_err, &None, dir);
    assert!(no_sock.contains("listen_on"), "{no_sock}");
    assert!(
        !no_sock.contains("allow_remote_control yes"),
        "must not tell a socket-only user to loosen the setting: {no_sock}"
    );

    // socket-only with a socket that was refused: restart, not reconfigure.
    let with_sock = Kitty::remote_control_hint(&socket_err, &Some("unix:/tmp/k".into()), dir);
    assert!(with_sock.contains("unix:/tmp/k"), "{with_sock}");

    let pw = Kitty::remote_control_hint(&Failure::because("Error: password required"), &None, dir);
    assert!(pw.contains("unsupported"), "{pw}");

    // Anything unrecognised must hedge rather than assert a cause.
    let other = Kitty::remote_control_hint(
        &Failure::because("Error: Unknown option: --match"),
        &None,
        dir,
    );
    assert!(
        other.contains("If this is a remote-control problem"),
        "{other}"
    );
}

fn facts() -> Facts {
    Facts {
        on_path: true,
        records: 0,
        located: 0,
        iterm_session: false,
    }
}

fn text(s: &str) -> Reply {
    Ok(Fetched::from(s.to_string()))
}

fn refusal(s: &str) -> Reply {
    Err(Failure::because(s))
}

fn failure_of(step: Step) -> String {
    match step {
        Step::Failed(e) => e.chain(),
        _ => panic!("no failure"),
    }
}

fn search() -> ExeSearch {
    ExeSearch {
        kitten: false,
        kitty: false,
        bundled: None,
        fallback: false,
    }
}

#[test]
fn kitten_comes_before_kitty_and_the_bundle() {
    let exe = |s: &ExeSearch| Kitty::find_exe(s).map_err(|e| e.chain());
    let mut s = search();
    assert_eq!(
        exe(&s),
        Err("could not find the kitty (or kitten) executable.\n\
             Add kitty's bin directory to PATH, or pass --backend tmux."
            .to_string())
    );
    s.fallback = true;
    assert_eq!(exe(&s).unwrap(), FALLBACK);
    s.bundled = Some("/k/Contents/MacOS/kitty".into());
    assert_eq!(exe(&s).unwrap(), "/k/Contents/MacOS/kitty");
    s.kitty = true;
    assert_eq!(exe(&s).unwrap(), "kitty");
    s.kitten = true;
    assert_eq!(exe(&s).unwrap(), "kitten");
}

#[test]
fn an_empty_socket_is_no_socket() {
    let mut s = search();
    s.kitty = true;
    let k = Kitty::new(&s, Some("".into()), None, PrivateDir::Unknown)
        .ok()
        .unwrap();
    assert_eq!(k.listen_on, None);
    let k = Kitty::new(&s, Some("unix:/s".into()), None, PrivateDir::Unknown)
        .ok()
        .unwrap();
    assert_eq!(k.listen_on.as_deref(), Some("unix:/s"));
    assert!(Kitty::new(&search(), None, None, PrivateDir::Unknown).is_err());
}

/// As the standard library's paths have it.
#[test]
fn the_bundle_is_found_from_the_installation_directory() {
    for dir in [
        "/Applications/kitty.app/Contents/Resources/kitty",
        "/a/Contents",
        "/a/Contents/",
        "/a/Contents/.",
        "/a/Contents//b",
        "/a//Contents/./b/",
        "Contents",
        "/Contents/x/Contents/y",
        "/usr/lib/kitty",
        "/a/contents/b",
        "/a/ContentsX",
        "",
        "/",
    ] {
        let want = std::path::Path::new(dir)
            .ancestors()
            .find(|a| a.ends_with("Contents"))
            .map(|c| {
                c.join("MacOS")
                    .join("kitty")
                    .to_str()
                    .unwrap()
                    .to_string()
            });
        assert_eq!(bundled_exe(dir), want, "{dir:?}");
    }
}

#[test]
fn the_socket_goes_into_a_private_directory() {
    assert_eq!(PrivateDir::here(true, &None), PrivateDir::TmpDir);
    assert_eq!(
        PrivateDir::here(false, &Some("/run/user/1".into())),
        PrivateDir::RuntimeDir
    );
    assert_eq!(
        PrivateDir::here(false, &Some("".into())),
        PrivateDir::Unknown
    );

    let tail = "\nKeep the socket in a directory only you can open. One in /tmp is reachable by \
                anyone with write permission on it, which under a group-writable umask is more \
                than just you. Note kitty.conf has no trailing comments: everything after the \
                value is part of it.";
    for (dir, line) in [
        (
            PrivateDir::TmpDir,
            "  listen_on unix:${TMPDIR}/kitty-{kitty_pid}",
        ),
        (
            PrivateDir::RuntimeDir,
            "  listen_on unix:${XDG_RUNTIME_DIR}/kitty-{kitty_pid}",
        ),
        (
            PrivateDir::Unknown,
            "  listen_on unix:/run/user/$(id -u)/kitty-{kitty_pid}\n\
             # or any directory only you can open; $XDG_RUNTIME_DIR is unset here",
        ),
    ] {
        let advice = Kitty::socket_advice(dir);
        let placed: Vec<&str> = advice
            .split('\n')
            .filter(|l| l.trim_start().starts_with("listen_on"))
            .collect();
        assert_eq!(placed.len(), 1);
        assert!(placed[0].ends_with("kitty-{kitty_pid}"));
        assert_eq!(
            Kitty::socket_advice(dir),
            format!("  allow_remote_control socket-only\n{line}{tail}")
        );
    }
}

/// The message is compared in lower case, whatever its script.
#[test]
fn hints_do_not_depend_on_the_case_of_the_message() {
    let dir = PrivateDir::TmpDir;
    let hint = |m: &str, l: Option<&str>| {
        Kitty::remote_control_hint(&Failure::because(m), &l.map(|s| s.to_string()), dir)
    };
    assert_eq!(hint("PASSWORD", None), hint("password", None));
    assert_eq!(hint("NO WINDOW", None), hint("ungültig: no matching É", None));
    assert_eq!(
        hint("bad SOCKET", Some("unix:/s")),
        "the socket at unix:/s was refused. Restart kitty so the running instance and \
         $KITTY_LISTEN_ON agree."
    );
    // A password refusal that names the socket is a password refusal.
    assert_eq!(
        hint("password for socket", Some("unix:/s")),
        hint("password", None)
    );
    assert!(hint("no window on this socket", None).starts_with("kitty could not find the window"));
    assert_eq!(
        Kitty::hint("password", &None, dir),
        format!(
            "kitty is requiring a remote-control password, which tcap cannot send, so this setup \
             is unsupported.\nRather than weaken authentication for `get-text` — which returns \
             whatever is on screen, credentials included — run inside tmux, which needs no kitty \
             remote control at all. If you would rather use a socket:\n{}",
            Kitty::socket_advice(dir)
        )
    );
    assert_eq!(
        Kitty::hint("socket", &None, dir),
        format!(
            "This looks like `allow_remote_control socket-only` with $KITTY_LISTEN_ON unset, \
             leaving no socket to use.\nAdd to ~/.config/kitty/kitty.conf and restart kitty:\n{}\n\
             If it is set in your shell but not here, something in between is clearing the \
             environment.",
            Kitty::socket_advice(dir)
        )
    );
    assert_eq!(
        Kitty::hint("", &None, dir),
        format!(
            "If this is a remote-control problem, kitty needs it enabled. In \
             ~/.config/kitty/kitty.conf either:\n  allow_remote_control yes\nor keep it restricted \
             and give tcap a socket:\n{}\nThen restart kitty. If the message above says something \
             else, that is the real cause.",
            Kitty::socket_advice(dir)
        )
    );
}

#[test]
fn a_number_names_its_window() {
    for id in [0u64, 7, 10, u64::MAX] {
        assert_eq!(
            Kitty::parse_window_id(&id.to_string()),
            Some(format!("id:{id}"))
        );
    }
    assert_eq!(Kitty::parse_window_id("+007"), Some("id:7".to_string()));
    assert_eq!(Kitty::parse_window_id("18446744073709551616"), None);
    assert_eq!(Kitty::parse_window_id("-1"), None);
}

#[test]
fn a_capture_reads_the_own_window() {
    let k = kitty(Some("unix:/s"));
    match k.fetch(1, None, true, &[]) {
        Step::Run { program, args } => {
            assert_eq!(program, "kitten");
            assert_eq!(args, k.get_text_args("id:7", true));
        }
        _ => panic!("nothing is read"),
    }
    match k.fetch(1, None, false, &[text("out\n")]) {
        Step::Done(f) => {
            assert_eq!(f.output, "out\n");
            assert_eq!((f.command, f.exit_code, f.cwd), (None, None, None));
        }
        _ => panic!("the output is lost"),
    }
}

#[test]
fn nothing_is_read_without_a_window() {
    let mut k = kitty(None);
    for id in [None, Some("all")] {
        k.window_id = id.map(|s: &str| s.to_string());
        let m = failure_of(k.fetch(1, None, false, &[]));
        assert!(m.starts_with("$KITTY_WINDOW_ID is missing or not a number"));
        assert!(m.ends_with("cleared somewhere between kitty and this shell."));
        assert!(k.require_window().is_err());
    }
}

#[test]
fn kitty_reports_what_it_cannot_do() {
    let k = kitty(None);
    assert_eq!(
        failure_of(k.fetch(2, None, false, &[])),
        "kitty can only report its most recent command's output, so -c 2 is not available here.\n\n\
         kitty exposes only the latest output and nothing for older\n\
         commands. To reach further back, run inside tmux."
    );
    let m = failure_of(k.fetch(1, None, false, &[text(" \n")]));
    assert!(m.starts_with("kitty returned no output for this window.\n\n"));
    let m = failure_of(k.fetch(1, None, false, &[refusal("socket only")]));
    assert_eq!(
        m,
        format!(
            "socket only\n\n{}",
            Kitty::hint("socket only", &None, PrivateDir::RuntimeDir)
        )
    );
    assert!(!k.supports_history());
    assert!(!k.has_command_boundaries());
    assert_eq!(k.name(), "kitty");
}

fn report(c: Checkup) -> Vec<(bool, String, String)> {
    match c {
        Checkup::Report(list) => list
            .into_iter()
            .map(|d| (d.ok, d.label, d.detail))
            .collect(),
        _ => panic!("not at its end"),
    }
}

fn line(ok: bool, label: &str, detail: &str) -> (bool, String, String) {
    (ok, label.to_string(), detail.to_string())
}

#[test]
fn the_diagnosis_probes_what_a_capture_runs() {
    let k = kitty(Some("unix:/s"));
    match k.diagnose(&facts(), &[]) {
        Checkup::Run { program, args } => {
            assert_eq!(program, "kitten");
            assert_eq!(args, ["@", "--to", "unix:/s", "ls"]);
        }
        _ => panic!("nothing is asked"),
    }
    match (
        k.diagnose(&facts(), &[text("[]")]),
        k.fetch(1, None, false, &[]),
    ) {
        (
            Checkup::Run {
                program: p,
                args: a,
            },
            Step::Run {
                program: q,
                args: b,
            },
        ) => assert_eq!((p, a), (q, b)),
        _ => panic!("they differ"),
    }
    let depth = line(
        false,
        "history depth",
        "kitty serves only the latest output; -c 2 and beyond need tmux",
    );
    assert_eq!(
        report(k.diagnose(&facts(), &[text("[]"), text("x")])),
        [
            line(true, "kitty binary", "kitten"),
            line(true, "remote control", "reachable via socket unix:/s"),
            line(true, "window", "id:7"),
            line(true, "shell integration", "last_non_empty_output resolves"),
            depth.clone(),
        ]
    );
    let empty = report(k.diagnose(&facts(), &[text("[]"), text(" ")]));
    assert_eq!(
        empty[3],
        line(
            false,
            "shell integration",
            "no output to read yet. Run a command that prints something and re-run doctor; if it \
             is still empty, check `shell_integration` in kitty.conf"
        )
    );
    let failed = report(k.diagnose(&facts(), &[text("[]"), refusal("no")]));
    assert_eq!(failed[3], line(false, "shell integration", "no"));
}

#[test]
fn the_diagnosis_goes_on_without_remote_control_or_window() {
    let mut k = kitty(None);
    let down = report(k.diagnose(&facts(), &[refusal("odd")]));
    assert_eq!(down.len(), 4);
    assert_eq!(
        down[1],
        line(
            false,
            "remote control",
            &format!(
                "odd\n         via escape-code channel (no $KITTY_LISTEN_ON)\n         {}",
                Kitty::hint("odd", &None, PrivateDir::RuntimeDir)
            )
        )
    );
    assert_eq!(down[2], line(true, "window", "id:7"));
    k.window_id = None;
    let lost = report(k.diagnose(&facts(), &[text("[]")]));
    assert_eq!(lost.len(), 4);
    assert_eq!(
        lost[2],
        line(
            false,
            "window",
            "$KITTY_WINDOW_ID missing or not a number — tcap will refuse to capture rather than \
             read whichever window is focused"
        )
    );
}
