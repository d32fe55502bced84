use tcap::backend::kitty::ExeSearch;
use tcap::backend::{detect, Diagnostic, Fetched, Reply, Step, Surroundings, Terminal, TerminalEnv};
use tcap::capture::Capture;
use tcap::cli::{Mode, Select, Settings, ShellKind};
use tcap::clipboard::{copy_to_clipboard, Present};
use tcap::config::{Config, FormatName};
use tcap::doctor::{run, Examined};
use tcap::failure::Failure;
use tcap::gather::{build_capture, Gather};
use tcap::hints::{after_tcap, detect_shell, emit_hints};
use tcap::session::{present, Turn, Walk};
use tcap::state::Record;

fn env() -> TerminalEnv {
    TerminalEnv {
        tmux: None,
        term: None,
        term_program: None,
        lc_terminal: None,
        kitty_window_id: None,
        wezterm_pane: None,
        iterm_session_id: None,
    }
}

fn terminal(name: &str) -> Terminal {
    let at = Surroundings {
        env: env(),
        tmux_pane: None,
        search: ExeSearch {
            kitten: true,
            kitty: false,
            bundled: None,
            fallback: false,
        },
        kitty_listen_on: None,
        xdg_runtime_dir: None,
        macos: false,
    };
    detect(Some(name), &at).ok().unwrap()
}

fn rec(command: &str) -> Record {
    Record::assemble(command.into(), Some(0), None, Some(9), None, None, false)
}

fn out(s: &str) -> Fetched {
    Fetched::from(s.to_string())
}

#[test]
fn the_shell_record_wins_and_the_backend_fills_the_gaps() {
    let f = || Fetched {
        output: "o".into(),
        command: Some("b".into()),
        exit_code: Some(7),
        cwd: Some("/b".into()),
    };
    let alone = build_capture(f(), None, "iterm2", false);
    assert_eq!(alone.command.as_deref(), Some("b"));
    assert_eq!(alone.exit_code, Some(7));
    assert_eq!(alone.cwd.as_deref(), Some("/b"));
    assert_eq!(alone.duration_ms, None);
    assert_eq!(alone.source, "iterm2");

    let mut r = rec("a");
    let both = build_capture(f(), Some(&r), "kitty", true);
    assert_eq!(both.command.as_deref(), Some("a"));
    assert_eq!(both.exit_code, Some(0));
    assert_eq!(both.cwd.as_deref(), Some("/b"));
    assert_eq!(both.duration_ms, Some(9));
    assert!(both.approximate);
    r.exit_code = None;
    r.cwd = Some("/a".into());
    let gaps = build_capture(f(), Some(&r), "kitty", true);
    assert_eq!(gaps.exit_code, Some(7));
    assert_eq!(gaps.cwd.as_deref(), Some("/a"));
}

#[test]
fn blocks_are_walked_oldest_first() {
    let records = [rec("one"), rec("two"), rec("tcap"), rec("three")];
    let mut g = Gather::new(2, 1);
    let mut seen = Vec::new();
    while let Some(i) = g.next_index() {
        seen.push(i);
        g = g
            .take_in(Ok(out(&format!("block {i}"))), &records, "tmux", false)
            .ok()
            .unwrap();
    }
    assert_eq!(seen, [2, 1]);
    let caps = g.finish().ok().unwrap();
    let got: Vec<(Option<&str>, &str)> = caps
        .iter()
        .map(|c| (c.command.as_deref(), c.output.as_str()))
        .collect();
    assert_eq!(
        got,
        [(Some("two"), "block 2"), (Some("three"), "block 1")]
    );
}

#[test]
fn only_the_newest_block_can_fail() {
    let records = [rec("one"), rec("two")];
    let no = || Err(Failure::because("no such block"));
    let g = Gather::new(3, 1);
    assert_eq!(g.next_index(), Some(3));
    let g = g.take_in(no(), &records, "tmux", false).ok().unwrap();
    let g = g.take_in(Ok(out("x")), &records, "tmux", false).ok().unwrap();
    assert_eq!(g.next_index(), Some(1));
    let e = g.take_in(no(), &records, "tmux", false).err().unwrap();
    assert_eq!(e.chain(), "no such block");

    let g = Gather::new(2, 1);
    let g = g.take_in(no(), &records, "tmux", false).ok().unwrap();
    let g = g.take_in(Ok(out("y")), &records, "tmux", false).ok().unwrap();
    assert_eq!(g.finish().ok().unwrap().len(), 1);
}

#[test]
fn an_index_walks_one_block() {
    let g = Gather::new(1, 4);
    assert_eq!(g.next_index(), Some(4));
    let g = g.take_in(Ok(out("z")), &[], "tmux", false).ok().unwrap();
    assert_eq!(g.next_index(), None);
    assert_eq!(g.finish().ok().unwrap()[0].command, None);
}

#[test]
fn nothing_captured_is_an_error() {
    assert_eq!(
        Gather::new(0, 1).finish().err().unwrap().chain(),
        "nothing captured. Run `tcap doctor` to see which backend is active and whether shell \
         integration is recording commands."
    );
}

#[test]
fn a_run_of_tcap_is_known_by_its_text_or_its_marker() {
    assert!(!after_tcap(&[]));
    assert!(after_tcap(&[rec("ls"), rec("tcap | less")]));
    assert!(!after_tcap(&[rec("tcap"), rec("ls")]));
    let mut alias = rec("t");
    alias.was_capture = true;
    assert!(after_tcap(&[alias]));
}

#[test]
fn the_shell_is_one_of_those_supported() {
    assert_eq!(detect_shell(Some("/bin/bash")), ShellKind::Bash);
    assert_eq!(detect_shell(Some("fish")), ShellKind::Fish);
    assert_eq!(detect_shell(Some("/usr/bin/zsh")), ShellKind::Zsh);
    assert_eq!(detect_shell(Some("/bin/tcsh")), ShellKind::Zsh);
    assert_eq!(detect_shell(Some("/bin/bash/")), ShellKind::Zsh);
    assert_eq!(detect_shell(None), ShellKind::Zsh);
    assert_eq!(ShellKind::Fish.rc_file(), "~/.config/fish/config.fish");
    assert_eq!(ShellKind::Bash.rc_file(), "~/.bashrc");
    assert_eq!(ShellKind::Zsh.name(), "zsh");
}

#[test]
fn a_capture_without_metadata_names_cause_and_fix() {
    let bare = [Capture::new("x".into(), "kitty")];
    let hints = emit_hints(
        &bare,
        &terminal("kitty"),
        Mode::Annotated,
        false,
        ShellKind::Bash,
    );
    assert_eq!(
        hints,
        [
            "tcap: captured output only — no command, exit code or duration.\n  Cause: tcap's \
             shell integration is not recording in this session,\n         so there is nothing to \
             annotate the output with.\n  Fix:   add to your ~/.bashrc then open a new shell:\n           \
             eval \"$(tcap init bash)\"\n  Silence this with --quiet, or run `tcap doctor` for \
             the full picture.",
            "tcap: kitty can only report its most recent command; -c 2 and beyond need tmux.",
        ]
    );
    let tmux = emit_hints(
        &bare,
        &terminal("tmux"),
        Mode::Annotated,
        true,
        ShellKind::Zsh,
    );
    assert_eq!(tmux.len(), 1);
    assert!(tmux[0].contains("~/.zshrc"));
}

#[test]
fn a_full_capture_gives_no_warning() {
    let mut known = Capture::new("x".into(), "kitty");
    known.exit_code = Some(0);
    let caps = [Capture::new("y".into(), "kitty"), known];
    let zsh = ShellKind::Zsh;
    assert!(emit_hints(&caps, &terminal("kitty"), Mode::Annotated, false, zsh).is_empty());
    let bare = [Capture::new("x".into(), "kitty")];
    assert!(emit_hints(&bare, &terminal("kitty"), Mode::Output, false, zsh).is_empty());
}

#[test]
fn a_capture_after_a_capture_is_warned_about() {
    let mut known = Capture::new("x".into(), "kitty");
    known.exit_code = Some(0);
    let hints = emit_hints(
        &[known],
        &terminal("kitty"),
        Mode::Json,
        true,
        ShellKind::Zsh,
    );
    assert_eq!(
        hints,
        ["tcap: the previous command was tcap itself, and kitty can only report the\n  last \
          non-empty output — so this is most likely the previous capture's\n  own output, or \
          whatever its pipeline printed, rather than a command's.\n  Re-run the command you meant \
          to capture, or use tmux, which records\n  exact boundaries."]
    );
}

#[test]
fn the_clipboard_tool_depends_on_the_platform() {
    let none = Present {
        pbcopy: false,
        wl_copy: false,
        xclip: false,
        xsel: false,
    };
    let pick = |macos: bool, p: Present| {
        copy_to_clipboard(macos, &p)
            .map(|t| (t.program, t.args))
            .map_err(|e| e.chain())
    };
    assert_eq!(
        pick(true, Present { xsel: true, ..none }),
        Err("no clipboard tool found (looked for pbcopy)".to_string())
    );
    assert_eq!(
        pick(
            false,
            Present {
                pbcopy: true,
                ..none
            }
        ),
        Err("no clipboard tool found (looked for wl-copy, xclip, xsel)".to_string())
    );
    let all = Present {
        pbcopy: true,
        wl_copy: true,
        xclip: true,
        xsel: true,
    };
    assert_eq!(pick(true, all).unwrap().0, "pbcopy");
    assert_eq!(
        pick(false, all).unwrap(),
        ("wl-copy".to_string(), Vec::new())
    );
    assert_eq!(
        pick(
            false,
            Present {
                wl_copy: false,
                ..all
            }
        )
        .unwrap(),
        (
            "xclip".to_string(),
            vec!["-selection".to_string(), "clipboard".to_string()]
        )
    );
    assert_eq!(
        pick(false, Present { xsel: true, ..none }).unwrap(),
        (
            "xsel".to_string(),
            vec!["--clipboard".to_string(), "--input".to_string()]
        )
    );
}

fn examined() -> Examined {
    Examined {
        config_path: Some(("/c.toml".into(), false)),
        config: Ok(Config::default()),
        env: env(),
        diagnosis: Err(Failure::because("none")),
        records: Vec::new(),
        session_key: "ppid-1".into(),
        log_path: "/t/ppid-1.jsonl".into(),
    }
}

#[test]
fn the_report_outside_every_terminal() {
    assert_eq!(
        run(&examined()),
        "tcap doctor\n\nConfig\n  path: /c.toml\n  [ok  ] not present — using built-in \
         defaults\n\nEnvironment\n  TERM               (unset)\n  TERM_PROGRAM       (unset)\n  \
         TMUX               (unset)\n  KITTY_WINDOW_ID    (unset)\n  WEZTERM_PANE       \
         (unset)\n  ITERM_SESSION_ID   (unset)\n\nBackend: none\n\n  No supported terminal \
         detected. tcap needs to ask the terminal\n  for its scrollback, which requires a \
         remote-control API.\n\n  Supported: tmux, kitty, WezTerm, iTerm2\n\n  Ghostty, \
         Terminal.app and Alacritty expose no such API. Running\n  inside tmux works in all of \
         them:\n\n    tmux\n\nShell integration\n  [FAIL] no commands recorded for this \
         session\n         (session key: ppid-1)\n\n         Add to ~/.zshrc:   eval \"$(tcap \
         init zsh)\"\n         Then open a new shell and run a command.\n\nHistory depth\n  \
         [FAIL] only the most recent command is reachable\n         kitty and iTerm2 expose \
         their latest command block and\n         nothing older. Run inside tmux for -c 2 and \
         beyond.\n"
    );
}

#[test]
fn the_report_inside_tmux() {
    let mut x = examined();
    x.config_path = Some(("/my.toml".into(), true));
    x.config = Ok(Config {
        backend: Some("tmux".into()),
        max_bytes: Some(8000),
        format: Some(FormatName::Json),
        quiet: Some(true),
        copy: Some(false),
    });
    x.env.tmux = Some("/s,1,0".into());
    x.env.term = Some("".into());
    x.diagnosis = Ok(vec![
        Diagnostic::ok("pane", "good"),
        Diagnostic::bad("scrollback", "gone"),
    ]);
    let mut located = rec("make");
    located.start_line = Some(4);
    x.records = vec![located, rec("tcap")];
    assert_eq!(
        run(&x),
        "tcap doctor\n\nConfig\n  path: /my.toml (via $TCAP_CONFIG)\n  [ok  ] loaded\n         \
         backend = tmux\n         max_bytes = 8000\n         format = json\n         quiet = \
         true\n         copy = false\n\nEnvironment\n  TERM               \n  TERM_PROGRAM       \
         (unset)\n  TMUX               /s,1,0\n  KITTY_WINDOW_ID    (unset)\n  WEZTERM_PANE       \
         (unset)\n  ITERM_SESSION_ID   (unset)\n\nBackend: tmux\n  tmux takes priority over the \
         outer terminal: it renders the\n  screen itself, so the terminal underneath cannot see \
         the\n  shell's real scrollback or prompt marks.\n\n  [ok  ] pane                     \
         good\n  [FAIL] scrollback               gone\n\nShell integration\n  [ok  ] 2 commands \
         recorded (1 with pane coordinates)\n         last: make\n         log: \
         /t/ppid-1.jsonl\n\nHistory depth\n  [ok  ] -c 2 and beyond available (tmux)\n"
    );
}

#[test]
fn a_broken_config_is_reported() {
    let mut x = examined();
    x.config = Err(Failure::caused_by("in /c.toml".into(), "bad key".into()));
    x.env.kitty_window_id = Some("1".into());
    x.records = vec![rec("tcap")];
    let report = run(&x);
    assert!(report.contains("  [FAIL] in /c.toml: bad key\n"));
    assert!(report.contains("Backend: kitty\n\n  could not initialise backend: none\n\n"));
    assert!(report.contains("  [ok  ] 1 commands recorded (0 with pane coordinates)\n         log: "));
    x.config_path = None;
    assert!(run(&x).contains("Config\n  [ok  ] no HOME or XDG_CONFIG_HOME — config disabled\n\n"));
}

/// Carries a walk out, with `world` replying to each step.
fn carry_out(
    name: &str,
    records: &[Record],
    select: &Select,
    world: &dyn Fn(&Step) -> Reply,
) -> Result<Vec<(Option<String>, String)>, String> {
    let t = terminal(name);
    let mut walk = Walk::new(select);
    loop {
        match walk.advance(&t, records, false) {
            Turn::Ask { walk: next, step } => {
                walk = next;
                walk.hear(world(&step));
            }
            Turn::Finished(caps) => {
                return Ok(caps.into_iter().map(|c| (c.command, c.output)).collect())
            }
            Turn::Failed(e) => return Err(e.chain()),
        }
    }
}

/// A pane with ten lines of history that shows the rows it is asked for.
fn pane(step: &Step) -> Reply {
    match step {
        Step::Run { args, .. } if args[0] == "display-message" => Ok(out("10")),
        Step::Run { args, .. } => Ok(out(&args[args.len() - 4..].join(" "))),
        _ => Err(Failure::because("not for tmux")),
    }
}

fn at_rows(command: &str, start: i64, end: i64) -> Record {
    let mut r = rec(command);
    r.start_line = Some(start);
    r.end_line = Some(end);
    r
}

#[test]
fn a_capture_is_its_blocks_oldest_first() {
    let records = [
        rec("outside"),
        at_rows("one", 4, 5),
        at_rows("tcap", 6, 7),
        at_rows("two", 20, 19),
        at_rows("three", 21, 30),
    ];
    let three = Select {
        commands: Some(3),
        ..Default::default()
    };
    let block = |c: &str, o: &str| (Some(c.to_string()), o.to_string());
    let want = vec![
        block("one", "-S -6 -E -5"),
        block("two", ""),
        block("three", "-S 11 -E 20"),
    ];
    assert_eq!(carry_out("tmux", &records, &three, &pane).unwrap(), want);
    // Blocks that are not to be had are left out, unless they were asked for.
    let many = Select {
        commands: Some(9),
        ..Default::default()
    };
    assert_eq!(carry_out("tmux", &records, &many, &pane).unwrap(), want);
    let fourth = Select {
        cmd_index: Some(4),
        ..Default::default()
    };
    assert!(carry_out("tmux", &records, &fourth, &pane)
        .unwrap_err()
        .starts_with("this command was recorded outside tmux"));
    let fifth = Select {
        cmd_index: Some(5),
        ..Default::default()
    };
    assert!(carry_out("tmux", &records, &fifth, &pane)
        .unwrap_err()
        .starts_with("no command history recorded"));
}

/// The pane scrolls while the blocks are being fetched.
#[test]
fn the_same_question_may_get_another_answer() {
    let records = [at_rows("one", 4, 5), at_rows("two", 8, 9)];
    let both = Select {
        commands: Some(2),
        ..Default::default()
    };
    let asked = std::cell::Cell::new(10);
    let scrolling = |step: &Step| -> Reply {
        match step {
            Step::Run { args, .. } if args[0] == "display-message" => {
                asked.set(asked.get() + 1);
                Ok(out(&asked.get().to_string()))
            }
            other => pane(other),
        }
    };
    assert_eq!(
        carry_out("tmux", &records, &both, &scrolling).unwrap(),
        [
            (Some("one".to_string()), "-S -7 -E -6".to_string()),
            (Some("two".to_string()), "-S -4 -E -3".to_string()),
        ]
    );
}

#[test]
fn a_terminal_without_history_gives_its_last_block_only() {
    let shim = |_: &Step| -> Reply { Ok(out("prompt")) };
    let three = Select {
        commands: Some(3),
        ..Default::default()
    };
    assert_eq!(
        carry_out("iterm2", &[rec("a"), rec("b")], &three, &shim).unwrap(),
        [(Some("b".to_string()), "prompt".to_string())]
    );
    let second = Select {
        cmd_index: Some(2),
        ..Default::default()
    };
    assert!(carry_out("iterm2", &[rec("a")], &second, &shim).is_err());
}

#[test]
fn a_printout_follows_the_settings() {
    let settings = |mode: Mode, quiet: bool| Settings {
        backend: None,
        max_bytes: 0,
        mode,
        quiet,
        copy: true,
    };
    let caps = || vec![Capture::new("\x1b[1ma\n b \n\n".into(), "iterm2")];
    let last = Select {
        last_lines: Some(1),
        ..Default::default()
    };
    let t = terminal("iterm2");
    let show = |s: &Settings| present(caps(), &t, &[], &last, s, None, Some("/bin/fish"));
    let loud = show(&settings(Mode::Annotated, false));
    assert_eq!(loud.text, " b");
    assert_eq!(loud.hints.len(), 2);
    assert!(loud.hints[0].contains("~/.config/fish/config.fish"));
    assert!(loud.copy);
    let quiet = show(&settings(Mode::Annotated, true));
    assert_eq!(quiet.text, " b");
    assert!(quiet.hints.is_empty());
}
