//! The report that says which backend is active and what setup is missing.
//!
//! The failure mode this exists to prevent is a cryptic error from a terminal
//! whose remote control was never enabled. Every check names the fix.

use vstd::prelude::*;

use crate::backend::{
    choose_kind, detected_name, findings, shown_terminal, Diagnostic, DiagnosticView, Kind, TerminalEnv,
};
use crate::config::Config;
use crate::failure::{chain_text, Failure};
use crate::state::{count_located, located, nth_back, nth_from_end, Record};
use crate::text::{
    contains, copy_of, copy_opt, decimal, decimal_of, opt_text, pad_to, padded, same_text,
};

verus! {

/// Everything that the report speaks of.
pub struct Examined {
    /// Where the config file is, and whether the user named that place.
    pub config_path: Option<(String, bool)>,
    /// What the config file says, or why it could not be read.
    pub config: Result<Config, Failure>,
    /// The variables that tell the terminal.
    pub env: TerminalEnv,
    /// What the backend found, or why there is none.
    pub diagnosis: Result<Vec<Diagnostic>, Failure>,
    /// The session's records, oldest first.
    pub records: Vec<Record>,
    /// The key of the session.
    pub session_key: String,
    /// Where the session's log is.
    pub log_path: String,
}

// ---------------------------------------------------------------------------
// Config
// ---------------------------------------------------------------------------

/// A line with a setting, if it is set.
pub open spec fn setting_line(key: Seq<char>, value: Option<Seq<char>>) -> Seq<char> {
    match value {
        Some(v) => "         "@ + key + " = "@ + v + "\n"@,
        None => ""@,
    }
}

/// A yes or no, as the config file writes it.
pub open spec fn flag_text(b: bool) -> Seq<char> {
    if b {
        "true"@
    } else {
        "false"@
    }
}

/// The value of an optional flag.
pub open spec fn opt_flag(b: Option<bool>) -> Option<Seq<char>> {
    match b {
        Some(b) => Some(flag_text(b)),
        None => None,
    }
}

/// The settings that the config file makes.
pub open spec fn settings_text(c: Config) -> Seq<char> {
    setting_line("backend"@, opt_text(c.backend)) + setting_line(
        "max_bytes"@,
        match c.max_bytes {
            Some(n) => Some(decimal(n as nat)),
            None => None,
        },
    ) + setting_line(
        "format"@,
        match c.format {
            Some(f) => Some(f.spelled()),
            None => None,
        },
    ) + setting_line("quiet"@, opt_flag(c.quiet)) + setting_line("copy"@, opt_flag(c.copy))
}

/// What came of the config file.
pub open spec fn config_verdict(config: Result<Config, Failure>) -> Seq<char> {
    match config {
        Ok(c) => if c.says_nothing() {
            "  [ok  ] not present \u{2014} using built-in defaults\n"@
        } else {
            "  [ok  ] loaded\n"@ + settings_text(c)
        },
        Err(e) => "  [FAIL] "@ + chain_text(e@) + "\n"@,
    }
}

/// The section on the config file.
pub open spec fn config_text(
    place: Option<(String, bool)>,
    config: Result<Config, Failure>,
) -> Seq<char> {
    match place {
        Some((path, explicit)) => "  path: "@ + path@ + (if explicit {
            " (via $TCAP_CONFIG)"@
        } else {
            ""@
        }) + "\n"@ + config_verdict(config),
        None => "  [ok  ] no HOME or XDG_CONFIG_HOME \u{2014} config disabled\n"@,
    }
}

fn setting(key: &str, value: Option<String>) -> (r: String)
    ensures
        r@ == setting_line(key@, opt_text(value)),
{
    match value {
        Some(v) => {
            let mut s = copy_of("         ");
            s.append(key);
            s.append(" = ");
            s.append(v.as_str());
            s.append("\n");
            s
        },
        None => copy_of(""),
    }
}

fn flag(b: Option<bool>) -> (r: Option<String>)
    ensures
        opt_text(r) == opt_flag(b),
{
    match b {
        Some(true) => Some(copy_of("true")),
        Some(false) => Some(copy_of("false")),
        None => None,
    }
}

fn settings(c: &Config) -> (r: String)
    ensures
        r@ == settings_text(*c),
{
    let mut s = setting("backend", copy_opt(&c.backend));
    let bytes = match c.max_bytes {
        Some(n) => Some(decimal_of(n as u64)),
        None => None,
    };
    s.append(setting("max_bytes", bytes).as_str());
    let format = match c.format {
        Some(f) => Some(copy_of(f.spelling())),
        None => None,
    };
    s.append(setting("format", format).as_str());
    s.append(setting("quiet", flag(c.quiet)).as_str());
    s.append(setting("copy", flag(c.copy)).as_str());
    s
}

fn config_section(place: &Option<(String, bool)>, config: &Result<Config, Failure>) -> (r: String)
    ensures
        r@ == config_text(*place, *config),
{
    match place {
        Some((path, explicit)) => {
            let mut s = copy_of("  path: ");
            s.append(path.as_str());
            s.append(
                if *explicit {
                    " (via $TCAP_CONFIG)"
                } else {
                    ""
                },
            );
            s.append("\n");
            let verdict = match config {
                Ok(c) => {
                    if c.is_default() {
                        copy_of("  [ok  ] not present \u{2014} using built-in defaults\n")
                    } else {
                        let mut v = copy_of("  [ok  ] loaded\n");
                        v.append(settings(c).as_str());
                        v
                    }
                },
                Err(e) => {
                    let mut v = copy_of("  [FAIL] ");
                    v.append(e.chain().as_str());
                    v.append("\n");
                    v
                },
            };
            s.append(verdict.as_str());
            s
        },
        None => copy_of("  [ok  ] no HOME or XDG_CONFIG_HOME \u{2014} config disabled\n"),
    }
}

// ---------------------------------------------------------------------------
// Environment
// ---------------------------------------------------------------------------

/// The line of one variable.
pub open spec fn variable_line(name: Seq<char>, value: Option<Seq<char>>) -> Seq<char> {
    "  "@ + padded(name, 18) + " "@ + (match value {
        Some(v) => v,
        None => "(unset)"@,
    }) + "\n"@
}

/// The section on the environment.
pub open spec fn env_text(env: TerminalEnv) -> Seq<char> {
    variable_line("TERM"@, opt_text(env.term)) + variable_line(
        "TERM_PROGRAM"@,
        opt_text(env.term_program),
    ) + variable_line("TMUX"@, opt_text(env.tmux)) + variable_line(
        "KITTY_WINDOW_ID"@,
        opt_text(env.kitty_window_id),
    ) + variable_line("WEZTERM_PANE"@, opt_text(env.wezterm_pane)) + variable_line(
        "ITERM_SESSION_ID"@,
        opt_text(env.iterm_session_id),
    )
}

fn variable(name: &str, value: &Option<String>) -> (r: String)
    ensures
        r@ == variable_line(name@, opt_text(*value)),
{
    let mut s = copy_of("  ");
    s.append(pad_to(name, 18).as_str());
    s.append(" ");
    match value {
        Some(v) => s.append(v.as_str()),
        None => s.append("(unset)"),
    }
    s.append("\n");
    s
}

fn env_section(env: &TerminalEnv) -> (r: String)
    ensures
        r@ == env_text(*env),
{
    let mut s = variable("TERM", &env.term);
    s.append(variable("TERM_PROGRAM", &env.term_program).as_str());
    s.append(variable("TMUX", &env.tmux).as_str());
    s.append(variable("KITTY_WINDOW_ID", &env.kitty_window_id).as_str());
    s.append(variable("WEZTERM_PANE", &env.wezterm_pane).as_str());
    s.append(variable("ITERM_SESSION_ID", &env.iterm_session_id).as_str());
    s
}

// ---------------------------------------------------------------------------
// Backend
// ---------------------------------------------------------------------------

/// Why tmux is asked rather than the terminal it runs in.
pub const TMUX_FIRST: &'static str = "  tmux takes priority over the outer terminal: it renders the\n  \
    screen itself, so the terminal underneath cannot see the\n  \
    shell's real scrollback or prompt marks.\n";

/// What to say outside every supported terminal.
pub const NO_BACKEND: &'static str = "  No supported terminal detected. tcap needs to ask the terminal\n  \
    for its scrollback, which requires a remote-control API.\n\n  \
    Supported: tmux, kitty, WezTerm, iTerm2\n\n  \
    Ghostty, Terminal.app and Alacritty expose no such API. Running\n  \
    inside tmux works in all of them:\n\n    tmux\n";

/// The line of one finding.
pub open spec fn finding_line(d: DiagnosticView) -> Seq<char> {
    (if d.ok {
        "  [ok  ] "@
    } else {
        "  [FAIL] "@
    }) + padded(d.label, 24) + " "@ + d.detail + "\n"@
}

/// The lines of the findings.
pub open spec fn finding_lines(list: Seq<DiagnosticView>) -> Seq<char>
    decreases list.len(),
{
    if list.len() == 0 {
        ""@
    } else {
        finding_lines(list.drop_last()) + finding_line(list.last())
    }
}

/// What the backend found, or why there is none.
pub open spec fn diagnosis_text(diagnosis: Result<Vec<Diagnostic>, Failure>) -> Seq<char> {
    match diagnosis {
        Ok(list) => finding_lines(findings(list@)),
        Err(e) => "  could not initialise backend: "@ + e@.message + "\n"@,
    }
}

/// The section on the backend.
pub open spec fn backend_text(
    env: TerminalEnv,
    diagnosis: Result<Vec<Diagnostic>, Failure>,
) -> Seq<char> {
    match shown_terminal(env) {
        Some(k) => "Backend: "@ + k.label() + "\n"@ + (if k == Kind::Tmux {
            TMUX_FIRST@
        } else {
            ""@
        }) + "\n"@ + diagnosis_text(diagnosis),
        None => "Backend: none\n\n"@ + NO_BACKEND@,
    }
}

fn finding(d: &Diagnostic) -> (r: String)
    ensures
        r@ == finding_line(d@),
{
    let mut s = copy_of(
        if d.ok {
            "  [ok  ] "
        } else {
            "  [FAIL] "
        },
    );
    s.append(pad_to(d.label.as_str(), 24).as_str());
    s.append(" ");
    s.append(d.detail.as_str());
    s.append("\n");
    s
}

fn diagnosis_section(diagnosis: &Result<Vec<Diagnostic>, Failure>) -> (r: String)
    ensures
        r@ == diagnosis_text(*diagnosis),
{
    match diagnosis {
        Ok(list) => {
            let mut s = copy_of("");
            let ghost all = findings(list@);
            let mut i: usize = 0;
            assert(all.take(0).len() == 0);
            while i < list.len()
                invariant
                    i <= list@.len(),
                    all == findings(list@),
                    s@ == finding_lines(all.take(i as int)),
                decreases list@.len() - i,
            {
                assert(all.take(i + 1).drop_last() == all.take(i as int));
                assert(all.take(i + 1).last() == list@[i as int]@);
                s.append(finding(&list[i]).as_str());
                i = i + 1;
            }
            assert(all.take(i as int) == all);
            s
        },
        Err(e) => {
            let mut s = copy_of("  could not initialise backend: ");
            s.append(e.message.as_str());
            s.append("\n");
            s
        },
    }
}

fn backend_section(env: &TerminalEnv, diagnosis: &Result<Vec<Diagnostic>, Failure>) -> (r: String)
    ensures
        r@ == backend_text(*env, *diagnosis),
{
    match detected_name(env) {
        Some(name) => {
            let mut s = copy_of("Backend: ");
            s.append(name);
            s.append("\n");
            proof {
                reveal_strlit("tmux");
                reveal_strlit("kitty");
                reveal_strlit("wezterm");
                reveal_strlit("iterm2");
                assert("kitty"@[0] != "tmux"@[0]);
                assert("wezterm"@[0] != "tmux"@[0]);
                assert("iterm2"@[0] != "tmux"@[0]);
            }
            s.append(
                if same_text(name, "tmux") {
                    TMUX_FIRST
                } else {
                    ""
                },
            );
            s.append("\n");
            s.append(diagnosis_section(diagnosis).as_str());
            s
        },
        None => {
            let mut s = copy_of("Backend: none\n\n");
            s.append(NO_BACKEND);
            s
        },
    }
}

// ---------------------------------------------------------------------------
// Shell integration and history
// ---------------------------------------------------------------------------

/// The section on shell integration. It is independent of the backend: kitty
/// works without it, but then there is no exit code or duration to report.
pub open spec fn shell_text(records: Seq<Record>, key: Seq<char>, log: Seq<char>) -> Seq<char> {
    if records.len() == 0 {
        "  [FAIL] no commands recorded for this session\n         (session key: "@ + key
            + ")\n\n         Add to ~/.zshrc:   eval \"$(tcap init zsh)\"\n         Then open a new shell and run a command.\n"@
    } else {
        "  [ok  ] "@ + decimal(records.len()) + " commands recorded ("@ + decimal(
            located(records),
        ) + " with pane coordinates)\n"@ + (match nth_back(records, 1) {
            Some(r) => "         last: "@ + r.command@ + "\n"@,
            None => ""@,
        }) + "         log: "@ + log + "\n"@
    }
}

fn shell_section(records: &[Record], key: &str, log: &str) -> (r: String)
    ensures
        r@ == shell_text(records@, key@, log@),
{
    if records.len() == 0 {
        let mut s = copy_of(
            "  [FAIL] no commands recorded for this session\n         (session key: ",
        );
        s.append(key);
        s.append(
            ")\n\n         Add to ~/.zshrc:   eval \"$(tcap init zsh)\"\n         Then open a new shell and run a command.\n",
        );
        return s;
    }
    let mut s = copy_of("  [ok  ] ");
    s.append(decimal_of(records.len() as u64).as_str());
    s.append(" commands recorded (");
    s.append(decimal_of(count_located(records) as u64).as_str());
    s.append(" with pane coordinates)\n");
    let last = match nth_from_end(records, 1) {
        Some(r) => {
            let mut l = copy_of("         last: ");
            l.append(r.command.as_str());
            l.append("\n");
            l
        },
        None => copy_of(""),
    };
    s.append(last.as_str());
    s.append("         log: ");
    s.append(log);
    s.append("\n");
    s
}

/// What to say where older commands can be reached.
pub const DEEP: &'static str = "  [ok  ] -c 2 and beyond available (tmux)\n";

/// What to say where they cannot.
pub const SHALLOW: &'static str = "  [FAIL] only the most recent command is reachable\n         \
    kitty and iTerm2 expose their latest command block and\n         \
    nothing older. Run inside tmux for -c 2 and beyond.\n";

/// The section on how far back a capture can reach: only tmux goes past the
/// most recent command.
pub open spec fn depth_text(env: TerminalEnv) -> Seq<char> {
    if shown_terminal(env) == Some(Kind::Tmux) {
        DEEP@
    } else {
        SHALLOW@
    }
}

/// The whole report.
pub open spec fn report_text(x: Examined) -> Seq<char> {
    "tcap doctor\n\nConfig\n"@ + config_text(x.config_path, x.config) + "\nEnvironment\n"@
        + env_text(x.env) + "\n"@ + backend_text(x.env, x.diagnosis) + "\nShell integration\n"@
        + shell_text(x.records@, x.session_key@, x.log_path@) + "\nHistory depth\n"@ + depth_text(
        x.env,
    )
}

/// The whole report. The config file comes first: a bad one changes the meaning
/// of everything below it, and this report must still come when it is broken.
pub fn run(x: &Examined) -> (r: String)
    ensures
        r@ == report_text(*x),
{
    let mut out = copy_of("tcap doctor\n\nConfig\n");
    out.append(config_section(&x.config_path, &x.config).as_str());
    out.append("\nEnvironment\n");
    out.append(env_section(&x.env).as_str());
    out.append("\n");
    out.append(backend_section(&x.env, &x.diagnosis).as_str());
    out.append("\nShell integration\n");
    out.append(
        shell_section(
            x.records.as_slice(),
            x.session_key.as_str(),
            x.log_path.as_str(),
        ).as_str(),
    );
    out.append("\nHistory depth\n");
    let deep = match choose_kind(None, &x.env) {
        Ok(Kind::Tmux) => true,
        _ => false,
    };
    out.append(
        if deep {
            DEEP
        } else {
            SHALLOW
        },
    );
    out
}

// ---------------------------------------------------------------------------
// Laws
// ---------------------------------------------------------------------------

/// A config file that is broken is reported, with all that is known of the
/// cause.
pub proof fn law_a_broken_config_is_reported(x: Examined)
    requires
        x.config_path is Some,
        x.config is Err,
    ensures
        contains(report_text(x), "  [FAIL] "@ + chain_text(x.config->Err_0@) + "\n"@),
{
    let needle = "  [FAIL] "@ + chain_text(x.config->Err_0@) + "\n"@;
    let section = config_text(x.config_path, x.config);
    let start = "tcap doctor\n\nConfig\n"@;
    let i = section.len() - needle.len();
    assert(section.subrange(i, section.len() as int) == needle);
    let end = report_text(x).skip((start + section).len() as int);
    crate::text::lemma_occurs_within(start, section, end, needle, i);
    assert(start + section + end == report_text(x));
}

/// The report has five sections, in a fixed order, each under its heading.
pub proof fn law_the_sections_of_the_report(x: Examined)
    ensures
        report_text(x) == "tcap doctor\n\nConfig\n"@ + config_text(x.config_path, x.config)
            + "\nEnvironment\n"@ + env_text(x.env) + "\n"@ + backend_text(x.env, x.diagnosis)
            + "\nShell integration\n"@ + shell_text(x.records@, x.session_key@, x.log_path@)
            + "\nHistory depth\n"@ + depth_text(x.env),
{
}

/// Every finding is reported, however many there are: on a line of its own, with
/// the mark of how it came out, its label and its whole detail.
pub proof fn law_every_finding_is_reported(list: Seq<DiagnosticView>, i: int)
    requires
        0 <= i < list.len(),
    ensures
        list[i].ok ==> contains(
            finding_lines(list),
            "  [ok  ] "@ + padded(list[i].label, 24) + " "@ + list[i].detail + "\n"@,
        ),
        !list[i].ok ==> contains(
            finding_lines(list),
            "  [FAIL] "@ + padded(list[i].label, 24) + " "@ + list[i].detail + "\n"@,
        ),
    decreases list.len(),
{
    let line = finding_line(list[i]);
    let empty = Seq::<char>::empty();
    let front = finding_lines(list.drop_last());
    let last = finding_line(list.last());
    if i == list.len() - 1 {
        assert(line.subrange(0, line.len() as int) == line);
        crate::text::lemma_occurs_within(front, line, empty, line, 0);
        assert(finding_lines(list) == front + line + empty);
    } else {
        law_every_finding_is_reported(list.drop_last(), i);
        assert(list.drop_last()[i] == list[i]);
        assert(contains(front, line));
        let k = choose|k: int| crate::text::occurs_at(front, line, k);
        crate::text::lemma_occurs_within(empty, front, last, line, k);
        assert(finding_lines(list) == empty + front + last);
    }
}

/// Findings are reported one after the other, in order, and nothing else is.
pub proof fn law_findings_are_reported_in_order(list: Seq<DiagnosticView>, d: DiagnosticView)
    ensures
        finding_lines(Seq::empty()).len() == 0,
        finding_lines(list.push(d)) == finding_lines(list) + ((if d.ok {
            "  [ok  ] "@
        } else {
            "  [FAIL] "@
        }) + padded(d.label, 24) + " "@ + d.detail + "\n"@),
{
    reveal_strlit("");
    assert(list.push(d).drop_last() == list);
}

/// The section on the backend names the backend, gives its findings or why there
/// are none, and explains why tmux comes first exactly where it does.
pub proof fn law_what_is_said_of_the_backend(x: Examined)
    ensures
        ({
            let shown = shown_terminal(x.env);
            let found = match x.diagnosis {
                Ok(list) => finding_lines(Seq::new(list@.len(), |i: int| list@[i]@)),
                Err(e) => "  could not initialise backend: "@ + e.message@ + "\n"@,
            };
            let text = backend_text(x.env, x.diagnosis);
            &&& shown == Some(Kind::Tmux) ==> text == "Backend: "@ + "tmux"@ + "\n"@ + TMUX_FIRST@
                + "\n"@ + found
            &&& shown == Some(Kind::Kitty) ==> text == "Backend: "@ + "kitty"@ + "\n"@ + "\n"@
                + found
            &&& shown == Some(Kind::WezTerm) ==> text == "Backend: "@ + "wezterm"@ + "\n"@ + "\n"@
                + found
            &&& shown == Some(Kind::ITerm2) ==> text == "Backend: "@ + "iterm2"@ + "\n"@ + "\n"@
                + found
            &&& shown is None ==> text == "Backend: none\n\n"@ + NO_BACKEND@
            &&& shown == Some(Kind::Tmux) ==> depth_text(x.env) == DEEP@
            &&& shown != Some(Kind::Tmux) ==> depth_text(x.env) == SHALLOW@
        }),
{
    reveal_strlit("");
    assert(""@ == Seq::<char>::empty());
    if x.diagnosis is Ok {
        let list = x.diagnosis->Ok_0;
        assert(findings(list@) == Seq::new(list@.len(), |i: int| list@[i]@));
    }
}

/// The section on the config file: where it is, and whether the user named that
/// place; then each setting that it makes, with its value, or that it makes none,
/// or why it could not be read.
pub proof fn law_what_is_said_of_the_config(path: String, explicit: bool, c: Config, e: Failure)
    ensures
        ({
            let place = Some((path, explicit));
            let start = if explicit {
                "  path: "@ + path@ + " (via $TCAP_CONFIG)"@ + "\n"@
            } else {
                "  path: "@ + path@ + "\n"@
            };
            let line = |key: Seq<char>, value: Seq<char>|
                "         "@ + key + " = "@ + value + "\n"@;
            let none = Seq::<char>::empty();
            let backend = if c.backend is Some {
                line("backend"@, c.backend->0@)
            } else {
                none
            };
            let max_bytes = if c.max_bytes is Some {
                line("max_bytes"@, decimal(c.max_bytes->0 as nat))
            } else {
                none
            };
            let format = if c.format is Some {
                line("format"@, c.format->0.spelled())
            } else {
                none
            };
            let quiet = match c.quiet {
                Some(true) => line("quiet"@, "true"@),
                Some(false) => line("quiet"@, "false"@),
                None => none,
            };
            let copy = match c.copy {
                Some(true) => line("copy"@, "true"@),
                Some(false) => line("copy"@, "false"@),
                None => none,
            };
            let silent = c.backend is None && c.max_bytes is None && c.format is None && c.quiet
                is None && c.copy is None;
            &&& !silent ==> config_text(place, Ok(c)) == start + ("  [ok  ] loaded\n"@ + (backend
                + max_bytes + format + quiet + copy))
            &&& silent ==> config_text(place, Ok(c)) == start
                + "  [ok  ] not present \u{2014} using built-in defaults\n"@
            &&& config_text(place, Err(e)) == start + ("  [FAIL] "@ + chain_text(e@) + "\n"@)
            &&& config_text(None, Ok(c))
                == "  [ok  ] no HOME or XDG_CONFIG_HOME \u{2014} config disabled\n"@
        }),
{
    reveal_strlit("");
    assert(""@ == Seq::<char>::empty());
    assert("  path: "@ + path@ + ""@ + "\n"@ == "  path: "@ + path@ + "\n"@);
}

/// The section on the environment: each of the six variables on a line of its
/// own, with its whole value, or that it is unset.
pub proof fn law_what_is_said_of_the_environment(env: TerminalEnv)
    ensures
        ({
            let line = |name: Seq<char>, value: Option<String>|
                "  "@ + padded(name, 18) + " "@ + (if value is Some {
                    value->0@
                } else {
                    "(unset)"@
                }) + "\n"@;
            env_text(env) == line("TERM"@, env.term) + line("TERM_PROGRAM"@, env.term_program)
                + line("TMUX"@, env.tmux) + line("KITTY_WINDOW_ID"@, env.kitty_window_id) + line(
                "WEZTERM_PANE"@,
                env.wezterm_pane,
            ) + line("ITERM_SESSION_ID"@, env.iterm_session_id)
        }),
{
}

/// The section on shell integration: how many commands are recorded and how many
/// of them have coordinates, the last one that is not tcap's own, and where the
/// log is; or, without any, the session's key.
pub proof fn law_what_is_said_of_the_records(records: Seq<Record>, key: Seq<char>, log: Seq<char>)
    ensures
        records.len() > 0 ==> shell_text(records, key, log) == "  [ok  ] "@ + decimal(records.len())
            + " commands recorded ("@ + decimal(
            records.filter(|r: Record| r.start_line is Some).len(),
        ) + " with pane coordinates)\n"@ + (if nth_back(records, 1) is Some {
            "         last: "@ + nth_back(records, 1)->0.command@ + "\n"@
        } else {
            Seq::empty()
        }) + "         log: "@ + log + "\n"@,
        records.len() == 0 ==> shell_text(records, key, log)
            == "  [FAIL] no commands recorded for this session\n         (session key: "@ + key
            + ")\n\n         Add to ~/.zshrc:   eval \"$(tcap init zsh)\"\n         Then open a new shell and run a command.\n"@,
{
    reveal_strlit("");
    assert(""@ == Seq::<char>::empty());
    crate::state::law_records_with_coordinates_are_counted(records);
}

} // verus!
