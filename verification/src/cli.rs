//! What the command line asks for.
//!
//! Two axes, each with an index and a count form, following one rule:
//! **lowercase selects the Nth from the end, uppercase takes the last N.**
//!
//! ```text
//!   commands:  -c N (Nth block from end)   -C N (last N blocks)
//!   lines:     -l N (Nth line from end)    -L N (last N lines)
//! ```

use vstd::prelude::*;

use crate::config::Config;
use crate::text::{copy_opt, opt_text};

verus! {

/// The byte budget when neither a flag nor the config file gives one.
pub const DEFAULT_MAX_BYTES: usize = 64_000;

/// Which rendering to use. `Annotated` is the default: command, exit code and
/// cwd above the output.
#[derive(Clone, Copy, PartialEq, Eq, Structural, Debug)]
pub enum Mode {
    Annotated,
    Output,
    Command,
    Raw,
    Json,
}

/// The shells that there is an integration for.
#[derive(Clone, Copy, PartialEq, Eq, Structural, Debug)]
pub enum ShellKind {
    Zsh,
    Bash,
    Fish,
}

/// Which blocks and which lines of each block to take.
#[derive(Clone, Copy, PartialEq, Eq, Debug)]
pub struct Select {
    /// The Nth command block from the end (1 is the last command).
    pub cmd_index: Option<usize>,
    /// The last N command blocks.
    pub commands: Option<usize>,
    /// The Nth line from the end of each block's output.
    pub line_index: Option<usize>,
    /// The last N lines of each block's output.
    pub last_lines: Option<usize>,
}

/// An index or a count as the flags take it: nothing is below 1.
pub open spec fn at_least_one(n: usize) -> usize {
    if n == 0 {
        1
    } else {
        n
    }
}

/// `n`, or 1 in place of 0.
pub fn one_or_more(n: usize) -> (r: usize)
    ensures
        r == at_least_one(n),
{
    if n == 0 {
        1
    } else {
        n
    }
}

impl Default for Select {
    fn default() -> (r: Select)
        ensures
            r.cmd_index is None,
            r.commands is None,
            r.line_index is None,
            r.last_lines is None,
    {
        Select { cmd_index: None, commands: None, line_index: None, last_lines: None }
    }
}

impl Select {
    /// How many blocks to fetch, and the index of the newest one to take.
    pub open spec fn blocks(self) -> (usize, usize) {
        match (self.cmd_index, self.commands) {
            (_, Some(c)) => (at_least_one(c), 1),
            (Some(n), None) => (1, at_least_one(n)),
            (None, None) => (1, 1),
        }
    }

    /// How many blocks to fetch, and the index of the newest one to take.
    ///
    /// Defaults to a single block at index 1, the command just run.
    pub fn block_range(&self) -> (r: (usize, usize))
        ensures
            r == self.blocks(),
    {
        match (self.cmd_index, self.commands) {
            (_, Some(c)) => (one_or_more(c), 1),
            (Some(n), None) => (1, one_or_more(n)),
            (None, None) => (1, 1),
        }
    }
}

/// The format flags.
#[derive(Clone, Copy, PartialEq, Eq, Debug)]
pub struct Format {
    /// Only the output, without the annotation header.
    pub output: bool,
    /// Only the command text.
    pub command_only: bool,
    /// Verbatim as it appeared, no header.
    pub raw: bool,
    /// Structured JSON.
    pub json: bool,
}

impl Default for Format {
    fn default() -> (r: Format)
        ensures
            !r.output && !r.command_only && !r.raw && !r.json,
    {
        Format { output: false, command_only: false, raw: false, json: false }
    }
}

impl Format {
    /// The mode that the flags ask for.
    pub open spec fn asked(self) -> Option<Mode> {
        if self.json {
            Some(Mode::Json)
        } else if self.raw {
            Some(Mode::Raw)
        } else if self.command_only {
            Some(Mode::Command)
        } else if self.output {
            Some(Mode::Output)
        } else {
            None
        }
    }

    /// The mode a format flag asked for, or `None` when none was passed.
    ///
    /// `None` rather than `Annotated`, so that the caller can tell "no flag
    /// given" from "explicitly annotated" and let the config file have its say.
    pub fn mode(&self) -> (r: Option<Mode>)
        ensures
            r == self.asked(),
    {
        if self.json {
            Some(Mode::Json)
        } else if self.raw {
            Some(Mode::Raw)
        } else if self.command_only {
            Some(Mode::Command)
        } else if self.output {
            Some(Mode::Output)
        } else {
            None
        }
    }
}

/// The command line of a capture. `backend` is set by a flag or, without one,
/// by the environment.
#[derive(Clone, Debug)]
pub struct Cli {
    pub select: Select,
    pub format: Format,
    pub copy: bool,
    pub no_copy: bool,
    pub quiet: bool,
    pub no_quiet: bool,
    pub backend: Option<String>,
    pub max_bytes: Option<usize>,
}

/// Settings after flags, environment, config and defaults are folded together.
#[derive(Clone, Debug, PartialEq, Eq)]
pub struct Settings {
    pub backend: Option<String>,
    pub max_bytes: usize,
    pub mode: Mode,
    pub quiet: bool,
    pub copy: bool,
}

/// What [`Settings`] hold.
#[verifier::ext_equal]
pub struct SettingsView {
    pub backend: Option<Seq<char>>,
    pub max_bytes: usize,
    pub mode: Mode,
    pub quiet: bool,
    pub copy: bool,
}

impl View for Settings {
    type V = SettingsView;

    open spec fn view(&self) -> SettingsView {
        SettingsView {
            backend: opt_text(self.backend),
            max_bytes: self.max_bytes,
            mode: self.mode,
            quiet: self.quiet,
            copy: self.copy,
        }
    }
}

/// The first of two options that is set, and `default` if neither is.
pub open spec fn first_set<T>(a: Option<T>, b: Option<T>, default: T) -> T {
    match (a, b) {
        (Some(x), _) => x,
        (None, Some(x)) => x,
        (None, None) => default,
    }
}

/// What a pair of opposite flags says: the positive one first, then the
/// negative one, then the config file, which says no unless it says yes.
pub open spec fn switched(on: bool, off: bool, configured: Option<bool>) -> bool {
    on || (!off && configured == Some(true))
}

/// The settings that a command line and a config file come to.
pub open spec fn resolved(cli: Cli, cfg: Config) -> SettingsView {
    SettingsView {
        backend: match (cli.backend, cfg.backend) {
            (Some(b), _) => Some(b@),
            (None, Some(b)) => Some(b@),
            (None, None) => None,
        },
        max_bytes: first_set(cli.max_bytes, cfg.max_bytes, DEFAULT_MAX_BYTES),
        mode: first_set(
            cli.format.asked(),
            match cfg.format {
                Some(f) => Some(f.as_mode()),
                None => None,
            },
            Mode::Annotated,
        ),
        quiet: switched(cli.quiet, cli.no_quiet, cfg.quiet),
        copy: switched(cli.copy, cli.no_copy, cfg.copy),
    }
}

/// What a pair of opposite flags and the config file say.
fn switch(on: bool, off: bool, configured: Option<bool>) -> (r: bool)
    ensures
        r == switched(on, off, configured),
{
    if on {
        true
    } else if off {
        false
    } else {
        match configured {
            Some(b) => b,
            None => false,
        }
    }
}

impl Cli {
    /// Resolves precedence: flags, then the environment, then the config file,
    /// then the defaults.
    pub fn resolve(&self, cfg: &Config) -> (r: Settings)
        ensures
            r@ == resolved(*self, *cfg),
    {
        let backend = match &self.backend {
            Some(_) => copy_opt(&self.backend),
            None => copy_opt(&cfg.backend),
        };
        let max_bytes: usize = match (self.max_bytes, cfg.max_bytes) {
            (Some(n), _) => n,
            (None, Some(n)) => n,
            (None, None) => DEFAULT_MAX_BYTES,
        };
        let mode = match self.format.mode() {
            Some(m) => m,
            None => match cfg.format {
                Some(f) => Mode::from(f),
                None => Mode::Annotated,
            },
        };
        Settings {
            backend,
            max_bytes,
            mode,
            quiet: switch(self.quiet, self.no_quiet, cfg.quiet),
            copy: switch(self.copy, self.no_copy, cfg.copy),
        }
    }
}

// ---------------------------------------------------------------------------
// Laws
// ---------------------------------------------------------------------------

/// A flag wins over the config file: what the file says of a setting that the
/// command line sets has no effect.
pub proof fn law_flags_beat_the_config(cli: Cli, a: Config, b: Config)
    ensures
        cli.backend is Some ==> resolved(cli, a).backend == resolved(cli, b).backend,
        cli.max_bytes is Some ==> resolved(cli, a).max_bytes == resolved(cli, b).max_bytes,
        cli.format.asked() is Some ==> resolved(cli, a).mode == resolved(cli, b).mode,
        cli.quiet || cli.no_quiet ==> resolved(cli, a).quiet == resolved(cli, b).quiet,
        cli.copy || cli.no_copy ==> resolved(cli, a).copy == resolved(cli, b).copy,
{
}

/// A boolean of the config file can be undone from the command line.
pub proof fn law_config_booleans_are_escapable(cli: Cli, cfg: Config)
    ensures
        cli.no_quiet && !cli.quiet ==> !resolved(cli, cfg).quiet,
        cli.no_copy && !cli.copy ==> !resolved(cli, cfg).copy,
{
}

/// Neither the count of blocks nor the index of the newest is ever 0, and one
/// of the two is 1.
pub proof fn law_block_range_is_positive(s: Select)
    ensures
        s.blocks().0 >= 1,
        s.blocks().1 >= 1,
        s.blocks().0 == 1 || s.blocks().1 == 1,
{
}

/// Where neither the command line nor the config file says anything, the
/// defaults hold.
pub proof fn law_the_defaults_hold_otherwise(cli: Cli, cfg: Config)
    requires
        cli.backend is None,
        cli.max_bytes is None,
        cli.format.asked() is None,
        !cli.quiet && !cli.no_quiet && !cli.copy && !cli.no_copy,
        cfg.says_nothing(),
    ensures
        resolved(cli, cfg) == (SettingsView {
            backend: None,
            max_bytes: DEFAULT_MAX_BYTES,
            mode: Mode::Annotated,
            quiet: false,
            copy: false,
        }),
{
}

/// What each setting comes to: the flag's value, else the file's, else the
/// default, whatever the values are.
pub proof fn law_where_each_setting_comes_from(cli: Cli, cfg: Config)
    ensures
        ({
            let s = resolved(cli, cfg);
            let asked = cli.format.json || cli.format.raw || cli.format.command_only
                || cli.format.output;
            &&& cli.backend is Some ==> s.backend == Some(cli.backend->0@)
            &&& cli.backend is None && cfg.backend is Some ==> s.backend == Some(cfg.backend->0@)
            &&& cli.backend is None && cfg.backend is None ==> s.backend is None
            &&& cli.max_bytes is Some ==> s.max_bytes == cli.max_bytes->0
            &&& cli.max_bytes is None && cfg.max_bytes is Some ==> s.max_bytes == cfg.max_bytes->0
            &&& cli.max_bytes is None && cfg.max_bytes is None ==> s.max_bytes == 64_000
            &&& cli.format.json ==> s.mode == Mode::Json
            &&& cli.format.raw && !cli.format.json ==> s.mode == Mode::Raw
            &&& cli.format.command_only && !cli.format.raw && !cli.format.json ==> s.mode
                == Mode::Command
            &&& cli.format.output && !cli.format.command_only && !cli.format.raw
                && !cli.format.json ==> s.mode == Mode::Output
            &&& !asked && cfg.format is None ==> s.mode == Mode::Annotated
            &&& !asked && cfg.format is Some ==> s.mode == match cfg.format->0 {
                crate::config::FormatName::Annotated => Mode::Annotated,
                crate::config::FormatName::Output => Mode::Output,
                crate::config::FormatName::Command => Mode::Command,
                crate::config::FormatName::Raw => Mode::Raw,
                crate::config::FormatName::Json => Mode::Json,
            }
            &&& cli.quiet ==> s.quiet
            &&& !cli.quiet && !cli.no_quiet ==> s.quiet == (cfg.quiet == Some(true))
            &&& cli.copy ==> s.copy
            &&& !cli.copy && !cli.no_copy ==> s.copy == (cfg.copy == Some(true))
        }),
{
}

/// A count takes that many blocks, from the newest on; an index takes the one
/// block there; both at once take the count; 0 counts as 1; without either the
/// last command is taken.
pub proof fn law_which_blocks_are_asked_for(s: Select)
    ensures
        s.commands is Some && s.commands->0 > 0 ==> s.blocks() == (s.commands->0, 1usize),
        s.commands is Some && s.commands->0 == 0 ==> s.blocks() == (1usize, 1usize),
        s.commands is None && s.cmd_index is Some && s.cmd_index->0 > 0 ==> s.blocks() == (
            1usize,
            s.cmd_index->0,
        ),
        s.commands is None && s.cmd_index is Some && s.cmd_index->0 == 0 ==> s.blocks() == (
            1usize,
            1usize,
        ),
        s.commands is None && s.cmd_index is None ==> s.blocks() == (1usize, 1usize),
{
}

/// Settings are seen with all that they hold.
pub proof fn law_settings_are_seen_whole(s: Settings)
    ensures
        s@.backend is Some == s.backend is Some,
        s.backend is Some ==> s@.backend->0 == s.backend->0@,
        s@.max_bytes == s.max_bytes,
        s@.mode == s.mode,
        s@.quiet == s.quiet,
        s@.copy == s.copy,
{
}

} // verus!
