//! The config file: what it can say, where it is, and what it means that it
//! is missing.
//!
//! It gives defaults only: `flags > environment > config file > built-in
//! defaults`.

use vstd::prelude::*;
use vstd::string::StringSliceAdditionalSpecFns;

use crate::cli::Mode;
use crate::failure::{caused_failure, plain_failure, Failure, FailureView};
use crate::text::copy_of;

verus! {

/// The formats that the config file can name.
#[derive(Clone, Copy, PartialEq, Eq, Structural, Debug)]
pub enum FormatName {
    Annotated,
    Output,
    Command,
    Raw,
    Json,
}

impl FormatName {
    /// The mode of this name.
    pub open spec fn as_mode(self) -> Mode {
        match self {
            FormatName::Annotated => Mode::Annotated,
            FormatName::Output => Mode::Output,
            FormatName::Command => Mode::Command,
            FormatName::Raw => Mode::Raw,
            FormatName::Json => Mode::Json,
        }
    }

    /// The name as the config file writes it.
    pub open spec fn spelled(self) -> Seq<char> {
        match self {
            FormatName::Annotated => "annotated"@,
            FormatName::Output => "output"@,
            FormatName::Command => "command"@,
            FormatName::Raw => "raw"@,
            FormatName::Json => "json"@,
        }
    }

    /// The name as the config file writes it.
    pub fn spelling(self) -> (r: &'static str)
        ensures
            r@ == self.spelled(),
    {
        match self {
            FormatName::Annotated => "annotated",
            FormatName::Output => "output",
            FormatName::Command => "command",
            FormatName::Raw => "raw",
            FormatName::Json => "json",
        }
    }
}

impl From<FormatName> for Mode {
    fn from(f: FormatName) -> (r: Mode) {
        match f {
            FormatName::Annotated => Mode::Annotated,
            FormatName::Output => Mode::Output,
            FormatName::Command => Mode::Command,
            FormatName::Raw => Mode::Raw,
            FormatName::Json => Mode::Json,
        }
    }
}

impl vstd::std_specs::convert::FromSpecImpl<FormatName> for Mode {
    open spec fn obeys_from_spec() -> bool {
        true
    }

    open spec fn from_spec(f: FormatName) -> Mode {
        f.as_mode()
    }
}

/// What the config file says. Every key is optional.
#[derive(Clone, Debug, PartialEq)]
pub struct Config {
    pub backend: Option<String>,
    /// 0 disables truncation.
    pub max_bytes: Option<usize>,
    pub format: Option<FormatName>,
    pub quiet: Option<bool>,
    pub copy: Option<bool>,
}

impl Default for Config {
    fn default() -> (r: Config)
        ensures
            r.says_nothing(),
    {
        Config { backend: None, max_bytes: None, format: None, quiet: None, copy: None }
    }
}

impl Config {
    /// Whether no key is set.
    pub open spec fn says_nothing(self) -> bool {
        &&& self.backend is None
        &&& self.max_bytes is None
        &&& self.format is None
        &&& self.quiet is None
        &&& self.copy is None
    }

    /// Whether no key is set.
    pub fn is_default(&self) -> (r: bool)
        ensures
            r == self.says_nothing(),
    {
        self.backend.is_none() && self.max_bytes.is_none() && self.format.is_none()
            && self.quiet.is_none() && self.copy.is_none()
    }
}

// ---------------------------------------------------------------------------
// Where it is
// ---------------------------------------------------------------------------

/// The path of `name` below the directory `base`.
pub open spec fn below(base: Seq<u8>, name: Seq<u8>) -> Seq<u8> {
    if base.len() == 0 || base.last() == 0x2f {
        base + name
    } else {
        base.push(0x2f) + name
    }
}

/// Adds `name` to the path `base`.
pub(crate) fn push_name(base: &mut Vec<u8>, name: &str)
    ensures
        final(base)@ == below(old(base)@, name.spec_bytes()),
{
    let n: usize = base.len();
    if n > 0 && base[n - 1] != 0x2f {
        base.push(0x2f);
    }
    let ghost before = base@;
    let bytes = name.as_bytes();
    let mut i: usize = 0;
    while i < bytes.len()
        invariant
            i <= bytes@.len(),
            base@ == before + bytes@.take(i as int),
        decreases bytes@.len() - i,
    {
        base.push(bytes[i]);
        i = i + 1;
        assert(bytes@.take(i as int) == bytes@.take(i - 1).push(bytes@[i - 1]));
    }
    assert(bytes@.take(i as int) == bytes@);
}

/// Whether an environment variable is set to something.
pub open spec fn is_set(v: Option<&[u8]>) -> bool {
    v matches Some(b) && b@.len() > 0
}

/// The directory that the config directory is in.
pub open spec fn config_base(xdg_config_home: Option<&[u8]>, home: Option<&[u8]>) -> Option<
    Seq<u8>,
> {
    if is_set(xdg_config_home) {
        Some(xdg_config_home->0@)
    } else {
        match home {
            Some(h) => Some(below(h@, ".config".spec_bytes())),
            None => None,
        }
    }
}

/// Where the config file is, and whether the user named that place.
pub open spec fn location(
    tcap_config: Option<&[u8]>,
    xdg_config_home: Option<&[u8]>,
    home: Option<&[u8]>,
) -> Option<(Seq<u8>, bool)> {
    if is_set(tcap_config) {
        Some((tcap_config->0@, true))
    } else {
        match config_base(xdg_config_home, home) {
            Some(base) => Some(
                (below(below(base, "tcap".spec_bytes()), "config.toml".spec_bytes()), false),
            ),
            None => None,
        }
    }
}

/// Returns `(path, explicit)` from the values of `TCAP_CONFIG`,
/// `XDG_CONFIG_HOME` and `HOME`; `explicit` marks a path named via
/// `TCAP_CONFIG`, which changes how a missing file is treated. Paths are byte
/// strings.
pub fn path(
    tcap_config: Option<&[u8]>,
    xdg_config_home: Option<&[u8]>,
    home: Option<&[u8]>,
) -> (r: Option<(Vec<u8>, bool)>)
    ensures
        match (r, location(tcap_config, xdg_config_home, home)) {
            (Some(got), Some(want)) => got.0@ == want.0 && got.1 == want.1,
            (None, None) => true,
            _ => false,
        },
{
    if let Some(p) = tcap_config {
        if p.len() > 0 {
            return Some((vstd::slice::slice_to_vec(p), true));
        }
    }
    if let Some(x) = xdg_config_home {
        if x.len() > 0 {
            let mut p = vstd::slice::slice_to_vec(x);
            push_name(&mut p, "tcap");
            push_name(&mut p, "config.toml");
            return Some((p, false));
        }
    }
    match home {
        Some(h) => {
            let mut p = vstd::slice::slice_to_vec(h);
            push_name(&mut p, ".config");
            push_name(&mut p, "tcap");
            push_name(&mut p, "config.toml");
            Some((p, false))
        },
        None => None,
    }
}

// ---------------------------------------------------------------------------
// Reading it
// ---------------------------------------------------------------------------

/// What came of reading the file.
pub enum FileRead {
    /// Its text.
    Text(String),
    /// There is no such file.
    Missing,
    /// It could not be read, for the given reason.
    Failed(String),
}

/// What to make of the file.
pub enum Loaded {
    /// Nothing is configured.
    Defaults,
    /// This text has to be parsed.
    Text(String),
}

/// The failure when a file that the user named is missing.
pub open spec fn missing_config(path: Seq<char>) -> FailureView {
    plain_failure("no config at "@ + path + " (named by $TCAP_CONFIG)"@)
}

/// A missing file at the default location yields defaults; one that the user
/// named (`explicit`) is an error, since ignoring it would hide a typo in the
/// name. Without a location there is nothing to read. `path` is the location
/// as it is shown to the user.
pub fn load(location: Option<(&str, bool)>, read: FileRead) -> (r: Result<Loaded, Failure>)
    ensures
        match location {
            None => r is Ok && r->Ok_0 is Defaults,
            Some((path, explicit)) => match read {
                FileRead::Text(t) => r is Ok && r->Ok_0 == Loaded::Text(t),
                FileRead::Missing => if explicit {
                    r is Err && r->Err_0@ == missing_config(path@)
                } else {
                    r is Ok && r->Ok_0 is Defaults
                },
                FileRead::Failed(cause) => r is Err && r->Err_0@ == caused_failure(
                    "reading "@ + path@,
                    cause@,
                ),
            },
        },
{
    match location {
        None => Ok(Loaded::Defaults),
        Some((path, explicit)) => match read {
            FileRead::Text(t) => Ok(Loaded::Text(t)),
            FileRead::Missing => {
                if explicit {
                    let mut m = copy_of("no config at ");
                    m.append(path);
                    m.append(" (named by $TCAP_CONFIG)");
                    Err(Failure::new(m))
                } else {
                    Ok(Loaded::Defaults)
                }
            },
            FileRead::Failed(cause) => {
                let mut m = copy_of("reading ");
                m.append(path);
                Err(Failure::caused_by(m, cause))
            },
        },
    }
}

/// The failure when the text of the file at `path` does not parse, `cause`
/// being the parser's message.
pub fn unparsable(path: &str, cause: String) -> (r: Failure)
    ensures
        r@ == caused_failure("in "@ + path@, cause@),
{
    let mut m = copy_of("in ");
    m.append(path);
    Failure::caused_by(m, cause)
}

// ---------------------------------------------------------------------------
// Laws
// ---------------------------------------------------------------------------

/// The place that the user names wins, whatever else is set.
pub proof fn law_a_named_config_wins(
    tcap_config: Option<&[u8]>,
    xdg_config_home: Option<&[u8]>,
    home: Option<&[u8]>,
)
    requires
        is_set(tcap_config),
    ensures
        location(tcap_config, xdg_config_home, home) == Some((tcap_config->0@, true)),
{
}

/// An empty `TCAP_CONFIG` or `XDG_CONFIG_HOME` counts as none.
pub proof fn law_an_empty_variable_counts_as_none(
    empty: Option<&[u8]>,
    tcap_config: Option<&[u8]>,
    xdg_config_home: Option<&[u8]>,
    home: Option<&[u8]>,
)
    requires
        !is_set(empty),
    ensures
        location(empty, xdg_config_home, home) == location(None, xdg_config_home, home),
        location(tcap_config, empty, home) == location(tcap_config, None, home),
{
}

/// Where the file is, byte by byte: at the place that the user named; else in
/// `tcap/config.toml` below `XDG_CONFIG_HOME`; else in `.config/tcap/config.toml`
/// below the home directory; else nowhere. No slash is doubled.
pub proof fn law_where_the_config_is(
    tcap_config: Option<&[u8]>,
    xdg_config_home: Option<&[u8]>,
    home: Option<&[u8]>,
)
    ensures
        ({
            let slash = seq![0x2fu8];
            let tcap = "tcap".spec_bytes();
            let file = "config.toml".spec_bytes();
            let named = tcap_config is Some && tcap_config->0@.len() > 0;
            let xdg = xdg_config_home is Some && xdg_config_home->0@.len() > 0;
            let at = location(tcap_config, xdg_config_home, home);
            &&& named ==> at == Some((tcap_config->0@, true))
            &&& !named && xdg ==> {
                let base = xdg_config_home->0@;
                let gap = if base.last() == 0x2f {
                    Seq::empty()
                } else {
                    slash
                };
                at == Some((base + gap + tcap + slash + file, false))
            }
            &&& !named && !xdg && home is Some ==> {
                let base = home->0@;
                let gap = if base.len() == 0 || base.last() == 0x2f {
                    Seq::empty()
                } else {
                    slash
                };
                at == Some(
                    (base + gap + ".config".spec_bytes() + slash + tcap + slash + file, false),
                )
            }
            &&& !named && !xdg && home is None ==> at is None
        }),
{
    let slash = seq![0x2fu8];
    let tcap = "tcap".spec_bytes();
    let file = "config.toml".spec_bytes();
    lemma_names();
    if is_set(xdg_config_home) {
        let base = xdg_config_home->0@;
        let gap = if base.last() == 0x2f {
            Seq::empty()
        } else {
            slash
        };
        assert(below(base, tcap) == base + gap + tcap);
        assert(below(below(base, tcap), file) == base + gap + tcap + slash + file);
    } else if home is Some {
        let base = home->0@;
        let gap = if base.len() == 0 || base.last() == 0x2f {
            Seq::empty()
        } else {
            slash
        };
        let dir = below(base, ".config".spec_bytes());
        assert(dir == base + gap + ".config".spec_bytes());
        assert(dir.last() == ".config".spec_bytes().last());
        assert(below(dir, tcap) == dir + slash + tcap);
        assert(below(dir, tcap).last() == tcap.last());
        assert(below(below(dir, tcap), file) == base + gap + ".config".spec_bytes() + slash + tcap
            + slash + file);
    }
}

/// The names that the path is made of are not empty and do not end in a slash.
proof fn lemma_names()
    ensures
        "tcap".spec_bytes().len() > 0,
        "tcap".spec_bytes().last() != 0x2f,
        ".config".spec_bytes().len() > 0,
        ".config".spec_bytes().last() != 0x2f,
{
    reveal_strlit("tcap");
    reveal_strlit(".config");
    assert("tcap"@ == seq!['t', 'c', 'a', 'p']);
    assert(".config"@ == seq!['.', 'c', 'o', 'n', 'f', 'i', 'g']);
    vstd::string::is_ascii_spec_bytes("tcap");
    vstd::string::is_ascii_spec_bytes(".config");
    assert("tcap".spec_bytes()[3] == 0x70);
    assert(".config".spec_bytes()[6] == 0x67);
}

/// The names of the formats and their modes.
pub proof fn law_how_formats_are_spelled(f: FormatName)
    ensures
        f == FormatName::Annotated ==> f.spelled() == "annotated"@ && f.as_mode()
            == Mode::Annotated,
        f == FormatName::Output ==> f.spelled() == "output"@ && f.as_mode() == Mode::Output,
        f == FormatName::Command ==> f.spelled() == "command"@ && f.as_mode() == Mode::Command,
        f == FormatName::Raw ==> f.spelled() == "raw"@ && f.as_mode() == Mode::Raw,
        f == FormatName::Json ==> f.spelled() == "json"@ && f.as_mode() == Mode::Json,
{
}

/// A file that the user named and that is missing is named in the failure.
pub proof fn law_a_missing_config_is_named(path: Seq<char>)
    ensures
        missing_config(path).message == "no config at "@ + path + " (named by $TCAP_CONFIG)"@,
        missing_config(path).causes.len() == 0,
{
}

} // verus!
