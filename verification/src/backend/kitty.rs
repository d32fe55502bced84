//! kitty backend, via `kitty @ get-text` and kitty's own shell-integration
//! prompt marks.
//!
//! Two things this backend cannot do:
//!
//! - Reach past the latest output. There is no extent for "the command before
//!   that", so `-c 2` fails with a pointer to tmux rather than returning the
//!   wrong text.
//! - Tie output to a specific command. It asks for the last *non-empty* output,
//!   so when the last command printed nothing, kitty returns an older command's
//!   output while the header names the last one.

use vstd::prelude::*;

use super::{
    arg, env_mentions, findings, good, has_env, is_set, no_args, note, only_output, replies,
    wrong, Backend, Checkup, CheckupView, Diagnostic, DiagnosticView, Facts, Fetched, FetchedView,
    Reply, ReplyView, Step, StepView, TerminalEnv,
};
use crate::failure::{plain_failure, Failure, FailureView};
use crate::state::Record;
use crate::text::{
    ascii_lower, begins_with, blank, chars_of, contains, copy_of, decimal, decimal_of, free_of, is_ascii, is_blank, join,
    join_pieces, join_strings, lowercase, mentions, occurs_at, opt_text, parse_u64, parsed_u64, pieces, same, split,
    split_at, texts, to_lower, trim, trim_start, trimmed, Delimiter,
};

verus! {

// ---------------------------------------------------------------------------
// Finding kitty
// ---------------------------------------------------------------------------

/// Whether the environment shows kitty.
pub open spec fn is_kitty(env: TerminalEnv) -> bool {
    is_set(env.kitty_window_id) || (env.term matches Some(t) && contains(t@, "kitty"@))
}

/// The path of `name` below the directory `base`.
pub open spec fn joined(base: Seq<char>, name: Seq<char>) -> Seq<char> {
    if base.len() > 0 && base.last() == '/' {
        base + name
    } else {
        base + "/"@ + name
    }
}

/// The parts of a path between its slashes.
pub open spec fn path_parts(path: Seq<char>) -> Seq<Seq<char>> {
    split(path, Delimiter::Char('/'))
}

/// Whether a part of a path names nothing.
pub open spec fn is_idle(part: Seq<char>) -> bool {
    part.len() == 0 || part == "."@
}

/// Whether the part at `i` is the last one of that name.
pub open spec fn is_last_named(parts: Seq<Seq<char>>, name: Seq<char>, i: int) -> bool {
    &&& 0 <= i < parts.len()
    &&& parts[i] == name
    &&& forall|j: int| i < j < parts.len() ==> #[trigger] parts[j] != name
}

/// `path`, or the closest directory above it, with the last part `parts[i]`.
pub open spec fn up_to(path: Seq<char>, i: int) -> Seq<char> {
    let parts = path_parts(path);
    if forall|j: int| i < j < parts.len() ==> is_idle(#[trigger] parts[j]) {
        path
    } else {
        join(parts.take(i + 1), "/"@)
    }
}

/// The executable inside the bundle with the directory `contents`.
pub open spec fn executable_below(contents: Seq<char>) -> Seq<char> {
    joined(joined(contents, "MacOS"@), "kitty"@)
}

/// The place of the executable when it is neither on the search path nor found
/// from `KITTY_INSTALLATION_DIR`.
pub const FALLBACK: &'static str = "/Applications/kitty.app/Contents/MacOS/kitty";

/// What to say when there is no executable.
pub const NO_EXECUTABLE: &'static str = "could not find the kitty (or kitten) executable.\n\
    Add kitty's bin directory to PATH, or pass --backend tmux.";

/// Adds `name` to the path `base`.
fn join_path(base: &str, name: &str) -> (r: String)
    ensures
        r@ == joined(base@, name@),
{
    let cs = chars_of(base);
    let n: usize = cs.len();
    let mut s = copy_of(base);
    if n > 0 && cs[n - 1] == '/' {
        s.append(name);
    } else {
        s.append("/");
        s.append(name);
    }
    s
}

/// The executable inside the app bundle that `install_dir` lies in, if it lies
/// in one: `KITTY_INSTALLATION_DIR` points at `Contents/Resources/kitty` inside
/// the bundle, and the executable lives at `Contents/MacOS/kitty`.
pub fn bundled_exe(install_dir: &str) -> (r: Option<String>)
    ensures
        match r {
            Some(exe) => exists|i: int|
                #![trigger path_parts(install_dir@)[i]]
                is_last_named(path_parts(install_dir@), "Contents"@, i) && exe@
                    == executable_below(up_to(install_dir@, i)),
            None => forall|i: int|
                0 <= i < path_parts(install_dir@).len() ==> #[trigger] path_parts(install_dir@)[i]
                    != "Contents"@,
        },
{
    let cs = chars_of(install_dir);
    let parts = split_at(cs.as_slice(), Delimiter::Char('/'));
    let ghost all = path_parts(install_dir@);
    assert(pieces(parts@) == all);
    let mut i: usize = parts.len();
    let mut idle = true;
    while i > 0
        invariant
            i <= parts@.len(),
            all == pieces(parts@),
            all == path_parts(install_dir@),
            forall|j: int| i <= j < all.len() ==> #[trigger] all[j] != "Contents"@,
            idle == (forall|j: int| i <= j < all.len() ==> is_idle(#[trigger] all[j])),
        decreases i,
    {
        i = i - 1;
        let part = parts[i].as_slice();
        assert(all[i as int] == part@);
        if same(part, "Contents") {
            assert(is_last_named(all, "Contents"@, i as int));
            let contents = if idle {
                copy_of(install_dir)
            } else {
                let above = vstd::slice::slice_subrange(parts.as_slice(), 0, i + 1);
                assert(pieces(above@) == all.take(i + 1));
                join_pieces(above, "/")
            };
            assert(contents@ == up_to(install_dir@, i as int));
            let exe = join_path(join_path(contents.as_str(), "MacOS").as_str(), "kitty");
            return Some(exe);
        }
        if part.len() > 0 && !same(part, ".") {
            assert(!is_idle(all[i as int]));
            idle = false;
        }
    }
    None
}

/// What a search for the executable came to.
pub struct ExeSearch {
    /// Whether `kitten` is on the search path.
    pub kitten: bool,
    /// Whether `kitty` is on the search path.
    pub kitty: bool,
    /// The executable inside the app bundle, if there is such a file.
    pub bundled: Option<String>,
    /// Whether there is a file at [`FALLBACK`].
    pub fallback: bool,
}

/// The executable that a search came to. `kitten` is preferred: it is the
/// modern entry point.
pub open spec fn found_exe(search: ExeSearch) -> Option<Seq<char>> {
    if search.kitten {
        Some("kitten"@)
    } else if search.kitty {
        Some("kitty"@)
    } else if search.bundled is Some {
        Some(search.bundled->0@)
    } else if search.fallback {
        Some(FALLBACK@)
    } else {
        None
    }
}

// ---------------------------------------------------------------------------
// Advice
// ---------------------------------------------------------------------------

/// A directory that only the user can open.
#[derive(Clone, Copy, PartialEq, Eq, Structural, Debug)]
pub enum PrivateDir {
    /// `$TMPDIR`, as macOS has it.
    TmpDir,
    /// `$XDG_RUNTIME_DIR`.
    RuntimeDir,
    /// None is known.
    Unknown,
}

/// The directory to advise, by platform and by the value of `XDG_RUNTIME_DIR`.
pub open spec fn private_dir_of(macos: bool, xdg_runtime_dir: Option<String>) -> PrivateDir {
    if macos {
        PrivateDir::TmpDir
    } else if is_set(xdg_runtime_dir) {
        PrivateDir::RuntimeDir
    } else {
        PrivateDir::Unknown
    }
}

impl PrivateDir {
    /// The directory to advise, by platform and by the value of
    /// `XDG_RUNTIME_DIR`: that is absent on non-systemd distros, in containers
    /// and under some su/ssh paths, where it would expand to nothing and put
    /// the socket at /.
    pub fn here(macos: bool, xdg_runtime_dir: &Option<String>) -> (r: PrivateDir)
        ensures
            r == private_dir_of(macos, *xdg_runtime_dir),
    {
        if macos {
            PrivateDir::TmpDir
        } else if has_env(xdg_runtime_dir) {
            PrivateDir::RuntimeDir
        } else {
            PrivateDir::Unknown
        }
    }
}

/// The line that places the socket.
pub open spec fn socket_line(dir: PrivateDir) -> Seq<char> {
    match dir {
        PrivateDir::TmpDir => "  listen_on unix:${TMPDIR}/kitty-{kitty_pid}"@,
        PrivateDir::RuntimeDir => "  listen_on unix:${XDG_RUNTIME_DIR}/kitty-{kitty_pid}"@,
        PrivateDir::Unknown => "  listen_on unix:/run/user/$(id -u)/kitty-{kitty_pid}"@,
    }
}

/// What to say of a directory that is only a guess. It is pasted along with the
/// line above it, hence a comment, on a line of its own.
pub const SOCKET_GUESS: &'static str =
    "# or any directory only you can open; $XDG_RUNTIME_DIR is unset here";

/// What to say below the line that places the socket.
pub const SOCKET_CAUTION: &'static str = "\
    Keep the socket in a directory only you can open. One in /tmp is reachable by \
    anyone with write permission on it, which under a group-writable umask is more \
    than just you. Note kitty.conf has no trailing comments: everything after the \
    value is part of it.";

/// The lines of the socket recommendation. It exists to be pasted, so there is
/// one line that places the socket, and nothing behind its value: kitty takes
/// the rest of the line as the value, and the last such line wins.
pub open spec fn socket_lines(dir: PrivateDir) -> Seq<Seq<char>> {
    let start = seq!["  allow_remote_control socket-only"@, socket_line(dir)];
    match dir {
        PrivateDir::Unknown => start.push(SOCKET_GUESS@).push(SOCKET_CAUTION@),
        _ => start.push(SOCKET_CAUTION@),
    }
}

/// The socket recommendation.
pub open spec fn socket_text(dir: PrivateDir) -> Seq<char> {
    join(socket_lines(dir), "\n"@)
}

/// What to say when kitty wants a password.
pub const PASSWORD_WANTED: &'static str = "kitty is requiring a remote-control password, which tcap cannot send, so \
    this setup is unsupported.\n\
    Rather than weaken authentication for `get-text` \u{2014} which returns whatever \
    is on screen, credentials included \u{2014} run inside tmux, which needs no kitty \
    remote control at all. If you would rather use a socket:\n";

/// What to say when kitty does not know the window.
pub const NO_SUCH_WINDOW: &'static str = "kitty could not find the window tcap asked for.\n\
    $KITTY_LISTEN_ON probably points at a different kitty instance \u{2014} a \
    `listen_on` without {kitty_pid} is shared between instances, so window ids \
    from one do not exist in another. Give each instance its own socket:\n";

/// What to say before the advice when kitty wants a socket and none is known.
pub const NO_SOCKET: &'static str = "This looks like `allow_remote_control socket-only` with \
    $KITTY_LISTEN_ON unset, leaving no socket to use.\n\
    Add to ~/.config/kitty/kitty.conf and restart kitty:\n";

/// What to say after the advice when kitty wants a socket and none is known.
pub const NO_SOCKET_END: &'static str = "\n\
    If it is set in your shell but not here, something in between is \
    clearing the environment.";

/// What to say before the advice when the cause is not known.
pub const MAYBE_DISABLED: &'static str = "If this is a remote-control problem, kitty needs it enabled. In \
    ~/.config/kitty/kitty.conf either:\n  allow_remote_control yes\nor keep it \
    restricted and give tcap a socket:\n";

/// What to say after the advice when the cause is not known.
pub const MAYBE_DISABLED_END: &'static str = "\nThen restart kitty. If the message \
    above says something else, that is the real cause.";

/// The fix for a refusal whose message, in lower case, is `msg`. A password
/// refusal that happens to name the socket it arrived on is not answered with
/// "restart kitty".
pub open spec fn hint_text(msg: Seq<char>, listen_on: Option<Seq<char>>, dir: PrivateDir) -> Seq<
    char,
> {
    if contains(msg, "password"@) {
        PASSWORD_WANTED@ + socket_text(dir)
    } else if contains(msg, "no matching"@) || contains(msg, "no window"@) {
        NO_SUCH_WINDOW@ + socket_text(dir)
    } else if contains(msg, "socket"@) {
        match listen_on {
            None => NO_SOCKET@ + socket_text(dir) + NO_SOCKET_END@,
            Some(sock) => "the socket at "@ + sock
                + " was refused. Restart kitty so the running instance and $KITTY_LISTEN_ON agree."@,
        }
    } else {
        MAYBE_DISABLED@ + socket_text(dir) + MAYBE_DISABLED_END@
    }
}

// ---------------------------------------------------------------------------
// The backend
// ---------------------------------------------------------------------------

/// The kitty instance and window that tcap runs in.
pub struct Kitty {
    /// The executable that speaks remote control.
    pub exe: String,
    /// The socket that kitty listens on, if it advertises one.
    pub listen_on: Option<String>,
    /// The value of `KITTY_WINDOW_ID`.
    pub window_id: Option<String>,
    /// Where to advise a socket.
    pub private_dir: PrivateDir,
}

/// Why nothing is captured without a window.
pub const NO_WINDOW: &'static str = "$KITTY_WINDOW_ID is missing or not a number, so tcap cannot tell kitty\n\
    which window to read.\n\n\
    Without it kitty returns whichever window is focused, which may be a\n\
    different pane \u{2014} tcap refuses rather than risk showing you another\n\
    window's output, which could contain secrets.\n\n\
    kitty sets this automatically; if it is missing, the environment was\n\
    cleared somewhere between kitty and this shell.";

/// What to say when the window has printed nothing.
pub const NO_OUTPUT: &'static str = "kitty returned no output for this window.\n\n\
    Nothing has printed here yet, or kitty's own shell integration is off.\n\
    Run a command that prints something and try again; if it stays empty,\n\
    check `shell_integration` in ~/.config/kitty/kitty.conf.";

/// What the diagnosis says of a window that has printed nothing.
pub const NOTHING_TO_READ: &'static str = "no output to read yet. Run a command that prints something and \
    re-run doctor; if it is still empty, check `shell_integration` \
    in kitty.conf";

/// What the diagnosis says without a window.
pub const WINDOW_UNKNOWN: &'static str = "$KITTY_WINDOW_ID missing or not a number \u{2014} tcap will refuse to capture \
    rather than read whichever window is focused";

/// The window that an id names, as kitty's match expressions write it. The id
/// is a number, so it cannot widen the expression.
pub open spec fn window_named(raw: Seq<char>) -> Option<Seq<char>> {
    match parsed_u64(trim(raw)) {
        Some(id) => Some("id:"@ + decimal(id as nat)),
        None => None,
    }
}

/// The window that the environment names.
pub open spec fn window_here(window_id: Option<Seq<char>>) -> Option<Seq<char>> {
    match window_id {
        Some(raw) => window_named(raw),
        None => None,
    }
}

/// Remote-control arguments, targeting the socket when one is advertised.
pub open spec fn control_line(listen_on: Option<Seq<char>>) -> Seq<Seq<char>> {
    match listen_on {
        Some(sock) => seq!["@"@, "--to"@, sock],
        None => seq!["@"@],
    }
}

/// The full `get-text` arguments.
///
/// `--match` is an option of `get-text`, not a global one. The extent is the
/// last non-empty output: kitty counts the running tcap as the current command,
/// so the output of the last command would be tcap's own.
pub open spec fn text_line(
    listen_on: Option<Seq<char>>,
    window: Seq<char>,
    ansi: bool,
) -> Seq<Seq<char>> {
    let line = control_line(listen_on) + seq![
        "get-text"@,
        "--match"@,
        window,
        "--extent"@,
        "last_non_empty_output"@,
    ];
    if ansi {
        line.push("--ansi"@)
    } else {
        line
    }
}

/// The failure when an older command is asked for.
pub open spec fn too_old(index: usize) -> FailureView {
    plain_failure(
        "kitty can only report its most recent command's output, so -c "@ + decimal(index as nat)
            + " is not available here.\n\nkitty exposes only the latest output and nothing for older\ncommands. To reach further back, run inside tmux."@,
    )
}

/// How kitty is reached.
pub open spec fn channel_text(listen_on: Option<Seq<char>>) -> Seq<char> {
    match listen_on {
        Some(sock) => "socket "@ + sock,
        None => "escape-code channel (no $KITTY_LISTEN_ON)"@,
    }
}

impl Kitty {
    /// The fix for a refusal with this message.
    pub open spec fn hint_for(&self, message: Seq<char>) -> Seq<char> {
        hint_text(lowercase(message), opt_text(self.listen_on), self.private_dir)
    }

    /// The window that the environment names.
    pub open spec fn window(&self) -> Option<Seq<char>> {
        window_here(opt_text(self.window_id))
    }

    /// The finding on remote control.
    pub open spec fn control_finding(&self, ls: ReplyView) -> DiagnosticView {
        let channel = channel_text(opt_text(self.listen_on));
        match ls {
            Ok(_) => good("remote control"@, "reachable via "@ + channel),
            Err(e) => wrong(
                "remote control"@,
                e.message + "\n         via "@ + channel + "\n         "@ + self.hint_for(
                    e.message,
                ),
            ),
        }
    }

    /// The finding on what a capture would read.
    pub open spec fn probe_finding(&self, probe: ReplyView) -> DiagnosticView {
        match probe {
            Ok(f) => if is_blank(f.output) {
                wrong("shell integration"@, NOTHING_TO_READ@)
            } else {
                good("shell integration"@, "last_non_empty_output resolves"@)
            },
            Err(e) => wrong("shell integration"@, e.message),
        }
    }

    /// The findings on a kitty session. `probe` is what came of asking for the
    /// text, if it could be asked.
    pub open spec fn report(&self, ls: ReplyView, probe: Option<ReplyView>) -> Seq<
        DiagnosticView,
    > {
        let start = seq![good("kitty binary"@, self.exe@), self.control_finding(ls)];
        let middle = match self.window() {
            Some(w) => match probe {
                Some(p) => seq![good("window"@, w), self.probe_finding(p)],
                None => seq![good("window"@, w)],
            },
            None => seq![wrong("window"@, WINDOW_UNKNOWN@)],
        };
        let end = wrong(
            "history depth"@,
            "kitty serves only the latest output; -c 2 and beyond need tmux"@,
        );
        (start + middle).push(end)
    }

    /// Whether the environment shows kitty.
    pub fn detect(env: &TerminalEnv) -> (r: bool)
        ensures
            r == is_kitty(*env),
    {
        has_env(&env.kitty_window_id) || env_mentions(&env.term, "kitty")
    }

    /// A backend with the executable that a search came to. `listen_on` and
    /// `window_id` are the values of `KITTY_LISTEN_ON` and `KITTY_WINDOW_ID`.
    pub fn new(
        search: &ExeSearch,
        listen_on: Option<String>,
        window_id: Option<String>,
        private_dir: PrivateDir,
    ) -> (r: Result<Kitty, Failure>)
        ensures
            match found_exe(*search) {
                Some(exe) => {
                    &&& r is Ok
                    &&& r->Ok_0.exe@ == exe
                    &&& r->Ok_0.listen_on == (if is_set(listen_on) {
                        listen_on
                    } else {
                        None
                    })
                    &&& r->Ok_0.window_id == window_id
                    &&& r->Ok_0.private_dir == private_dir
                },
                None => r is Err && r->Err_0@ == plain_failure(NO_EXECUTABLE@),
            },
    {
        match Kitty::find_exe(search) {
            Ok(exe) => Ok(
                Kitty { exe, listen_on: Kitty::listen_on(listen_on), window_id, private_dir },
            ),
            Err(e) => Err(e),
        }
    }

    /// The executable that a search came to.
    pub fn find_exe(search: &ExeSearch) -> (r: Result<String, Failure>)
        ensures
            match found_exe(*search) {
                Some(exe) => r is Ok && r->Ok_0@ == exe,
                None => r is Err && r->Err_0@ == plain_failure(NO_EXECUTABLE@),
            },
    {
        if search.kitten {
            return Ok(copy_of("kitten"));
        }
        if search.kitty {
            return Ok(copy_of("kitty"));
        }
        if let Some(exe) = &search.bundled {
            return Ok(copy_of(exe.as_str()));
        }
        if search.fallback {
            return Ok(copy_of(FALLBACK));
        }
        Err(Failure::because(NO_EXECUTABLE))
    }

    /// Remote-control arguments, targeting the socket when one is advertised.
    fn rc_args(&self) -> (r: Vec<String>)
        ensures
            texts(r@) == control_line(opt_text(self.listen_on)),
    {
        let mut args = no_args();
        arg(&mut args, "@");
        if let Some(sock) = &self.listen_on {
            arg(&mut args, "--to");
            arg(&mut args, sock.as_str());
        }
        assert(texts(args@) == control_line(opt_text(self.listen_on)));
        args
    }

    /// The socket that `KITTY_LISTEN_ON` names, if it names one.
    fn listen_on(value: Option<String>) -> (r: Option<String>)
        ensures
            r == if is_set(value) {
                value
            } else {
                None
            },
    {
        if has_env(&value) {
            value
        } else {
            None
        }
    }

    /// The socket recommendation, given once so that the places that offer it
    /// cannot drift apart.
    pub fn socket_advice(dir: PrivateDir) -> (r: String)
        ensures
            r@ == socket_text(dir),
    {
        let mut lines = no_args();
        arg(&mut lines, "  allow_remote_control socket-only");
        match dir {
            PrivateDir::TmpDir => {
                arg(&mut lines, "  listen_on unix:${TMPDIR}/kitty-{kitty_pid}");
            },
            PrivateDir::RuntimeDir => {
                arg(&mut lines, "  listen_on unix:${XDG_RUNTIME_DIR}/kitty-{kitty_pid}");
            },
            PrivateDir::Unknown => {
                arg(&mut lines, "  listen_on unix:/run/user/$(id -u)/kitty-{kitty_pid}");
                arg(&mut lines, SOCKET_GUESS);
            },
        }
        arg(&mut lines, SOCKET_CAUTION);
        assert(texts(lines@) == socket_lines(dir));
        join_strings(lines.as_slice(), "\n")
    }

    /// The fix for a refusal whose message, in lower case, is `msg`.
    pub fn hint(msg: &str, listen_on: &Option<String>, dir: PrivateDir) -> (r: String)
        ensures
            r@ == hint_text(msg@, opt_text(*listen_on), dir),
    {
        let cs = chars_of(msg);
        let m = cs.as_slice();
        if mentions(m, "password") {
            // Deliberately not an empty password for `get-text`: that would
            // remove authentication from the one call that dumps terminal
            // contents, to work around tcap's own limitation.
            let mut s = copy_of(PASSWORD_WANTED);
            s.append(Kitty::socket_advice(dir).as_str());
            return s;
        }
        if mentions(m, "no matching") || mentions(m, "no window") {
            let mut s = copy_of(NO_SUCH_WINDOW);
            s.append(Kitty::socket_advice(dir).as_str());
            return s;
        }
        if mentions(m, "socket") {
            return match listen_on {
                None => {
                    let mut s = copy_of(NO_SOCKET);
                    s.append(Kitty::socket_advice(dir).as_str());
                    s.append(NO_SOCKET_END);
                    s
                },
                Some(sock) => {
                    let mut s = copy_of("the socket at ");
                    s.append(sock.as_str());
                    s.append(
                        " was refused. Restart kitty so the running instance and $KITTY_LISTEN_ON agree.",
                    );
                    s
                },
            };
        }
        let mut s = copy_of(MAYBE_DISABLED);
        s.append(Kitty::socket_advice(dir).as_str());
        s.append(MAYBE_DISABLED_END);
        s
    }

    /// Turns kitty's refusal into the fix for the mode actually in force.
    ///
    /// `allow_remote_control` has several values needing different answers:
    /// telling a `socket-only` user to set `yes` is wrong advice, and the real
    /// cause, no socket to talk to, is not obvious from kitty's message.
    pub fn remote_control_hint(err: &Failure, listen_on: &Option<String>, dir: PrivateDir) -> (r:
        String)
        ensures
            r@ == hint_text(lowercase(err@.message), opt_text(*listen_on), dir),
            is_ascii(err@.message) ==> r@ == hint_text(
                ascii_lower(err@.message),
                opt_text(*listen_on),
                dir,
            ),
    {
        let msg = to_lower(err.message.as_str());
        Kitty::hint(msg.as_str(), listen_on, dir)
    }

    /// The window tcap is running in, as kitty's match expressions write it.
    ///
    /// Without it kitty reads whichever window is *focused*, which is not
    /// necessarily this one. Callers must treat `None` as fatal rather than
    /// leaving the match out.
    pub fn window_match(&self) -> (r: Option<String>)
        ensures
            opt_text(r) == self.window(),
    {
        match &self.window_id {
            Some(raw) => Kitty::parse_window_id(raw.as_str()),
            None => None,
        }
    }

    /// The window that an id names.
    pub fn parse_window_id(raw: &str) -> (r: Option<String>)
        ensures
            opt_text(r) == window_named(raw@),
    {
        let cs = chars_of(raw);
        let id = trimmed(cs.as_slice());
        match parse_u64(id.as_slice()) {
            Some(n) => {
                let mut s = copy_of("id:");
                s.append(decimal_of(n).as_str());
                Some(s)
            },
            None => None,
        }
    }

    /// The window tcap is running in, or why nothing can be captured.
    pub fn require_window(&self) -> (r: Result<String, Failure>)
        ensures
            match self.window() {
                Some(w) => r is Ok && r->Ok_0@ == w,
                None => r is Err && r->Err_0@ == plain_failure(NO_WINDOW@),
            },
    {
        match self.window_match() {
            Some(w) => Ok(w),
            None => Err(Failure::because(NO_WINDOW)),
        }
    }

    /// The full `get-text` arguments, shared by `fetch` and `diagnose`, so that
    /// `doctor` cannot report the capture path healthy while `fetch` fails.
    pub fn get_text_args(&self, window: &str, ansi: bool) -> (r: Vec<String>)
        ensures
            texts(r@) == text_line(opt_text(self.listen_on), window@, ansi),
    {
        let mut args = self.rc_args();
        arg(&mut args, "get-text");
        arg(&mut args, "--match");
        arg(&mut args, window);
        arg(&mut args, "--extent");
        arg(&mut args, "last_non_empty_output");
        if ansi {
            arg(&mut args, "--ansi");
        }
        assert(texts(args@) == text_line(opt_text(self.listen_on), window@, ansi));
        args
    }
}

impl Backend for Kitty {
    open spec fn called(&self) -> Seq<char> {
        "kitty"@
    }

    open spec fn looked_for(&self) -> Option<Seq<char>> {
        None
    }

    open spec fn reaches_back(&self) -> bool {
        false
    }

    open spec fn bounded(&self) -> bool {
        false
    }

    open spec fn fetch_step(
        &self,
        index: usize,
        rec: Option<Record>,
        raw: bool,
        heard: Seq<ReplyView>,
    ) -> StepView {
        if index > 1 {
            StepView::Failed(too_old(index))
        } else {
            match self.window() {
                None => StepView::Failed(plain_failure(NO_WINDOW@)),
                Some(w) => if heard.len() == 0 {
                    StepView::Run {
                        program: self.exe@,
                        args: text_line(opt_text(self.listen_on), w, raw),
                    }
                } else {
                    match heard[0] {
                        Err(e) => StepView::Failed(
                            plain_failure(e.message + "\n\n"@ + self.hint_for(e.message)),
                        ),
                        Ok(f) => if is_blank(f.output) {
                            StepView::Failed(plain_failure(NO_OUTPUT@))
                        } else {
                            StepView::Done(only_output(f.output))
                        },
                    }
                },
            }
        }
    }

    open spec fn diagnose_step(&self, facts: Facts, heard: Seq<ReplyView>) -> CheckupView {
        if heard.len() == 0 {
            CheckupView::Run {
                program: self.exe@,
                args: control_line(opt_text(self.listen_on)).push("ls"@),
            }
        } else if heard[0] is Err || self.window() is None {
            CheckupView::Report(self.report(heard[0], None))
        } else if heard.len() == 1 {
            CheckupView::Run {
                program: self.exe@,
                args: text_line(opt_text(self.listen_on), self.window()->0, false),
            }
        } else {
            CheckupView::Report(self.report(heard[0], Some(heard[1])))
        }
    }

    fn name(&self) -> (r: &'static str) {
        "kitty"
    }

    fn program(&self) -> (r: Option<&'static str>) {
        None
    }

    fn supports_history(&self) -> (r: bool) {
        false
    }

    /// kitty returns the last non-empty output, which need not belong to the
    /// command that tcap's shell record names.
    fn has_command_boundaries(&self) -> (r: bool) {
        false
    }

    fn fetch(&self, index: usize, _rec: Option<&Record>, raw: bool, heard: &[Reply]) -> (r: Step) {
        if index > 1 {
            let mut m = copy_of("kitty can only report its most recent command's output, so -c ");
            m.append(decimal_of(index as u64).as_str());
            m.append(
                " is not available here.\n\nkitty exposes only the latest output and nothing for older\ncommands. To reach further back, run inside tmux.",
            );
            return Step::Failed(Failure::new(m));
        }
        let window = match self.require_window() {
            Ok(w) => w,
            Err(e) => {
                return Step::Failed(e);
            },
        };
        if heard.len() == 0 {
            return Step::Run {
                program: copy_of(self.exe.as_str()),
                args: self.get_text_args(window.as_str(), raw),
            };
        }
        assert(replies(heard@)[0] == super::reply(heard@[0]));
        match &heard[0] {
            Ok(f) => {
                // An empty body would render as a bare header with nothing
                // under it.
                let cs = chars_of(f.output.as_str());
                if blank(cs.as_slice()) {
                    Step::Failed(Failure::because(NO_OUTPUT))
                } else {
                    Step::Done(Fetched::from(copy_of(f.output.as_str())))
                }
            },
            Err(e) => {
                let hint = Kitty::remote_control_hint(e, &self.listen_on, self.private_dir);
                let mut m = copy_of(e.message.as_str());
                m.append("\n\n");
                m.append(hint.as_str());
                Step::Failed(Failure::new(m))
            },
        }
    }

    fn diagnose(&self, _facts: &Facts, heard: &[Reply]) -> (r: Checkup) {
        if heard.len() == 0 {
            let mut args = self.rc_args();
            arg(&mut args, "ls");
            return Checkup::Run { program: copy_of(self.exe.as_str()), args };
        }
        assert(replies(heard@)[0] == super::reply(heard@[0]));
        let reachable = heard[0].is_ok();
        let window = self.window_match();
        if let Some(w) = &window {
            // Probe exactly what fetch runs, so doctor cannot report a path
            // healthy that fetch would fail on.
            if reachable && heard.len() == 1 {
                return Checkup::Run {
                    program: copy_of(self.exe.as_str()),
                    args: self.get_text_args(w.as_str(), false),
                };
            }
        }
        let mut d: Vec<Diagnostic> = Vec::new();
        assert(findings(d@) == Seq::<DiagnosticView>::empty());
        note(&mut d, Diagnostic::ok("kitty binary", self.exe.as_str()));
        let channel = match &self.listen_on {
            Some(sock) => {
                let mut c = copy_of("socket ");
                c.append(sock.as_str());
                c
            },
            None => copy_of("escape-code channel (no $KITTY_LISTEN_ON)"),
        };
        match &heard[0] {
            Ok(_) => {
                let mut m = copy_of("reachable via ");
                m.append(channel.as_str());
                note(&mut d, Diagnostic::ok("remote control", m.as_str()));
            },
            Err(e) => {
                // The underlying error is kept: the hint is a guess from
                // keywords.
                let hint = Kitty::remote_control_hint(e, &self.listen_on, self.private_dir);
                let mut m = copy_of(e.message.as_str());
                m.append("\n         via ");
                m.append(channel.as_str());
                m.append("\n         ");
                m.append(hint.as_str());
                note(&mut d, Diagnostic::bad("remote control", m.as_str()));
            },
        }
        match &window {
            Some(w) => {
                note(&mut d, Diagnostic::ok("window", w.as_str()));
                if reachable {
                    assert(replies(heard@)[1] == super::reply(heard@[1]));
                    match &heard[1] {
                        Ok(f) => {
                            let cs = chars_of(f.output.as_str());
                            if blank(cs.as_slice()) {
                                note(
                                    &mut d,
                                    Diagnostic::bad("shell integration", NOTHING_TO_READ),
                                );
                            } else {
                                note(
                                    &mut d,
                                    Diagnostic::ok(
                                        "shell integration",
                                        "last_non_empty_output resolves",
                                    ),
                                );
                            }
                        },
                        Err(e) => note(
                            &mut d,
                            Diagnostic::bad("shell integration", e.message.as_str()),
                        ),
                    }
                }
            },
            None => note(&mut d, Diagnostic::bad("window", WINDOW_UNKNOWN)),
        }
        note(
            &mut d,
            Diagnostic::bad(
                "history depth",
                "kitty serves only the latest output; -c 2 and beyond need tmux",
            ),
        );
        proof {
            let probe = if reachable && window is Some {
                Some(super::reply(heard@[1]))
            } else {
                None
            };
            assert(findings(d@) == self.report(super::reply(heard@[0]), probe));
        }
        Checkup::Report(d)
    }
}

// ---------------------------------------------------------------------------
// Laws
// ---------------------------------------------------------------------------

/// Whether these arguments read the text of the window with a given number, and
/// of no other.
pub open spec fn reads_window(args: Seq<Seq<char>>, listen_on: Option<Seq<char>>, id: u64) -> bool {
    exists|ansi: bool| args == #[trigger] text_line(listen_on, "id:"@ + decimal(id as nat), ansi)
}

/// A capture reads the window whose number the environment gives, and no other:
/// without a number nothing is read.
pub proof fn law_only_the_own_window_is_read(
    k: Kitty,
    index: usize,
    rec: Option<Record>,
    raw: bool,
    heard: Seq<ReplyView>,
)
    ensures
        match k.fetch_step(index, rec, raw, heard) {
            StepView::Run { program, args } => {
                &&& program == k.exe@
                &&& k.window_id is Some
                &&& parsed_u64(trim(k.window_id->0@)) is Some
                &&& reads_window(
                    args,
                    opt_text(k.listen_on),
                    parsed_u64(trim(k.window_id->0@))->0,
                )
            },
            StepView::Done(_) => k.window() is Some,
            _ => true,
        },
{
}

/// The diagnosis probes exactly what a capture runs.
pub proof fn law_the_probe_is_what_a_capture_runs(
    k: Kitty,
    facts: Facts,
    rec: Option<Record>,
    ls: FetchedView,
)
    requires
        k.window() is Some,
    ensures
        match (
            k.diagnose_step(facts, seq![Ok(ls)]),
            k.fetch_step(1, rec, false, Seq::empty()),
        ) {
            (
                CheckupView::Run { program: p, args: a },
                StepView::Run { program: q, args: b },
            ) => p == q && a == b,
            _ => false,
        },
{
}

/// A number written in decimal names the window with that number.
pub proof fn law_a_number_names_its_window(id: u64)
    ensures
        window_named(decimal(id as nat)) == Some("id:"@ + decimal(id as nat)),
{
    let s = decimal(id as nat);
    crate::text::lemma_decimal(id as nat, 0);
    assert(crate::text::is_digit(s[0]));
    assert(crate::text::is_digit(s[s.len() - 1]));
    assert(crate::text::trim_end(s) == s);
    assert(trim(s) == s);
    assert(crate::text::unsigned_part(s, '+') == s);
}

/// Whether a line of kitty's configuration places the socket.
pub open spec fn places_socket(line: Seq<char>) -> bool {
    begins_with(trim_start(line), "listen_on"@)
}

/// Whether `s` ends with `end`.
pub open spec fn ends_with(s: Seq<char>, end: Seq<char>) -> bool {
    occurs_at(s, end, s.len() - end.len())
}

/// Exactly one line of the socket recommendation places the socket, and nothing
/// stands behind its value.
pub proof fn law_the_advice_can_be_pasted(dir: PrivateDir)
    ensures
        ({
            let lines = split(socket_text(dir), Delimiter::Char('\n'));
            exists|i: int|
                #![trigger lines[i]]
                0 <= i < lines.len() && places_socket(lines[i]) && ends_with(
                    lines[i],
                    "kitty-{kitty_pid}"@,
                ) && forall|j: int|
                    0 <= j < lines.len() && j != i ==> !places_socket(#[trigger] lines[j])
        }),
{
    let lines = socket_lines(dir);
    reveal_strlit("\n");
    assert("\n"@ == seq!['\n']);
    lemma_advice_lines(dir);
    crate::text::lemma_split_join(lines, '\n');
    assert(split(socket_text(dir), Delimiter::Char('\n')) == lines);
    assert(lines[1] == socket_line(dir));
}

proof fn lemma_advice_lines(dir: PrivateDir)
    ensures
        ({
            let lines = socket_lines(dir);
            &&& forall|i: int| 0 <= i < lines.len() ==> free_of(#[trigger] lines[i], '\n')
            &&& forall|i: int|
                0 <= i < lines.len() ==> places_socket(#[trigger] lines[i]) == (i == 1)
        }),
        ends_with(socket_line(dir), "kitty-{kitty_pid}"@),
{
    lemma_first_line();
    lemma_socket_line(dir);
    lemma_last_lines();
    let lines = socket_lines(dir);
    assert forall|i: int| 0 <= i < lines.len() implies free_of(#[trigger] lines[i], '\n') && (
    places_socket(lines[i]) == (i == 1)) by {
        if i == 0 {
            assert(lines[i] == "  allow_remote_control socket-only"@);
        } else if i == 1 {
            assert(lines[i] == socket_line(dir));
        }
    }
}

/// Two spaces in front of a text that begins otherwise are its indent.
proof fn lemma_indent(line: Seq<char>)
    requires
        line.len() > 2,
        line[0] == ' ',
        line[1] == ' ',
        !crate::text::is_space(line[2]),
    ensures
        trim_start(line) == line.skip(2),
{
    reveal_with_fuel(crate::text::trim_start, 3);
    assert(line.drop_first().drop_first() == line.skip(2));
}

proof fn lemma_first_line()
    ensures
        free_of("  allow_remote_control socket-only"@, '\n'),
        !places_socket("  allow_remote_control socket-only"@),
{
    let line = "  allow_remote_control socket-only"@;
    reveal_strlit("  allow_remote_control socket-only");
    reveal_strlit("listen_on");
    lemma_indent(line);
    if places_socket(line) {
        assert(line.skip(2).subrange(0, 9)[0] == "listen_on"@[0]);
    }
}

proof fn lemma_socket_line(dir: PrivateDir)
    ensures
        free_of(socket_line(dir), '\n'),
        places_socket(socket_line(dir)),
        ends_with(socket_line(dir), "kitty-{kitty_pid}"@),
{
    let line = socket_line(dir);
    reveal_strlit("listen_on");
    reveal_strlit("kitty-{kitty_pid}");
    match dir {
        PrivateDir::TmpDir => {
            reveal_strlit("  listen_on unix:${TMPDIR}/kitty-{kitty_pid}");
        },
        PrivateDir::RuntimeDir => {
            reveal_strlit("  listen_on unix:${XDG_RUNTIME_DIR}/kitty-{kitty_pid}");
        },
        PrivateDir::Unknown => {
            reveal_strlit("  listen_on unix:/run/user/$(id -u)/kitty-{kitty_pid}");
        },
    }
    lemma_indent(line);
    assert(line.skip(2).subrange(0, 9) == "listen_on"@);
    assert(line.subrange(line.len() - 17, line.len() as int) == "kitty-{kitty_pid}"@);
}

proof fn lemma_last_lines()
    ensures
        free_of(SOCKET_GUESS@, '\n'),
        !places_socket(SOCKET_GUESS@),
        free_of(SOCKET_CAUTION@, '\n'),
        !places_socket(SOCKET_CAUTION@),
{
    reveal_strlit("listen_on");
    reveal_strlit("# or any directory only you can open; $XDG_RUNTIME_DIR is unset here");
    reveal_strlit(
        "Keep the socket in a directory only you can open. One in /tmp is reachable by \
    anyone with write permission on it, which under a group-writable umask is more \
    than just you. Note kitty.conf has no trailing comments: everything after the \
    value is part of it.",
    );
    let guess = SOCKET_GUESS@;
    let caution = SOCKET_CAUTION@;
    assert(guess[0] == '#');
    assert(caution[0] == 'K');
    assert(trim_start(guess) == guess);
    assert(trim_start(caution) == caution);
    if places_socket(guess) {
        assert(guess.subrange(0, 9)[0] == "listen_on"@[0]);
    }
    if places_socket(caution) {
        assert(caution.subrange(0, 9)[0] == "listen_on"@[0]);
    }
}

/// Whatever the socket and the mode, a capture runs `get-text` on the window
/// with the given number, and asks for the last non-empty output; it asks for
/// colours exactly where these are wanted, and talks to the socket exactly where
/// one is advertised.
pub proof fn law_what_a_capture_runs(k: Kitty, id: u64, rec: Option<Record>, raw: bool)
    requires
        k.window_id is Some,
        parsed_u64(trim(k.window_id->0@)) == Some(id),
    ensures
        ({
            let control = if k.listen_on is Some {
                seq!["@"@, "--to"@, k.listen_on->0@]
            } else {
                seq!["@"@]
            };
            let colours = if raw {
                seq!["--ansi"@]
            } else {
                Seq::empty()
            };
            let text = seq![
                "get-text"@,
                "--match"@,
                "id:"@ + decimal(id as nat),
                "--extent"@,
                "last_non_empty_output"@,
            ];
            forall|index: usize|
                index <= 1 ==> #[trigger] k.fetch_step(index, rec, raw, Seq::empty()) == (
                StepView::Run { program: k.exe@, args: control + text + colours })
        }),
{
    let line = text_line(opt_text(k.listen_on), k.window()->0, raw);
    let control = if k.listen_on is Some {
        seq!["@"@, "--to"@, k.listen_on->0@]
    } else {
        seq!["@"@]
    };
    let colours = if raw {
        seq!["--ansi"@]
    } else {
        Seq::empty()
    };
    let text = seq![
        "get-text"@,
        "--match"@,
        "id:"@ + decimal(id as nat),
        "--extent"@,
        "last_non_empty_output"@,
    ];
    assert(line == control + text + colours);
}

/// The arguments that [`Kitty::get_text_args`] gives, for every window: after
/// `get-text` stand the window and the extent, each behind its option.
pub proof fn law_every_window_is_read_the_same_way(
    listen_on: Option<Seq<char>>,
    window: Seq<char>,
    ansi: bool,
)
    ensures
        ({
            let args = text_line(listen_on, window, ansi);
            let n = if listen_on is Some {
                3int
            } else {
                1
            };
            &&& args.len() == n + 5 + if ansi {
                1int
            } else {
                0
            }
            &&& args[0] == "@"@
            &&& listen_on is Some ==> args[1] == "--to"@ && args[2] == listen_on->0
            &&& args.subrange(n, n + 5) == seq![
                "get-text"@,
                "--match"@,
                window,
                "--extent"@,
                "last_non_empty_output"@,
            ]
            &&& ansi ==> args.last() == "--ansi"@
        }),
{
    let args = text_line(listen_on, window, ansi);
    let n = if listen_on is Some {
        3int
    } else {
        1
    };
    assert(args.subrange(n, n + 5) == seq![
        "get-text"@,
        "--match"@,
        window,
        "--extent"@,
        "last_non_empty_output"@,
    ]);
}

/// What kitty prints is handed on whole; only white space counts as nothing. A
/// refusal keeps kitty's own message in front of the advice.
pub proof fn law_what_kitty_prints_is_handed_on_whole(
    k: Kitty,
    rec: Option<Record>,
    raw: bool,
    f: FetchedView,
    e: FailureView,
)
    requires
        k.window_id is Some,
        parsed_u64(trim(k.window_id->0@)) is Some,
    ensures
        (exists|i: int| 0 <= i < f.output.len() && !crate::text::is_space(#[trigger] f.output[i]))
            ==> k.fetch_step(1, rec, raw, seq![Ok(f)]) == StepView::Done(
            (FetchedView { output: f.output, command: None, exit_code: None, cwd: None }),
        ),
        (forall|i: int|
            0 <= i < f.output.len() ==> crate::text::is_space(#[trigger] f.output[i]))
            ==> k.fetch_step(1, rec, raw, seq![Ok(f)]) == StepView::Failed(
            plain_failure(NO_OUTPUT@),
        ),
        k.fetch_step(1, rec, raw, seq![Err(e)]) == StepView::Failed(
            plain_failure(
                e.message + "\n\n"@ + hint_text(
                    lowercase(e.message),
                    if k.listen_on is Some {
                        Some(k.listen_on->0@)
                    } else {
                        None
                    },
                    k.private_dir,
                ),
            ),
        ),
{
}

/// An id that is not a number, or none at all, is fatal, and so is an older
/// command.
pub proof fn law_what_kitty_refuses(
    k: Kitty,
    index: usize,
    rec: Option<Record>,
    raw: bool,
    heard: Seq<ReplyView>,
)
    ensures
        index <= 1 && (k.window_id is None || parsed_u64(trim(k.window_id->0@)) is None)
            ==> k.fetch_step(index, rec, raw, heard) == StepView::Failed(plain_failure(NO_WINDOW@)),
        index > 1 ==> k.fetch_step(index, rec, raw, heard) == StepView::Failed(
            plain_failure(
                "kitty can only report its most recent command's output, so -c "@ + decimal(
                    index as nat,
                )
                    + " is not available here.\n\nkitty exposes only the latest output and nothing for older\ncommands. To reach further back, run inside tmux."@,
            ),
        ),
{
}

/// What the advice answers: a password comes before a missing window, that
/// before the socket, and what is not recognised comes last. Each answer but the
/// one on a refused socket gives the socket recommendation.
pub proof fn law_the_advice_answers_the_first_that_fits(
    msg: Seq<char>,
    listen_on: Option<Seq<char>>,
    dir: PrivateDir,
)
    ensures
        ({
            let advice = socket_text(dir);
            let hint = hint_text(msg, listen_on, dir);
            let password = contains(msg, "password"@);
            let window = contains(msg, "no matching"@) || contains(msg, "no window"@);
            let socket = contains(msg, "socket"@);
            &&& password ==> hint == PASSWORD_WANTED@ + advice
            &&& !password && window ==> hint == NO_SUCH_WINDOW@ + advice
            &&& !password && !window && socket && listen_on is Some ==> hint == "the socket at "@
                + listen_on->0
                + " was refused. Restart kitty so the running instance and $KITTY_LISTEN_ON agree."@
            &&& !password && !window && socket && listen_on is None ==> hint == NO_SOCKET@ + advice
                + NO_SOCKET_END@
            &&& !password && !window && !socket ==> hint == MAYBE_DISABLED@ + advice
                + MAYBE_DISABLED_END@
        }),
{
}

/// The socket recommendation: `socket-only`, then the line that places the
/// socket in the private directory of this platform, then what to mind. Where no
/// such directory is known, a comment says that it is a guess.
pub proof fn law_what_the_advice_says(macos: bool, xdg_runtime_dir: Option<String>)
    ensures
        ({
            let known = xdg_runtime_dir is Some && xdg_runtime_dir->0@.len() > 0;
            let text = socket_text(private_dir_of(macos, xdg_runtime_dir));
            let first = "  allow_remote_control socket-only"@ + "\n"@;
            &&& macos ==> text == first + "  listen_on unix:${TMPDIR}/kitty-{kitty_pid}"@ + "\n"@
                + SOCKET_CAUTION@
            &&& !macos && known ==> text == first
                + "  listen_on unix:${XDG_RUNTIME_DIR}/kitty-{kitty_pid}"@ + "\n"@ + SOCKET_CAUTION@
            &&& !macos && !known ==> text == first
                + "  listen_on unix:/run/user/$(id -u)/kitty-{kitty_pid}"@ + "\n"@ + SOCKET_GUESS@
                + "\n"@ + SOCKET_CAUTION@
        }),
{
    let dir = private_dir_of(macos, xdg_runtime_dir);
    let lines = socket_lines(dir);
    reveal_with_fuel(join, 4);
    assert(lines.drop_last().len() == lines.len() - 1);
    assert(lines.drop_last().last() == lines[lines.len() - 2]);
    assert(lines.drop_last().drop_last().last() == lines[lines.len() - 3]);
    assert(lines.drop_last().drop_last()[0] == lines[0]);
    if lines.len() == 4 {
        assert(lines.drop_last().drop_last().drop_last()[0] == lines[0]);
    }
}

/// The first of `kitten`, `kitty`, the executable in the bundle and the one in
/// the usual place that was found is the executable.
pub proof fn law_the_first_executable_is_taken(search: ExeSearch)
    ensures
        search.kitten ==> found_exe(search) == Some("kitten"@),
        !search.kitten && search.kitty ==> found_exe(search) == Some("kitty"@),
        !search.kitten && !search.kitty && search.bundled is Some ==> found_exe(search) == Some(
            search.bundled->0@,
        ),
        !search.kitten && !search.kitty && search.bundled is None && search.fallback ==> found_exe(
            search,
        ) == Some("/Applications/kitty.app/Contents/MacOS/kitty"@),
        !search.kitten && !search.kitty && search.bundled is None && !search.fallback ==> found_exe(
            search,
        ) is None,
{
}

/// The executable of a bundle stands below its `Contents`, as far up as that
/// was found: for an installation below `base/Contents`, in
/// `base/Contents/MacOS/kitty`.
pub proof fn law_where_the_bundled_executable_is(base: Seq<char>, rest: Seq<char>)
    requires
        exists|j: int|
            0 <= j < split(rest, Delimiter::Char('/')).len() && #[trigger] split(
                rest,
                Delimiter::Char('/'),
            )[j].len() > 0 && split(rest, Delimiter::Char('/'))[j] != "."@,
    ensures
        ({
            let dir = base + "/Contents"@;
            let path = dir + "/"@ + rest;
            let i = split(dir, Delimiter::Char('/')).len() - 1;
            &&& path_parts(path)[i] == "Contents"@
            &&& executable_below(up_to(path, i)) == base + "/Contents/MacOS/kitty"@
        }),
{
    let d = Delimiter::Char('/');
    let dir = base + "/Contents"@;
    let path = dir + "/"@ + rest;
    reveal_strlit("/Contents");
    reveal_strlit("Contents");
    reveal_strlit("/");
    reveal_strlit("/Contents/MacOS/kitty");
    reveal_strlit("MacOS");
    reveal_strlit("kitty");
    assert("/"@ == seq!['/']);
    assert("/Contents"@ == seq!['/'] + "Contents"@);
    assert(dir == base + seq!['/'] + "Contents"@);
    assert forall|k: int| 0 <= k < "Contents"@.len() implies #[trigger] "Contents"@[k] != '/' by {}
    crate::text::lemma_split_concat(base, '/', "Contents"@, d);
    crate::text::lemma_split_concat(dir, '/', rest, d);
    crate::text::lemma_split_uncut("Contents"@, d);
    assert(dir == base.push('/') + "Contents"@);
    assert(path == dir.push('/') + rest);
    let parts = path_parts(path);
    let n = split(base, d).len() as int;
    let more = split(rest, d);
    let j = choose|j: int| 0 <= j < more.len() && #[trigger] more[j].len() > 0 && more[j] != "."@;
    assert(split(dir, d) == split(base, d) + seq!["Contents"@]);
    assert(parts == split(dir, d) + more);
    assert(parts[n] == "Contents"@);
    assert(parts[n + 1 + j] == more[j]);
    assert(!is_idle(parts[n + 1 + j]));
    assert(parts.take(n + 1) == split(dir, d));
    crate::text::lemma_join_split(dir, '/');
    assert(up_to(path, n) == dir);
    assert(dir.last() == 's');
    assert(joined(dir, "MacOS"@) == dir + "/"@ + "MacOS"@);
    assert(joined(dir, "MacOS"@).last() == 'S');
    assert(executable_below(dir) == dir + "/"@ + "MacOS"@ + "/"@ + "kitty"@);
    assert("/Contents/MacOS/kitty"@ == "/Contents"@ + "/"@ + "MacOS"@ + "/"@ + "kitty"@);
}

/// The diagnosis asks for the list of windows first. Its report tells, in order,
/// of the executable, of remote control, of the window, of what a probe read,
/// where there could be one, and of the depth of the history.
pub proof fn law_what_the_kitty_diagnosis_reports(
    k: Kitty,
    facts: Facts,
    id: u64,
    ls: FetchedView,
    probe: ReplyView,
    e: FailureView,
)
    requires
        k.window_id is Some,
        parsed_u64(trim(k.window_id->0@)) == Some(id),
    ensures
        k.diagnose_step(facts, Seq::empty()) == (CheckupView::Run {
            program: k.exe@,
            args: if k.listen_on is Some {
                seq!["@"@, "--to"@, k.listen_on->0@, "ls"@]
            } else {
                seq!["@"@, "ls"@]
            },
        }),
        k.diagnose_step(facts, seq![Ok(ls), probe]) matches CheckupView::Report(r) && {
            &&& r.len() == 5
            &&& r[0].ok && r[0].label == "kitty binary"@ && r[0].detail == k.exe@
            &&& r[1].ok && r[1].label == "remote control"@
            &&& k.listen_on is Some ==> r[1].detail == "reachable via "@ + ("socket "@
                + k.listen_on->0@)
            &&& k.listen_on is None ==> r[1].detail == "reachable via "@
                + "escape-code channel (no $KITTY_LISTEN_ON)"@
            &&& r[2].ok && r[2].label == "window"@ && r[2].detail == "id:"@ + decimal(id as nat)
            &&& r[3].label == "shell integration"@ && r[3].ok == (probe is Ok && !is_blank(
                probe->Ok_0.output,
            ))
            &&& probe is Err ==> r[3].detail == probe->Err_0.message
            &&& !r[4].ok && r[4].label == "history depth"@
        },
        k.diagnose_step(facts, seq![Err(e)]) matches CheckupView::Report(r) && {
            &&& r.len() == 4
            &&& r[0].ok && r[0].label == "kitty binary"@ && r[0].detail == k.exe@
            &&& !r[1].ok && r[1].label == "remote control"@ && begins_with(r[1].detail, e.message)
            &&& r[2].ok && r[2].label == "window"@ && r[2].detail == "id:"@ + decimal(id as nat)
            &&& !r[3].ok && r[3].label == "history depth"@
        },
{
    assert(k.report(Err(e), None)[1] == k.control_finding(Err(e)));
    let m = k.control_finding(Err(e)).detail;
    assert(m.subrange(0, e.message.len() as int) == e.message);
    if k.listen_on is Some {
        assert(control_line(opt_text(k.listen_on)).push("ls"@) == seq![
            "@"@,
            "--to"@,
            k.listen_on->0@,
            "ls"@,
        ]);
    } else {
        assert(control_line(opt_text(k.listen_on)).push("ls"@) == seq!["@"@, "ls"@]);
    }
}

/// Without a window the diagnosis says so, probes nothing, and still tells of
/// all the rest.
pub proof fn law_the_diagnosis_without_a_window(k: Kitty, facts: Facts, ls: ReplyView)
    requires
        k.window_id is None || parsed_u64(trim(k.window_id->0@)) is None,
    ensures
        k.diagnose_step(facts, seq![ls]) matches CheckupView::Report(r) && {
            &&& r.len() == 4
            &&& r[0].ok && r[0].label == "kitty binary"@ && r[0].detail == k.exe@
            &&& r[1].label == "remote control"@ && r[1].ok == (ls is Ok)
            &&& !r[2].ok && r[2].label == "window"@
            &&& !r[3].ok && r[3].label == "history depth"@
        },
{
}

/// One slash stands between a directory and a name. The executable of a bundle
/// whose `Contents` is named itself lies below that.
pub proof fn law_paths_are_joined_by_one_slash(base: Seq<char>, name: Seq<char>)
    ensures
        base.len() > 0 && base.last() == '/' ==> joined(base, name) == base + name,
        base.len() == 0 || base.last() != '/' ==> joined(base, name) == base + "/"@ + name,
        ({
            let dir = base + "/Contents"@;
            executable_below(up_to(dir, split(dir, Delimiter::Char('/')).len() - 1)) == base
                + "/Contents/MacOS/kitty"@
        }),
{
    let dir = base + "/Contents"@;
    reveal_strlit("/Contents");
    reveal_strlit("/");
    reveal_strlit("/Contents/MacOS/kitty");
    reveal_strlit("MacOS");
    reveal_strlit("kitty");
    assert(up_to(dir, path_parts(dir).len() - 1) == dir);
    assert(dir.last() == 's');
    assert(joined(dir, "MacOS"@) == dir + "/"@ + "MacOS"@);
    assert(joined(dir, "MacOS"@).last() == 'S');
    assert(executable_below(dir) == dir + "/"@ + "MacOS"@ + "/"@ + "kitty"@);
    assert("/Contents/MacOS/kitty"@ == "/Contents"@ + "/"@ + "MacOS"@ + "/"@ + "kitty"@);
}

/// Replies beyond those that were asked for change nothing.
pub proof fn law_kitty_needs_no_more_replies(
    k: Kitty,
    index: usize,
    rec: Option<Record>,
    raw: bool,
    facts: Facts,
    heard: Seq<ReplyView>,
)
    ensures
        heard.len() >= 1 ==> k.fetch_step(index, rec, raw, heard) == k.fetch_step(
            index,
            rec,
            raw,
            heard.take(1),
        ),
        heard.len() >= 2 ==> k.diagnose_step(facts, heard) == k.diagnose_step(facts, heard.take(2)),
        heard.len() >= 1 && heard[0] is Err ==> k.diagnose_step(facts, heard) == k.diagnose_step(
            facts,
            heard.take(1),
        ),
{
}

/// The last part of a given name is the one behind which there is no other:
/// adding a part of that name makes the new one the last, and adding any other
/// part changes nothing.
pub proof fn law_the_last_part_of_a_name(
    parts: Seq<Seq<char>>,
    name: Seq<char>,
    part: Seq<char>,
    i: int,
)
    ensures
        is_last_named(parts.push(part), name, parts.len() as int) <==> part == name,
        0 <= i < parts.len() ==> (is_last_named(parts.push(part), name, i) <==> part != name
            && is_last_named(parts, name, i)),
        !is_last_named(Seq::empty(), name, i),
{
    let more = parts.push(part);
    if 0 <= i < parts.len() {
        assert(more[i] == parts[i]);
        if is_last_named(more, name, i) {
            assert(more[parts.len() as int] != name);
            assert forall|j: int| i < j < parts.len() implies #[trigger] parts[j] != name by {
                assert(more[j] != name);
            }
        }
        if part != name && is_last_named(parts, name, i) {
            assert forall|j: int| i < j < more.len() implies #[trigger] more[j] != name by {
                if j < parts.len() {
                    assert(parts[j] != name);
                }
            }
        }
    }
}

} // verus!
