//! Which program puts text on the clipboard.

use vstd::prelude::*;

use crate::failure::{plain_failure, Failure};
use crate::text::{copy_of, texts};

verus! {

/// A program that takes the text to copy on its standard input.
pub struct Tool {
    pub program: String,
    pub args: Vec<String>,
}

/// What a [`Tool`] holds.
#[verifier::ext_equal]
pub struct ToolView {
    pub program: Seq<char>,
    pub args: Seq<Seq<char>>,
}

impl View for Tool {
    type V = ToolView;

    open spec fn view(&self) -> ToolView {
        ToolView { program: self.program@, args: texts(self.args@) }
    }
}

/// Which of the known programs are on the search path.
#[derive(Clone, Copy)]
pub struct Present {
    pub pbcopy: bool,
    pub wl_copy: bool,
    pub xclip: bool,
    pub xsel: bool,
}

/// The program to use, if there is one. macOS has its own; elsewhere Wayland's
/// comes before those of X.
pub open spec fn tool_for(macos: bool, present: Present) -> Option<ToolView> {
    if macos {
        if present.pbcopy {
            Some(ToolView { program: "pbcopy"@, args: Seq::empty() })
        } else {
            None
        }
    } else if present.wl_copy {
        Some(ToolView { program: "wl-copy"@, args: Seq::empty() })
    } else if present.xclip {
        Some(ToolView { program: "xclip"@, args: seq!["-selection"@, "clipboard"@] })
    } else if present.xsel {
        Some(ToolView { program: "xsel"@, args: seq!["--clipboard"@, "--input"@] })
    } else {
        None
    }
}

/// What to say when there is no program to use.
pub open spec fn no_tool(macos: bool) -> Seq<char> {
    if macos {
        "no clipboard tool found (looked for pbcopy)"@
    } else {
        "no clipboard tool found (looked for wl-copy, xclip, xsel)"@
    }
}

/// A program with two arguments.
fn with_two(program: &str, a: &str, b: &str) -> (r: Tool)
    ensures
        r@ == (ToolView { program: program@, args: seq![a@, b@] }),
{
    let mut args: Vec<String> = Vec::new();
    args.push(copy_of(a));
    args.push(copy_of(b));
    assert(texts(args@) == seq![a@, b@]);
    Tool { program: copy_of(program), args }
}

/// A program without arguments.
fn alone(program: &str) -> (r: Tool)
    ensures
        r@ == (ToolView { program: program@, args: Seq::empty() }),
{
    let args: Vec<String> = Vec::new();
    assert(texts(args@) == Seq::<Seq<char>>::empty());
    Tool { program: copy_of(program), args }
}

/// The program to use, or which programs were missed.
pub fn copy_to_clipboard(macos: bool, present: &Present) -> (r: Result<Tool, Failure>)
    ensures
        match tool_for(macos, *present) {
            Some(t) => r is Ok && r->Ok_0@ == t,
            None => r is Err && r->Err_0@ == plain_failure(no_tool(macos)),
        },
{
    if macos {
        if present.pbcopy {
            Ok(alone("pbcopy"))
        } else {
            Err(Failure::because("no clipboard tool found (looked for pbcopy)"))
        }
    } else if present.wl_copy {
        Ok(alone("wl-copy"))
    } else if present.xclip {
        Ok(with_two("xclip", "-selection", "clipboard"))
    } else if present.xsel {
        Ok(with_two("xsel", "--clipboard", "--input"))
    } else {
        Err(Failure::because("no clipboard tool found (looked for wl-copy, xclip, xsel)"))
    }
}

// ---------------------------------------------------------------------------
// Laws
// ---------------------------------------------------------------------------

/// The program that is used is there, and it is the first of those that the
/// platform has in the order of preference; where one is there, one is used. Each
/// is called so that it reads the clipboard's new text from its input.
pub proof fn law_the_first_tool_that_is_there(macos: bool, p: Present)
    ensures
        ({
            let t = tool_for(macos, p);
            &&& macos && p.pbcopy ==> t == Some(
                (ToolView { program: "pbcopy"@, args: Seq::empty() }),
            )
            &&& macos && !p.pbcopy ==> t is None
            &&& !macos && p.wl_copy ==> t == Some(
                (ToolView { program: "wl-copy"@, args: Seq::empty() }),
            )
            &&& !macos && !p.wl_copy && p.xclip ==> t == Some(
                (ToolView { program: "xclip"@, args: seq!["-selection"@, "clipboard"@] }),
            )
            &&& !macos && !p.wl_copy && !p.xclip && p.xsel ==> t == Some(
                (ToolView { program: "xsel"@, args: seq!["--clipboard"@, "--input"@] }),
            )
            &&& !macos && !p.wl_copy && !p.xclip && !p.xsel ==> t is None
        }),
        macos ==> no_tool(macos) == "no clipboard tool found (looked for pbcopy)"@,
        !macos ==> no_tool(macos) == "no clipboard tool found (looked for wl-copy, xclip, xsel)"@,
{
}

/// A program is seen with its name and every argument.
pub proof fn law_tools_are_seen_whole(t: Tool)
    ensures
        t@.program == t.program@,
        t@.args == Seq::new(t.args@.len(), |i: int| t.args@[i]@),
{
    assert(texts(t.args@) == Seq::new(t.args@.len(), |i: int| t.args@[i]@));
}

} // verus!
