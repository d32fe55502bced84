//! The unit `tcap` produces: one command, its output, and what is known of it.

use vstd::prelude::*;

use crate::text::{copy_of, opt_text};

verus! {

/// A single captured command block.
///
/// The metadata is optional because some terminals can return output with no
/// shell hook installed, in which case there is no exit code or duration.
#[derive(Clone, Debug)]
pub struct Capture {
    pub command: Option<String>,
    pub exit_code: Option<i32>,
    pub cwd: Option<String>,
    pub duration_ms: Option<u64>,
    pub output: String,
    pub source: String,
    /// True when the backend cannot tie this output to the named command, so
    /// the metadata above may describe a different command than the body.
    pub approximate: bool,
}

/// What a [`Capture`] holds.
#[verifier::ext_equal]
pub struct CaptureView {
    pub command: Option<Seq<char>>,
    pub exit_code: Option<i32>,
    pub cwd: Option<Seq<char>>,
    pub duration_ms: Option<u64>,
    pub output: Seq<char>,
    pub source: Seq<char>,
    pub approximate: bool,
}

impl View for Capture {
    type V = CaptureView;

    open spec fn view(&self) -> CaptureView {
        CaptureView {
            command: opt_text(self.command),
            exit_code: self.exit_code,
            cwd: opt_text(self.cwd),
            duration_ms: self.duration_ms,
            output: self.output@,
            source: self.source@,
            approximate: self.approximate,
        }
    }
}

impl CaptureView {
    /// A capture of which only the output and its source are known.
    pub open spec fn bare(output: Seq<char>, source: Seq<char>) -> CaptureView {
        CaptureView {
            command: None,
            exit_code: None,
            cwd: None,
            duration_ms: None,
            output,
            source,
            approximate: false,
        }
    }

    /// Whether anything is known of the command.
    pub open spec fn described(self) -> bool {
        self.command is Some || self.exit_code is Some || self.cwd is Some || self.duration_ms
            is Some
    }

    /// This capture with another output.
    pub open spec fn with_output(self, output: Seq<char>) -> CaptureView {
        CaptureView { output, ..self }
    }
}

/// What a list of captures holds.
pub open spec fn captures(v: Seq<Capture>) -> Seq<CaptureView> {
    v.map_values(|c: Capture| c@)
}

impl Capture {
    /// A capture of which only the output and its source are known.
    pub fn new(output: String, source: &str) -> (r: Capture)
        ensures
            r@ == CaptureView::bare(output@, source@),
    {
        Capture {
            command: None,
            exit_code: None,
            cwd: None,
            duration_ms: None,
            output,
            source: copy_of(source),
            approximate: false,
        }
    }

    /// Whether anything is known of the command.
    pub fn has_metadata(&self) -> (r: bool)
        ensures
            r == self@.described(),
    {
        self.command.is_some() || self.exit_code.is_some() || self.cwd.is_some()
            || self.duration_ms.is_some()
    }
}

// ---------------------------------------------------------------------------
// Laws
// ---------------------------------------------------------------------------

/// A capture is seen with all that it holds, and so is each of a list of them.
pub proof fn law_captures_are_seen_whole(c: Capture, list: Seq<Capture>)
    ensures
        c@.command is Some == c.command is Some,
        c.command is Some ==> c@.command->0 == c.command->0@,
        c@.exit_code == c.exit_code,
        c@.cwd is Some == c.cwd is Some,
        c.cwd is Some ==> c@.cwd->0 == c.cwd->0@,
        c@.duration_ms == c.duration_ms,
        c@.output == c.output@,
        c@.source == c.source@,
        c@.approximate == c.approximate,
        captures(list).len() == list.len(),
        forall|i: int| 0 <= i < list.len() ==> #[trigger] captures(list)[i] == list[i]@,
{
}

/// A bare capture holds its output and source as they are, and nothing else;
/// any of command, exit code, directory and duration is something known.
pub proof fn law_what_is_known_of_a_capture(c: CaptureView, output: Seq<char>, source: Seq<char>)
    ensures
        ({
            let b = CaptureView::bare(output, source);
            &&& b.output == output && b.source == source && !b.approximate
            &&& b.command is None && b.exit_code is None && b.cwd is None && b.duration_ms is None
        }),
        c.described() == !(c.command is None && c.exit_code is None && c.cwd is None
            && c.duration_ms is None),
        c.with_output(output).output == output,
        c.with_output(output).with_output(c.output) == c,
{
}

} // verus!
