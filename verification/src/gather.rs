//! Walking over the command blocks that were asked for.
//!
//! A higher index means older, so the walk starts at the highest and yields the
//! blocks oldest first, the order they were run in.

use vstd::prelude::*;

use crate::backend::{reply, Fetched, FetchedView, Reply, ReplyView};
use crate::capture::{captures, Capture, CaptureView};
use crate::failure::{plain_failure, Failure, FailureView};
use crate::state::{nth_back, nth_from_end, Record};
use crate::text::{copy_of, copy_opt, opt_text};

verus! {

/// What to say when there is no capture at all.
pub const NOTHING: &'static str = "nothing captured. Run `tcap doctor` to see which backend is active \
    and whether shell integration is recording commands.";

/// `a`, or else `b`.
pub open spec fn either<T>(a: Option<T>, b: Option<T>) -> Option<T> {
    if a is Some {
        a
    } else {
        b
    }
}

/// The capture of a block, from what the backend returned and what the shell
/// recorded.
pub open spec fn assembled(
    f: FetchedView,
    rec: Option<Record>,
    source: Seq<char>,
    approximate: bool,
) -> CaptureView {
    CaptureView {
        command: match rec {
            Some(r) => Some(r.command@),
            None => f.command,
        },
        exit_code: match rec {
            Some(r) => either(r.exit_code, f.exit_code),
            None => f.exit_code,
        },
        cwd: match rec {
            Some(r) => either(opt_text(r.cwd), f.cwd),
            None => f.cwd,
        },
        duration_ms: match rec {
            Some(r) => r.duration_ms,
            None => None,
        },
        output: f.output,
        source,
        approximate,
    }
}

/// The shell record wins where both have a value: it saw the command as typed
/// and is the only source of duration. Backend metadata fills the gaps, which
/// is what makes iTerm2 usable with no shell integration at all.
pub fn build_capture(
    fetched: Fetched,
    rec: Option<&Record>,
    source: &str,
    approximate: bool,
) -> (r: Capture)
    ensures
        r@ == assembled(
            fetched@,
            match rec {
                Some(x) => Some(*x),
                None => None,
            },
            source@,
            approximate,
        ),
{
    let mut cap = Capture::new(fetched.output, source);
    cap.approximate = approximate;
    cap.command = fetched.command;
    cap.exit_code = fetched.exit_code;
    cap.cwd = fetched.cwd;
    if let Some(r) = rec {
        cap.command = Some(copy_of(r.command.as_str()));
        if r.exit_code.is_some() {
            cap.exit_code = r.exit_code;
        }
        if r.cwd.is_some() {
            cap.cwd = copy_opt(&r.cwd);
        }
        cap.duration_ms = r.duration_ms;
    }
    cap
}

/// A walk that is under way.
pub struct Gather {
    /// The index of the newest block that was asked for.
    pub newest: usize,
    /// How many blocks are still to be fetched.
    pub left: usize,
    /// The captures so far.
    pub caps: Vec<Capture>,
}

/// What a [`Gather`] holds.
#[verifier::ext_equal]
pub struct GatherView {
    pub newest: usize,
    pub left: usize,
    pub caps: Seq<CaptureView>,
}

impl View for Gather {
    type V = GatherView;

    open spec fn view(&self) -> GatherView {
        GatherView { newest: self.newest, left: self.left, caps: captures(self.caps@) }
    }
}

impl GatherView {
    /// A walk over `count` blocks, the newest of them at `newest`.
    pub open spec fn started(count: usize, newest: usize) -> GatherView {
        GatherView { newest, left: count, caps: Seq::empty() }
    }

    /// Whether the indices of all blocks are numbers of the machine.
    pub open spec fn fits(self) -> bool {
        self.newest + self.left <= usize::MAX
    }

    /// The index of the block that comes next.
    pub open spec fn index(self) -> int {
        self.newest + self.left - 1
    }
}

/// A walk after one more block: `outcome` is what came of fetching it. The
/// block the user explicitly asked for must report its error. Extra blocks are
/// best-effort: running out of history is normal.
pub open spec fn walked_on(
    s: GatherView,
    outcome: ReplyView,
    records: Seq<Record>,
    source: Seq<char>,
    approximate: bool,
) -> Result<GatherView, FailureView> {
    match outcome {
        Ok(f) => Ok(
            GatherView {
                newest: s.newest,
                left: (s.left - 1) as usize,
                caps: s.caps.push(
                    assembled(f, nth_back(records, s.index() as usize), source, approximate),
                ),
            },
        ),
        Err(e) => if s.left == 1 {
            Err(e)
        } else {
            Ok(GatherView { newest: s.newest, left: (s.left - 1) as usize, caps: s.caps })
        },
    }
}

impl Gather {
    /// A walk over `count` blocks, the newest of them at `newest`.
    pub fn new(count: usize, newest: usize) -> (r: Gather)
        ensures
            r@ == GatherView::started(count, newest),
    {
        let r = Gather { newest, left: count, caps: Vec::new() };
        assert(captures(r.caps@) == Seq::<CaptureView>::empty());
        r
    }

    /// The index of the block to fetch next, if any is left.
    pub fn next_index(&self) -> (r: Option<usize>)
        requires
            self@.fits(),
        ensures
            self@.left > 0 ==> r is Some && r->0 == self@.index(),
            self@.left == 0 ==> r is None,
    {
        if self.left == 0 {
            None
        } else {
            Some(self.newest + (self.left - 1))
        }
    }

    /// Takes in what came of fetching the next block, and goes on to the one
    /// after it. `records` are the session's records, oldest first.
    pub fn take_in(
        self,
        outcome: Reply,
        records: &[Record],
        source: &str,
        approximate: bool,
    ) -> (r: Result<Gather, Failure>)
        requires
            self@.fits(),
            self@.left > 0,
        ensures
            match (r, walked_on(self@, reply(outcome), records@, source@, approximate)) {
                (Ok(got), Ok(want)) => got@ == want,
                (Err(got), Err(want)) => got@ == want,
                _ => false,
            },
    {
        let index: usize = self.newest + (self.left - 1);
        let newest: usize = self.newest;
        let left: usize = self.left - 1;
        match outcome {
            Ok(fetched) => {
                let rec = nth_from_end(records, index);
                let cap = build_capture(fetched, rec, source, approximate);
                let mut caps = self.caps;
                let ghost before = caps@;
                caps.push(cap);
                assert(captures(caps@) == captures(before).push(cap@));
                Ok(Gather { newest, left, caps })
            },
            Err(e) => {
                if left == 0 {
                    Err(e)
                } else {
                    Ok(Gather { newest, left, caps: self.caps })
                }
            },
        }
    }

    /// The captures of a walk that is over.
    pub fn finish(self) -> (r: Result<Vec<Capture>, Failure>)
        ensures
            self@.caps.len() > 0 ==> r is Ok && captures(r->Ok_0@) == self@.caps,
            self@.caps.len() == 0 ==> r is Err && r->Err_0@ == plain_failure(NOTHING@),
    {
        if self.caps.len() == 0 {
            Err(Failure::because(NOTHING))
        } else {
            Ok(self.caps)
        }
    }
}

// ---------------------------------------------------------------------------
// Laws
// ---------------------------------------------------------------------------

/// A walk after a list of outcomes, oldest block first.
pub open spec fn walked(
    s: GatherView,
    outcomes: Seq<ReplyView>,
    records: Seq<Record>,
    source: Seq<char>,
    approximate: bool,
) -> Result<GatherView, FailureView>
    decreases outcomes.len(),
{
    if outcomes.len() == 0 {
        Ok(s)
    } else {
        match walked_on(s, outcomes.first(), records, source, approximate) {
            Ok(next) => walked(next, outcomes.drop_first(), records, source, approximate),
            Err(e) => Err(e),
        }
    }
}

/// The captures of the blocks that could be fetched, of outcomes for the
/// indices that end at `newest`, oldest block first.
pub open spec fn successes(
    outcomes: Seq<ReplyView>,
    newest: usize,
    records: Seq<Record>,
    source: Seq<char>,
    approximate: bool,
) -> Seq<CaptureView>
    decreases outcomes.len(),
{
    if outcomes.len() == 0 {
        Seq::empty()
    } else {
        let rest = successes(outcomes.drop_first(), newest, records, source, approximate);
        let index = (newest + outcomes.len() - 1) as usize;
        match outcomes.first() {
            Ok(f) => seq![assembled(f, nth_back(records, index), source, approximate)] + rest,
            Err(_) => rest,
        }
    }
}

/// A walk over all the blocks that were asked for fails exactly when the newest
/// one does, and with its error. Otherwise it ends with the captures of all the
/// blocks that could be fetched, oldest first, each annotated by the record of
/// its own index; these are never none.
pub proof fn law_only_the_newest_block_can_fail(
    s: GatherView,
    outcomes: Seq<ReplyView>,
    records: Seq<Record>,
    source: Seq<char>,
    approximate: bool,
)
    requires
        s.fits(),
        s.left == outcomes.len(),
        s.left > 0,
    ensures
        match outcomes.last() {
            Err(e) => walked(s, outcomes, records, source, approximate) == Err::<
                GatherView,
                FailureView,
            >(e),
            Ok(_) => {
                let end = walked(s, outcomes, records, source, approximate);
                &&& end is Ok
                &&& end->Ok_0.left == 0
                &&& end->Ok_0.caps == s.caps + successes(
                    outcomes,
                    s.newest,
                    records,
                    source,
                    approximate,
                )
                &&& end->Ok_0.caps.len() > 0
            },
        },
    decreases outcomes.len(),
{
    let next = walked_on(s, outcomes.first(), records, source, approximate);
    let rest = outcomes.drop_first();
    if outcomes.len() == 1 {
        assert(outcomes.last() == outcomes.first());
        assert(rest.len() == 0);
        assert(successes(rest, s.newest, records, source, approximate) == Seq::<
            CaptureView,
        >::empty());
        if next is Ok {
            assert(walked(next->Ok_0, rest, records, source, approximate) == next);
        }
    } else {
        assert(rest.last() == outcomes.last());
        law_only_the_newest_block_can_fail(next->Ok_0, rest, records, source, approximate);
    }
}

/// What the shell recorded is never overridden by what the backend returned.
pub proof fn law_the_shell_record_wins(
    f: FetchedView,
    r: Record,
    source: Seq<char>,
    approximate: bool,
)
    ensures
        ({
            let cap = assembled(f, Some(r), source, approximate);
            &&& cap.command == Some(r.command@)
            &&& r.exit_code is Some ==> cap.exit_code == r.exit_code
            &&& r.cwd is Some ==> cap.cwd == opt_text(r.cwd)
            &&& cap.duration_ms == r.duration_ms
            &&& cap.output == f.output
        }),
{
}

/// What a capture is made of: the whole output, the name of the source and
/// whether it is approximate as they are; and each fact from the shell record
/// where that has it, else from the backend. Only the record knows a duration.
pub proof fn law_what_a_capture_is_made_of(
    f: FetchedView,
    rec: Option<Record>,
    source: Seq<char>,
    approximate: bool,
)
    ensures
        ({
            let cap = assembled(f, rec, source, approximate);
            &&& cap.output == f.output
            &&& cap.source == source
            &&& cap.approximate == approximate
            &&& rec is None ==> cap.command == f.command && cap.exit_code == f.exit_code && cap.cwd
                == f.cwd && cap.duration_ms is None
            &&& rec is Some ==> {
                &&& cap.command == Some(rec->0.command@)
                &&& cap.duration_ms == rec->0.duration_ms
                &&& rec->0.exit_code is Some ==> cap.exit_code == rec->0.exit_code
                &&& rec->0.exit_code is None ==> cap.exit_code == f.exit_code
                &&& rec->0.cwd is Some ==> cap.cwd == Some(rec->0.cwd->0@)
                &&& rec->0.cwd is None ==> cap.cwd == f.cwd
            }
        }),
{
}

/// One step of a walk: a block that was fetched is added behind the captures so
/// far, with the record of its own index; one that was not leaves them as they
/// are, unless it is the last one, which is the newest.
pub proof fn law_one_block_of_a_walk(
    s: GatherView,
    f: FetchedView,
    e: FailureView,
    records: Seq<Record>,
    source: Seq<char>,
    approximate: bool,
)
    requires
        s.left > 0,
        s.newest + s.left <= usize::MAX,
    ensures
        ({
            let index = (s.newest + s.left - 1) as usize;
            let block = assembled(f, nth_back(records, index), source, approximate);
            let rest = (s.left - 1) as usize;
            &&& walked_on(s, Ok(f), records, source, approximate) == Ok::<GatherView, FailureView>(
                (GatherView { newest: s.newest, left: rest, caps: s.caps.push(block) }),
            )
            &&& s.left > 1 ==> walked_on(s, Err(e), records, source, approximate) == Ok::<
                GatherView,
                FailureView,
            >((GatherView { newest: s.newest, left: rest, caps: s.caps }))
            &&& s.left == 1 ==> walked_on(s, Err(e), records, source, approximate) == Err::<
                GatherView,
                FailureView,
            >(e)
        }),
{
}

/// A walk begins with all blocks left and no captures, and is seen whole.
pub proof fn law_a_walk_begins_empty(count: usize, newest: usize, g: Gather)
    ensures
        GatherView::started(count, newest).newest == newest,
        GatherView::started(count, newest).left == count,
        GatherView::started(count, newest).caps.len() == 0,
        g@.fits() <==> g.newest + g.left <= usize::MAX,
        g@.newest == g.newest && g@.left == g.left,
        g@.caps.len() == g.caps@.len(),
        forall|i: int| 0 <= i < g.caps@.len() ==> #[trigger] g@.caps[i] == g.caps@[i]@,
{
}

/// Every block that could be fetched is captured, in its place among those, and
/// with the record of its own index, whatever became of the others; and nothing
/// else is.
pub proof fn law_every_fetched_block_is_captured(
    outcomes: Seq<ReplyView>,
    newest: usize,
    records: Seq<Record>,
    source: Seq<char>,
    approximate: bool,
)
    ensures
        ({
            let fetched = |o: ReplyView| o is Ok;
            let caps = successes(outcomes, newest, records, source, approximate);
            &&& caps.len() == outcomes.filter(fetched).len()
            &&& forall|i: int|
                0 <= i < outcomes.len() && (#[trigger] outcomes[i]) is Ok ==> {
                    let place = outcomes.take(i).filter(fetched).len() as int;
                    let index = (newest + outcomes.len() - 1 - i) as usize;
                    &&& 0 <= place < caps.len()
                    &&& caps[place] == assembled(
                        outcomes[i]->Ok_0,
                        nth_back(records, index),
                        source,
                        approximate,
                    )
                }
        }),
    decreases outcomes.len(),
{
    let fetched = |o: ReplyView| o is Ok;
    let caps = successes(outcomes, newest, records, source, approximate);
    if outcomes.len() == 0 {
        assert(outcomes.filter(fetched).len() == 0) by {
            reveal(Seq::filter);
        }
    } else {
        let rest = outcomes.drop_first();
        let first = seq![outcomes.first()];
        law_every_fetched_block_is_captured(rest, newest, records, source, approximate);
        let later = successes(rest, newest, records, source, approximate);
        let k: int = if outcomes.first() is Ok {
            1
        } else {
            0
        };
        assert(first + rest == outcomes);
        Seq::filter_distributes_over_add(first, rest, fetched);
        assert(first.filter(fetched).len() == k) by {
            reveal(Seq::filter);
            reveal_with_fuel(Seq::filter, 2);
            assert(first.drop_last() == Seq::<ReplyView>::empty());
        }
        assert(forall|j: int| 0 <= j < later.len() ==> caps[j + k] == #[trigger] later[j]);
        assert forall|i: int| 0 <= i < outcomes.len() && (#[trigger] outcomes[i]) is Ok implies ({
            let place = outcomes.take(i).filter(fetched).len() as int;
            let index = (newest + outcomes.len() - 1 - i) as usize;
            &&& 0 <= place < caps.len()
            &&& caps[place] == assembled(
                outcomes[i]->Ok_0,
                nth_back(records, index),
                source,
                approximate,
            )
        }) by {
            if i == 0 {
                assert(outcomes.take(0).filter(fetched).len() == 0) by {
                    reveal(Seq::filter);
                }
            } else {
                assert(outcomes.take(i) == first + rest.take(i - 1));
                Seq::filter_distributes_over_add(first, rest.take(i - 1), fetched);
                assert(rest[i - 1] == outcomes[i]);
                let place = rest.take(i - 1).filter(fetched).len() as int;
                assert(later[place] == caps[place + k]);
            }
        }
    }
}

} // verus!
