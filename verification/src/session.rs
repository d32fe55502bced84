//! One capture from beginning to end: walking over the blocks that were asked
//! for, talking to the terminal about each, and presenting what came of it.
//!
//! Nothing here reaches outside. A walk says what it needs to know next, and is
//! told the reply.

use vstd::prelude::*;

use crate::backend::{
    law_a_fetch_ends_after_two_replies, replies, reply, Backend, Reply, ReplyView, Step, StepView,
    Terminal,
};
use crate::capture::{captures, Capture, CaptureView};
use crate::cli::{Mode, Select, Settings};
use crate::failure::{plain_failure, Failure, FailureView};
use crate::gather::{
    law_only_the_newest_block_can_fail, successes, walked, walked_on, Gather, GatherView, NOTHING,
};
use crate::hints::{after_tcap, detect_shell, emit_hints, follows_tcap, shell_of, warnings};
use crate::render::{prepare, prepared, render, rendered};
use crate::state::{nth_back, nth_from_end, Record};
use crate::text::{opt_str, texts};

verus! {

// ---------------------------------------------------------------------------
// Walking
// ---------------------------------------------------------------------------

/// A walk under way, with the replies heard about the block at hand.
pub struct Walk {
    pub gather: Gather,
    pub heard: Vec<Reply>,
}

/// What a [`Walk`] holds.
#[verifier::ext_equal]
pub struct WalkView {
    pub gather: GatherView,
    pub heard: Seq<ReplyView>,
}

impl View for Walk {
    type V = WalkView;

    open spec fn view(&self) -> WalkView {
        WalkView { gather: self.gather@, heard: replies(self.heard@) }
    }
}

/// Where a walk has come to.
pub enum Turn {
    /// This has to be done, and the walk told the reply.
    Ask { walk: Walk, step: Step },
    /// The captures, oldest first.
    Finished(Vec<Capture>),
    /// Why there are none.
    Failed(Failure),
}

/// What a [`Turn`] holds.
#[verifier::ext_equal]
pub enum TurnView {
    Ask { walk: WalkView, step: StepView },
    Finished(Seq<CaptureView>),
    Failed(FailureView),
}

impl View for Turn {
    type V = TurnView;

    open spec fn view(&self) -> TurnView {
        match self {
            Turn::Ask { walk, step } => TurnView::Ask { walk: walk@, step: step@ },
            Turn::Finished(caps) => TurnView::Finished(captures(caps@)),
            Turn::Failed(e) => TurnView::Failed(e@),
        }
    }
}

/// A walk at the start of a block.
pub open spec fn at_block(gather: GatherView) -> WalkView {
    WalkView { gather, heard: Seq::empty() }
}

/// What a step comes to: a block, the reason why there is none, or nothing yet.
pub open spec fn settled(step: StepView) -> Option<ReplyView> {
    match step {
        StepView::Done(f) => Some(Ok(f)),
        StepView::Failed(e) => Some(Err(e)),
        _ => None,
    }
}

/// The step of the block at hand.
pub open spec fn step_at(t: Terminal, records: Seq<Record>, raw: bool, w: WalkView) -> StepView {
    let index = w.gather.index() as usize;
    t.fetch_step(index, nth_back(records, index), raw, w.heard)
}

/// A walk after the outcome of the block at hand.
pub open spec fn onward(
    t: Terminal,
    records: Seq<Record>,
    gather: GatherView,
    outcome: ReplyView,
) -> Result<GatherView, FailureView> {
    walked_on(gather, outcome, records, t.called(), !t.bounded())
}

/// Where a walk comes to without another reply.
pub open spec fn next_turn(t: Terminal, records: Seq<Record>, raw: bool, w: WalkView) -> TurnView
    decreases w.gather.left,
{
    if w.gather.left == 0 {
        if w.gather.caps.len() == 0 {
            TurnView::Failed(plain_failure(NOTHING@))
        } else {
            TurnView::Finished(w.gather.caps)
        }
    } else {
        let step = step_at(t, records, raw, w);
        match settled(step) {
            None => TurnView::Ask { walk: w, step },
            Some(outcome) => match onward(t, records, w.gather, outcome) {
                Err(e) => TurnView::Failed(e),
                Ok(gather) => next_turn(t, records, raw, at_block(gather)),
            },
        }
    }
}

impl Walk {
    /// A walk over the blocks of a selection.
    pub fn new(select: &Select) -> (r: Walk)
        ensures
            r@ == at_block(GatherView::started(select.blocks().0, select.blocks().1)),
    {
        let (count, newest) = select.block_range();
        let heard: Vec<Reply> = Vec::new();
        assert(replies(heard@) == Seq::<ReplyView>::empty());
        Walk { gather: Gather::new(count, newest), heard }
    }

    /// Goes on as far as possible without another reply.
    pub fn advance(self, terminal: &Terminal, records: &[Record], raw: bool) -> (r: Turn)
        requires
            self@.gather.fits(),
        ensures
            r@ == next_turn(*terminal, records@, raw, self@),
            r matches Turn::Ask { walk, .. } ==> walk@.gather.fits(),
    {
        let ghost start = self@;
        let mut walk = self;
        loop
            invariant
                start == self@,
                walk@.gather.fits(),
                next_turn(*terminal, records@, raw, walk@) == next_turn(
                    *terminal,
                    records@,
                    raw,
                    start,
                ),
            decreases walk.gather.left,
        {
            let index: usize = match walk.gather.next_index() {
                Some(index) => index,
                None => {
                    return match walk.gather.finish() {
                        Ok(caps) => Turn::Finished(caps),
                        Err(e) => Turn::Failed(e),
                    };
                },
            };
            let ghost here = walk@;
            let rec = nth_from_end(records, index);
            let step = terminal.fetch(index, rec, raw, walk.heard.as_slice());
            assert(step@ == step_at(*terminal, records@, raw, here));
            let outcome = match step {
                Step::Done(f) => Ok(f),
                Step::Failed(e) => Err(e),
                Step::Run { program, args } => {
                    return Turn::Ask { walk, step: Step::Run { program, args } };
                },
                Step::Shim { ansi } => {
                    return Turn::Ask { walk, step: Step::Shim { ansi } };
                },
            };
            let approximate = !terminal.has_command_boundaries();
            match walk.gather.take_in(outcome, records, terminal.name(), approximate) {
                Ok(gather) => {
                    let heard: Vec<Reply> = Vec::new();
                    assert(replies(heard@) == Seq::<ReplyView>::empty());
                    walk = Walk { gather, heard };
                },
                Err(e) => {
                    return Turn::Failed(e);
                },
            }
        }
    }

    /// Takes in the reply to what was asked for.
    pub fn hear(&mut self, r: Reply)
        ensures
            final(self)@.gather == old(self)@.gather,
            final(self)@.heard == old(self)@.heard.push(reply(r)),
    {
        let ghost before = self.heard@;
        self.heard.push(r);
        assert(replies(self.heard@) == replies(before).push(reply(r)));
    }
}

// ---------------------------------------------------------------------------
// Presenting
// ---------------------------------------------------------------------------

/// What is shown to the user.
pub struct Printout {
    /// What goes to standard output.
    pub text: String,
    /// What goes to standard error.
    pub hints: Vec<String>,
    /// Whether the text goes to the clipboard too.
    pub copy: bool,
}

/// Captures with their outputs ready to be rendered.
pub open spec fn all_prepared(
    caps: Seq<CaptureView>,
    mode: Mode,
    select: Select,
    max_bytes: nat,
) -> Seq<CaptureView> {
    caps.map_values(
        |c: CaptureView| c.with_output(prepared(c.output, mode, select, max_bytes)),
    )
}

/// What the settings make of the captures of a terminal. `home` is the user's
/// home directory, `shell` the value of `SHELL`, `records` are the session's
/// records, oldest first.
pub fn present(
    caps: Vec<Capture>,
    terminal: &Terminal,
    records: &[Record],
    select: &Select,
    settings: &Settings,
    home: Option<&str>,
    shell: Option<&str>,
) -> (r: Printout)
    ensures
        ({
            let ready = all_prepared(
                captures(caps@),
                settings.mode,
                *select,
                settings.max_bytes as nat,
            );
            &&& r.text@ == rendered(ready, settings.mode, opt_str(home))
            &&& texts(r.hints@) == if settings.quiet {
                Seq::empty()
            } else {
                warnings(
                    ready,
                    terminal.called(),
                    terminal.bounded(),
                    terminal.reaches_back(),
                    settings.mode,
                    follows_tcap(records@),
                    shell_of(shell),
                )
            }
            &&& r.copy == settings.copy
        }),
{
    let ghost before = captures(caps@);
    let mut caps = caps;
    prepare(caps.as_mut_slice(), settings.mode, select, settings.max_bytes);
    assert(captures(caps@) == all_prepared(
        before,
        settings.mode,
        *select,
        settings.max_bytes as nat,
    ));
    let text = render(caps.as_slice(), settings.mode, home);
    let hints = if settings.quiet {
        let none: Vec<String> = Vec::new();
        assert(texts(none@) == Seq::<Seq<char>>::empty());
        none
    } else {
        emit_hints(
            caps.as_slice(),
            terminal,
            settings.mode,
            after_tcap(records),
            detect_shell(shell),
        )
    };
    Printout { text, hints, copy: settings.copy }
}

// ---------------------------------------------------------------------------
// Laws
// ---------------------------------------------------------------------------

/// What the outside replies: to a step about the block with a given index, after
/// the replies heard about that block. The same question about two blocks may
/// get two answers.
pub type World = spec_fn(usize, Seq<ReplyView>, StepView) -> ReplyView;

/// How many more replies a conversation can take.
pub open spec fn patience(heard: Seq<ReplyView>) -> nat {
    if heard.len() < 2 {
        (2 - heard.len()) as nat
    } else {
        0
    }
}

/// What comes of talking about one block, in a given world.
pub open spec fn conversation(
    t: Terminal,
    index: usize,
    rec: Option<Record>,
    raw: bool,
    world: World,
    heard: Seq<ReplyView>,
) -> ReplyView
    decreases patience(heard),
    via conversation_ends
{
    let step = t.fetch_step(index, rec, raw, heard);
    match settled(step) {
        Some(outcome) => outcome,
        None => conversation(t, index, rec, raw, world, heard.push(world(index, heard, step))),
    }
}

#[via_fn]
proof fn conversation_ends(
    t: Terminal,
    index: usize,
    rec: Option<Record>,
    raw: bool,
    world: World,
    heard: Seq<ReplyView>,
) {
    if heard.len() >= 2 {
        law_a_fetch_ends_after_two_replies(t, index, rec, raw, heard);
    }
}

/// A walk that asks for something does so of the block at hand, or of a later
/// one of which nothing has been heard yet.
proof fn lemma_asking(t: Terminal, records: Seq<Record>, raw: bool, w: WalkView)
    ensures
        next_turn(t, records, raw, w) matches TurnView::Ask { walk, step } ==> {
            &&& walk == w || (walk.gather.left < w.gather.left && walk.heard.len() == 0)
            &&& walk.gather.left > 0
            &&& step == step_at(t, records, raw, walk)
            &&& settled(step) is None
        },
    decreases w.gather.left,
{
    if w.gather.left > 0 {
        match settled(step_at(t, records, raw, w)) {
            None => {},
            Some(outcome) => match onward(t, records, w.gather, outcome) {
                Err(_) => {},
                Ok(gather) => lemma_asking(t, records, raw, at_block(gather)),
            },
        }
    }
}

/// What a walk comes to in a given world.
pub open spec fn carried_out(
    t: Terminal,
    records: Seq<Record>,
    raw: bool,
    world: World,
    w: WalkView,
) -> Result<Seq<CaptureView>, FailureView>
    decreases w.gather.left, patience(w.heard),
    via carried_out_ends
{
    match next_turn(t, records, raw, w) {
        TurnView::Finished(caps) => Ok(caps),
        TurnView::Failed(e) => Err(e),
        TurnView::Ask { walk, step } => carried_out(
            t,
            records,
            raw,
            world,
            WalkView {
                gather: walk.gather,
                heard: walk.heard.push(world(walk.gather.index() as usize, walk.heard, step)),
            },
        ),
    }
}

#[via_fn]
proof fn carried_out_ends(
    t: Terminal,
    records: Seq<Record>,
    raw: bool,
    world: World,
    w: WalkView,
) {
    lemma_asking(t, records, raw, w);
    if w.heard.len() >= 2 {
        let index = w.gather.index() as usize;
        law_a_fetch_ends_after_two_replies(t, index, nth_back(records, index), raw, w.heard);
    }
}

/// A walk settles the block at hand by talking about it, and goes on.
proof fn lemma_one_block(
    t: Terminal,
    records: Seq<Record>,
    raw: bool,
    world: World,
    w: WalkView,
)
    requires
        w.gather.left > 0,
    ensures
        ({
            let index = w.gather.index() as usize;
            let outcome = conversation(t, index, nth_back(records, index), raw, world, w.heard);
            carried_out(t, records, raw, world, w) == match onward(t, records, w.gather, outcome) {
                Err(e) => Err(e),
                Ok(gather) => carried_out(t, records, raw, world, at_block(gather)),
            }
        }),
    decreases patience(w.heard),
{
    let index = w.gather.index() as usize;
    let rec = nth_back(records, index);
    let step = step_at(t, records, raw, w);
    if w.heard.len() >= 2 {
        law_a_fetch_ends_after_two_replies(t, index, rec, raw, w.heard);
    }
    match settled(step) {
        Some(outcome) => {
            assert(conversation(t, index, rec, raw, world, w.heard) == outcome);
            match onward(t, records, w.gather, outcome) {
                Err(_) => {},
                Ok(gather) => {
                    assert(next_turn(t, records, raw, w) == next_turn(
                        t,
                        records,
                        raw,
                        at_block(gather),
                    ));
                },
            }
        },
        None => {
            let heard = w.heard.push(world(index, w.heard, step));
            let next = WalkView { gather: w.gather, heard };
            assert(next_turn(t, records, raw, w) == (TurnView::Ask { walk: w, step }));
            lemma_one_block(t, records, raw, world, next);
        },
    }
}

/// What comes of talking about each block of a walk, oldest block first.
pub open spec fn conversations(
    t: Terminal,
    records: Seq<Record>,
    raw: bool,
    world: World,
    g: GatherView,
) -> Seq<ReplyView> {
    Seq::new(
        g.left as nat,
        |i: int|
            {
                let index = (g.index() - i) as usize;
                conversation(t, index, nth_back(records, index), raw, world, Seq::empty())
            },
    )
}

/// A walk comes to what its blocks come to, one by one.
proof fn lemma_block_by_block(
    t: Terminal,
    records: Seq<Record>,
    raw: bool,
    world: World,
    g: GatherView,
)
    requires
        g.left > 0 || g.caps.len() > 0,
    ensures
        carried_out(t, records, raw, world, at_block(g)) == match walked(
            g,
            conversations(t, records, raw, world, g),
            records,
            t.called(),
            !t.bounded(),
        ) {
            Err(e) => Err(e),
            Ok(end) => if end.caps.len() > 0 {
                Ok(end.caps)
            } else {
                Err(plain_failure(NOTHING@))
            },
        },
    decreases g.left,
{
    let outcomes = conversations(t, records, raw, world, g);
    if g.left > 0 {
        lemma_one_block(t, records, raw, world, at_block(g));
        match onward(t, records, g, outcomes.first()) {
            Err(_) => {},
            Ok(next) => {
                assert(outcomes.drop_first() == conversations(t, records, raw, world, next));
                if next.left > 0 || next.caps.len() > 0 {
                    lemma_block_by_block(t, records, raw, world, next);
                }
            },
        }
    }
}

/// The last N commands come out oldest first, as far as there are so many, and
/// each with the record of its own index. A capture fails exactly when the block
/// that was asked for, the newest, cannot be fetched, and then with its error.
/// This holds in every world.
pub proof fn law_a_capture_is_its_blocks(
    t: Terminal,
    records: Seq<Record>,
    raw: bool,
    world: World,
    select: Select,
)
    requires
        select.blocks().0 + select.blocks().1 <= usize::MAX,
    ensures
        ({
            let (count, newest) = select.blocks();
            let g = GatherView::started(count, newest);
            let outcomes = conversations(t, records, raw, world, g);
            carried_out(t, records, raw, world, at_block(g)) == match conversation(
                t,
                newest,
                nth_back(records, newest),
                raw,
                world,
                Seq::empty(),
            ) {
                Err(e) => Err(e),
                Ok(_) => Ok(successes(outcomes, newest, records, t.called(), !t.bounded())),
            }
        }),
{
    let (count, newest) = select.blocks();
    let g = GatherView::started(count, newest);
    let outcomes = conversations(t, records, raw, world, g);
    assert(outcomes.last() == conversation(
        t,
        newest,
        nth_back(records, newest),
        raw,
        world,
        Seq::empty(),
    ));
    lemma_block_by_block(t, records, raw, world, g);
    law_only_the_newest_block_can_fail(g, outcomes, records, t.called(), !t.bounded());
    assert(g.caps + successes(outcomes, newest, records, t.called(), !t.bounded()) == successes(
        outcomes,
        newest,
        records,
        t.called(),
        !t.bounded(),
    ));
}

/// What a step comes to: what is done is the block, what failed is the reason,
/// and a question is nothing yet.
pub proof fn law_what_settles_a_block(
    f: crate::backend::FetchedView,
    e: FailureView,
    program: Seq<char>,
    args: Seq<Seq<char>>,
    ansi: bool,
)
    ensures
        settled(StepView::Done(f)) == Some(Ok::<crate::backend::FetchedView, FailureView>(f)),
        settled(StepView::Failed(e)) == Some(Err::<crate::backend::FetchedView, FailureView>(e)),
        settled(StepView::Run { program, args }) is None,
        settled(StepView::Shim { ansi }) is None,
{
}

/// One turn of a walk. A walk with nothing left ends with all its captures, or
/// fails where there are none. Else the terminal is asked for the block at hand,
/// with the record of that block's index and all replies heard about it; a
/// question is passed on as it is, and a block that is settled is taken in.
pub proof fn law_one_turn_of_a_walk(t: Terminal, records: Seq<Record>, raw: bool, w: WalkView)
    ensures
        w.gather.left == 0 && w.gather.caps.len() > 0 ==> next_turn(t, records, raw, w)
            == TurnView::Finished(w.gather.caps),
        w.gather.left == 0 && w.gather.caps.len() == 0 ==> next_turn(t, records, raw, w)
            == TurnView::Failed(plain_failure(NOTHING@)),
        w.gather.left > 0 ==> ({
            let index = (w.gather.newest + w.gather.left - 1) as usize;
            let step = t.fetch_step(index, nth_back(records, index), raw, w.heard);
            let done = |outcome: ReplyView|
                match walked_on(w.gather, outcome, records, t.called(), !t.bounded()) {
                    Err(e) => TurnView::Failed(e),
                    Ok(g) => next_turn(
                        t,
                        records,
                        raw,
                        (WalkView { gather: g, heard: Seq::empty() }),
                    ),
                };
            next_turn(t, records, raw, w) == match step {
                StepView::Done(f) => done(Ok(f)),
                StepView::Failed(e) => done(Err(e)),
                _ => TurnView::Ask { walk: w, step },
            }
        }),
{
}

/// A walk and a turn are seen with all that they hold.
pub proof fn law_walks_are_seen_whole(
    w: Walk,
    step: Step,
    caps: Vec<Capture>,
    e: Failure,
)
    ensures
        w@.gather == w.gather@,
        w@.heard.len() == w.heard@.len(),
        forall|i: int| 0 <= i < w.heard@.len() ==> #[trigger] w@.heard[i] == reply(w.heard@[i]),
        (Turn::Ask { walk: w, step })@ == (TurnView::Ask { walk: w@, step: step@ }),
        Turn::Finished(caps)@ == TurnView::Finished(Seq::new(caps@.len(), |i: int| caps@[i]@)),
        Turn::Failed(e)@ == TurnView::Failed(e@),
{
    assert(captures(caps@) == Seq::new(caps@.len(), |i: int| caps@[i]@));
}

/// Every capture is made ready, each by itself, and nothing but its output
/// changes.
pub proof fn law_every_output_is_made_ready(
    caps: Seq<CaptureView>,
    mode: Mode,
    select: Select,
    max_bytes: nat,
)
    ensures
        ({
            let ready = all_prepared(caps, mode, select, max_bytes);
            &&& ready.len() == caps.len()
            &&& forall|i: int|
                0 <= i < caps.len() ==> #[trigger] ready[i] == (CaptureView {
                    output: prepared(caps[i].output, mode, select, max_bytes),
                    ..caps[i]
                })
        }),
{
}

/// From beginning to end: where tmux answers the question on its history with a
/// number and the second one with a dump, the capture of one recorded command is
/// that whole dump, with what the record says of the command, and nothing else.
pub proof fn law_a_tmux_capture_is_what_tmux_dumps(
    b: crate::backend::tmux::Tmux,
    records: Seq<Record>,
    raw: bool,
    world: World,
    select: Select,
    answer: crate::backend::FetchedView,
    dump: crate::backend::FetchedView,
)
    requires
        select.blocks().0 == 1,
        select.blocks().1 < usize::MAX,
        ({
            let t = Terminal::Tmux(b);
            let n = select.blocks().1;
            let rec = nth_back(records, n);
            let none = Seq::<ReplyView>::empty();
            &&& rec is Some && rec->0.start_line is Some && rec->0.end_line is Some
            &&& rec->0.end_line->0 >= rec->0.start_line->0
            &&& crate::text::parsed_i64(crate::text::trim(answer.output)) is Some
            &&& world(n, none, t.fetch_step(n, rec, raw, none)) == Ok::<
                crate::backend::FetchedView,
                FailureView,
            >(answer)
            &&& world(n, seq![Ok(answer)], t.fetch_step(n, rec, raw, seq![Ok(answer)])) == Ok::<
                crate::backend::FetchedView,
                FailureView,
            >(dump)
        }),
    ensures
        ({
            let n = select.blocks().1;
            let rec = nth_back(records, n)->0;
            carried_out(
                Terminal::Tmux(b),
                records,
                raw,
                world,
                (WalkView {
                    gather: GatherView { newest: n, left: 1, caps: Seq::empty() },
                    heard: Seq::empty(),
                }),
            ) == Ok::<Seq<CaptureView>, FailureView>(
                seq![
                    CaptureView {
                        command: Some(rec.command@),
                        exit_code: rec.exit_code,
                        cwd: if rec.cwd is Some {
                            Some(rec.cwd->0@)
                        } else {
                            None
                        },
                        duration_ms: rec.duration_ms,
                        output: dump.output,
                        source: "tmux"@,
                        approximate: false,
                    },
                ],
            )
        }),
{
    let t = Terminal::Tmux(b);
    let n = select.blocks().1;
    let rec = nth_back(records, n);
    let none = Seq::<ReplyView>::empty();
    let one = seq![Ok::<crate::backend::FetchedView, FailureView>(answer)];
    let two = seq![
        Ok::<crate::backend::FetchedView, FailureView>(answer),
        Ok::<crate::backend::FetchedView, FailureView>(dump),
    ];
    assert(none.push(Ok::<crate::backend::FetchedView, FailureView>(answer)) == one);
    assert(one.push(Ok::<crate::backend::FetchedView, FailureView>(dump)) == two);
    crate::backend::tmux::law_the_dump_is_handed_on_whole(b, n, rec->0, raw, answer, dump);
    let f = crate::backend::only_output(dump.output);
    assert(t.fetch_step(n, rec, raw, two) == StepView::Done(f));
    assert(conversation(t, n, rec, raw, world, two) == Ok::<
        crate::backend::FetchedView,
        FailureView,
    >(f));
    assert(settled(t.fetch_step(n, rec, raw, one)) is None);
    assert(conversation(t, n, rec, raw, world, one) == Ok::<
        crate::backend::FetchedView,
        FailureView,
    >(f));
    assert(settled(t.fetch_step(n, rec, raw, none)) is None);
    assert(conversation(t, n, rec, raw, world, none) == Ok::<
        crate::backend::FetchedView,
        FailureView,
    >(f));
    law_a_capture_is_its_blocks(t, records, raw, world, select);
    let g = GatherView::started(1, n);
    let outcomes = conversations(t, records, raw, world, g);
    assert(outcomes == seq![Ok::<crate::backend::FetchedView, FailureView>(f)]);
    reveal_with_fuel(successes, 2);
    assert(outcomes.drop_first().len() == 0);
    let block = crate::gather::assembled(f, rec, "tmux"@, false);
    assert(successes(outcomes, n, records, t.called(), !t.bounded()) == seq![block]);
    assert(at_block(g) == (WalkView {
        gather: GatherView { newest: n, left: 1, caps: Seq::empty() },
        heard: Seq::empty(),
    }));
}

} // verus!
