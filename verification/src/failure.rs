//! Why something could not be done.

use vstd::prelude::*;

use crate::text::{copy_of, join, join_strings, texts};

verus! {

/// A message for the user, with what caused the trouble, outermost first.
#[derive(Clone, Debug)]
pub struct Failure {
    pub message: String,
    pub causes: Vec<String>,
}

/// The texts of a [`Failure`].
#[verifier::ext_equal]
pub struct FailureView {
    pub message: Seq<char>,
    pub causes: Seq<Seq<char>>,
}

impl View for Failure {
    type V = FailureView;

    open spec fn view(&self) -> FailureView {
        FailureView { message: self.message@, causes: texts(self.causes@) }
    }
}

/// A failure that nothing else caused.
pub open spec fn plain_failure(message: Seq<char>) -> FailureView {
    FailureView { message, causes: Seq::empty() }
}

/// A failure with one cause.
pub open spec fn caused_failure(message: Seq<char>, cause: Seq<char>) -> FailureView {
    FailureView { message, causes: seq![cause] }
}

impl Failure {
    /// A failure that nothing else caused.
    pub fn new(message: String) -> (r: Failure)
        ensures
            r@ == plain_failure(message@),
    {
        let r = Failure { message, causes: Vec::new() };
        assert(texts(r.causes@) == Seq::<Seq<char>>::empty());
        r
    }

    /// A failure with the fixed message `message`.
    pub fn because(message: &str) -> (r: Failure)
        ensures
            r@ == plain_failure(message@),
    {
        Failure::new(copy_of(message))
    }

    /// A failure that `cause` led to.
    pub fn caused_by(message: String, cause: String) -> (r: Failure)
        ensures
            r@ == caused_failure(message@, cause@),
    {
        let mut causes: Vec<String> = Vec::new();
        causes.push(cause);
        let r = Failure { message, causes };
        assert(texts(r.causes@) == seq![cause@]);
        r
    }

    /// A copy of this failure.
    pub fn copy(&self) -> (r: Failure)
        ensures
            r@ == self@,
    {
        let mut causes: Vec<String> = Vec::new();
        let mut i: usize = 0;
        while i < self.causes.len()
            invariant
                i <= self.causes@.len(),
                texts(causes@) == texts(self.causes@).take(i as int),
            decreases self.causes@.len() - i,
        {
            let c = copy_of(self.causes[i].as_str());
            let ghost before = causes@;
            causes.push(c);
            assert(texts(causes@) == texts(before).push(c@));
            i = i + 1;
            assert(texts(self.causes@).take(i as int) == texts(self.causes@).take(i - 1).push(c@));
        }
        assert(texts(self.causes@).take(i as int) == texts(self.causes@));
        Failure { message: copy_of(self.message.as_str()), causes }
    }

    /// The message and all causes, on one line.
    pub fn chain(&self) -> (r: String)
        ensures
            r@ == chain_text(self@),
    {
        let mut all: Vec<String> = Vec::new();
        all.push(copy_of(self.message.as_str()));
        let copied = self.copy();
        let mut rest = copied.causes;
        let ghost first = all@;
        let ghost causes = rest@;
        all.append(&mut rest);
        assert(texts(all@) == seq![self.message@] + texts(causes));
        join_strings(all.as_slice(), ": ")
    }
}

/// The message and all causes, on one line.
pub open spec fn chain_text(f: FailureView) -> Seq<char> {
    join(seq![f.message] + f.causes, ": "@)
}

// ---------------------------------------------------------------------------
// Laws
// ---------------------------------------------------------------------------

/// A failure is seen with its message and every cause, in order.
pub proof fn law_failures_are_seen_whole(f: Failure, message: Seq<char>, cause: Seq<char>)
    ensures
        f@.message == f.message@,
        f@.causes.len() == f.causes@.len(),
        forall|i: int| 0 <= i < f.causes@.len() ==> #[trigger] f@.causes[i] == f.causes@[i]@,
        plain_failure(message).message == message,
        plain_failure(message).causes.len() == 0,
        caused_failure(message, cause).message == message,
        caused_failure(message, cause).causes == seq![cause],
{
}

/// A failure that nothing else caused reads as its message, and each further
/// cause adds a colon and its own text, however many there are.
pub proof fn law_each_cause_adds_its_text(f: FailureView, cause: Seq<char>)
    ensures
        f.causes.len() == 0 ==> chain_text(f) == f.message,
        chain_text((FailureView { message: f.message, causes: f.causes.push(cause) })) == chain_text(
            f,
        ) + ": "@ + cause,
{
    let all = seq![f.message] + f.causes;
    let more = seq![f.message] + f.causes.push(cause);
    assert(more.drop_last() == all);
    assert(more.last() == cause);
    if f.causes.len() == 0 {
        assert(all == seq![f.message]);
    }
}

} // verus!
