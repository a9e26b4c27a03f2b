//! Guards: checks that run against a request before its delegate does, and
//! that may stop it.

use crate::message::{RequestView, ResponseView, SyncRequest, SyncResponse};
use vstd::prelude::*;

verus! {

/// What a guard tells the dispatcher.
#[derive(Clone, Copy, Debug, PartialEq, Eq, Structural)]
pub enum RequestContinuation {
    /// Go on to the next guard, or to the delegate after the last guard.
    Next,
    /// Stop here: no further guard runs, nor the delegate.
    Stop,
}

/// What one guard, or a chain of guards, does with a request: the signal it
/// returns and the response it leaves behind.
pub struct Verdict {
    pub signal: RequestContinuation,
    pub response: ResponseView,
}

/// A check on a request that runs before the delegate.
///
/// A guard may read the request and write to the response; it touches
/// nothing else. `verdict` is its model: the signal and the response as a
/// function of the guard, the request and the response it was handed. An
/// implementation that does not say what its model is leaves it unknown.
pub trait RequestGuard: Send + Sync {
    open spec fn verdict(&self, req: RequestView, res: ResponseView) -> Verdict {
        arbitrary()
    }

    fn validate(&self, req: &SyncRequest, res: &mut SyncResponse) -> (signal: RequestContinuation)
        ensures
            (Verdict { signal, response: final(res)@ }) == self.verdict(req@, old(res)@),
    ;
}

/// A guard of any type, owned on the heap.
pub struct BoxedGuard {
    pub guard: Box<dyn RequestGuard>,
}

/// `guard`, boxed.
pub open spec fn boxed<G: 'static + RequestGuard>(guard: G) -> BoxedGuard {
    BoxedGuard { guard: Box::new(guard) }
}

/// The verdict of the chain `guards[from..]` on `req`, starting from `res`:
/// each guard sees the response its predecessor left, and the first `Stop`
/// ends the chain. A chain that runs out of guards says `Next`.
pub open spec fn chain_verdict(
    guards: Seq<BoxedGuard>,
    from: int,
    req: RequestView,
    res: ResponseView,
) -> Verdict
    decreases guards.len() - from,
{
    if 0 <= from < guards.len() {
        let first = guards[from].guard.verdict(req, res);
        if first.signal == RequestContinuation::Stop {
            first
        } else {
            chain_verdict(guards, from + 1, req, first.response)
        }
    } else {
        Verdict { signal: RequestContinuation::Next, response: res }
    }
}

/// A chain whose first `passed` guards let the request pass goes on with the
/// guard at `passed`, on the response those guards left: the guards behind a
/// prefix count only if the prefix says `Next`.
pub proof fn lemma_chain_goes_on_after_prefix(
    guards: Seq<BoxedGuard>,
    from: int,
    passed: int,
    req: RequestView,
    res: ResponseView,
)
    requires
        0 <= from <= passed <= guards.len(),
        chain_verdict(guards.take(passed), from, req, res).signal == RequestContinuation::Next,
    ensures
        chain_verdict(guards, from, req, res) == chain_verdict(
            guards,
            passed,
            req,
            chain_verdict(guards.take(passed), from, req, res).response,
        ),
    decreases passed - from,
{
    if from < passed {
        let first = guards[from].guard.verdict(req, res);
        assert(guards.take(passed)[from] == guards[from]);
        lemma_chain_goes_on_after_prefix(guards, from + 1, passed, req, first.response);
    }
}

/// The first guard that says `Stop` ends the chain: the chain's verdict is
/// that guard's verdict on what the guards before it left, whatever guards
/// stand behind it.
pub proof fn lemma_first_stop_ends_chain(
    guards: Seq<BoxedGuard>,
    stopping: int,
    req: RequestView,
    res: ResponseView,
)
    requires
        0 <= stopping < guards.len(),
        chain_verdict(guards.take(stopping), 0, req, res).signal == RequestContinuation::Next,
        guards[stopping].guard.verdict(
            req,
            chain_verdict(guards.take(stopping), 0, req, res).response,
        ).signal == RequestContinuation::Stop,
    ensures
        chain_verdict(guards, 0, req, res) == guards[stopping].guard.verdict(
            req,
            chain_verdict(guards.take(stopping), 0, req, res).response,
        ),
{
    lemma_chain_goes_on_after_prefix(guards, 0, stopping, req, res);
}

/// An ordered list of guards for one route.
pub struct RequestGuardCollection {
    guards: Vec<BoxedGuard>,
}

impl View for RequestGuardCollection {
    type V = Seq<BoxedGuard>;

    closed spec fn view(&self) -> Seq<BoxedGuard> {
        self.guards@
    }
}

impl RequestGuardCollection {
    /// A collection with no guards.
    pub fn new() -> (collection: Self)
        ensures
            collection@ == Seq::<BoxedGuard>::empty(),
    {
        RequestGuardCollection { guards: Vec::new() }
    }

    /// Appends `guard` behind the guards already there.
    pub fn add<G: 'static + RequestGuard>(&mut self, guard: G)
        ensures
            final(self)@ == old(self)@.push(boxed(guard)),
    {
        self.guards.push(BoxedGuard { guard: Box::new(guard) });
    }

    /// The number of guards.
    pub fn len(&self) -> (len: usize)
        ensures
            len == self@.len(),
    {
        self.guards.len()
    }

    /// The guard at `index`, in registration order.
    pub fn get(&self, index: usize) -> (guard: Option<&BoxedGuard>)
        ensures
            index < self@.len() ==> guard == Some(&self@[index as int]),
            index >= self@.len() ==> guard is None,
    {
        if index < self.guards.len() {
            Some(&self.guards[index])
        } else {
            None
        }
    }

    /// Runs the guards in registration order against `req`, each on the
    /// response its predecessor left, up to and including the first that
    /// says `Stop`.
    pub fn validate(&self, req: &SyncRequest, res: &mut SyncResponse) -> (signal:
        RequestContinuation)
        ensures
            (Verdict { signal, response: final(res)@ }) == chain_verdict(
                self@,
                0,
                req@,
                old(res)@,
            ),
    {
        let mut index: usize = 0;
        while index < self.guards.len()
            invariant
                index <= self.guards.len(),
                chain_verdict(self@, 0, req@, old(res)@) == chain_verdict(
                    self@,
                    index as int,
                    req@,
                    res@,
                ),
            decreases self.guards.len() - index,
        {
            let signal = self.guards[index].guard.validate(req, res);
            if signal == RequestContinuation::Stop {
                return signal;
            }
            index = index + 1;
        }
        RequestContinuation::Next
    }
}

/// Each of `guards`, boxed, in the same order.
pub open spec fn all_boxed<G: 'static + RequestGuard>(guards: Seq<G>) -> Seq<BoxedGuard> {
    Seq::new(guards.len(), |i: int| boxed(guards[i]))
}

/// Whether `entry` is a boxed clone of `guard`.
pub open spec fn is_boxed_clone<G: 'static + RequestGuard + Clone>(
    entry: BoxedGuard,
    guard: G,
) -> bool {
    exists|copy: G| cloned(guard, copy) && entry == boxed(copy)
}

/// Whether `collection` holds, in order, one boxed clone of each of `guards`.
pub open spec fn holds_clones<G: 'static + RequestGuard + Clone>(
    collection: Seq<BoxedGuard>,
    guards: Seq<G>,
) -> bool {
    &&& collection.len() == guards.len()
    &&& forall|i: int|
        0 <= i < guards.len() ==> is_boxed_clone(#[trigger] collection[i], guards[i])
}

impl<G: 'static + RequestGuard> From<G> for RequestGuardCollection {
    /// The collection that holds `guard` alone.
    fn from(guard: G) -> (collection: Self)
        ensures
            collection@ == seq![boxed(guard)],
    {
        let mut collection = RequestGuardCollection::new();
        collection.add(guard);
        collection
    }
}

impl<G: 'static + RequestGuard> vstd::std_specs::convert::FromSpecImpl<G> for RequestGuardCollection {
    open spec fn obeys_from_spec() -> bool {
        false
    }

    open spec fn from_spec(guard: G) -> Self {
        arbitrary()
    }
}

impl<'a, G: 'static + RequestGuard + Clone> From<&'a [G]> for RequestGuardCollection {
    /// The collection that holds a clone of each of `guards`, in order.
    fn from(guards: &'a [G]) -> (collection: Self)
        ensures
            holds_clones(collection@, guards@),
    {
        let mut collection = RequestGuardCollection::new();
        let mut index: usize = 0;
        while index < guards.len()
            invariant
                index <= guards@.len(),
                holds_clones(collection@, guards@.take(index as int)),
            decreases guards@.len() - index,
        {
            let ghost before = collection@;
            let copy = guards[index].clone();
            let ghost kept = copy;
            collection.add(copy);
            proof {
                let done = guards@.take(index as int);
                let grown = guards@.take(index + 1);
                assert forall|i: int| 0 <= i < grown.len() implies is_boxed_clone(
                    #[trigger] collection@[i],
                    grown[i],
                ) by {
                    if i < index {
                        assert(is_boxed_clone(before[i], done[i]));
                    } else {
                        assert(cloned(grown[i], kept) && collection@[i] == boxed(kept));
                    }
                }
            }
            index = index + 1;
        }
        assert(guards@.take(index as int) == guards@);
        collection
    }
}

impl<'a, G: 'static + RequestGuard + Clone> vstd::std_specs::convert::FromSpecImpl<&'a [G]> for RequestGuardCollection {
    open spec fn obeys_from_spec() -> bool {
        false
    }

    open spec fn from_spec(guards: &'a [G]) -> Self {
        arbitrary()
    }
}

impl<G: 'static + RequestGuard> From<Vec<G>> for RequestGuardCollection {
    /// The collection that holds each of `guards`, in order.
    fn from(guards: Vec<G>) -> (collection: Self)
        ensures
            collection@ == all_boxed(guards@),
    {
        let mut collection = RequestGuardCollection::new();
        for guard in iter: guards
            invariant
                collection@ == all_boxed(iter.seq().take(iter.index())),
        {
            collection.add(guard);
        }
        collection
    }
}

impl<G: 'static + RequestGuard> vstd::std_specs::convert::FromSpecImpl<Vec<G>> for RequestGuardCollection {
    open spec fn obeys_from_spec() -> bool {
        false
    }

    open spec fn from_spec(guards: Vec<G>) -> Self {
        arbitrary()
    }
}

/// A guard that lets a request pass only if it has a body.
#[derive(Clone, Copy, Debug)]
pub struct BodyGuard;

impl RequestGuard for BodyGuard {
    open spec fn verdict(&self, req: RequestView, res: ResponseView) -> Verdict {
        Verdict {
            signal: if req.body.len() == 0 {
                RequestContinuation::Stop
            } else {
                RequestContinuation::Next
            },
            response: res,
        }
    }

    fn validate(&self, req: &SyncRequest, res: &mut SyncResponse) -> (signal: RequestContinuation) {
        if req.body().len() == 0 {
            return RequestContinuation::Stop;
        }
        RequestContinuation::Next
    }
}

} // verus!
