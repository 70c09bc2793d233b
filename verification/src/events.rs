use vstd::prelude::*;

verus! {

/// A receiver of events.
///
/// A sink processes the events handed to it one at a time, each by a change of
/// its own state. The trait leaves that state to the implementer, who describes
/// it to callers in two predicates: `ready`, the states in which one more event
/// can be taken in, and `steps_to`, the change that one event makes.
pub trait EventSink: Sized {
    /// Whether the sink can take in one more event. A sink whose state has
    /// limits (a counter that must not overflow) states them here; a sink
    /// without any is always ready.
    spec fn ready(&self) -> bool;

    /// Whether `next` is a state that the sink may be in once it has processed
    /// one event in the state `self`.
    ///
    /// The event is no argument. `process_event` takes a payload of any type
    /// whatever, so what the sink keeps cannot depend on the payload's value;
    /// it can depend on the payload's type, and of that the relation says
    /// nothing.
    spec fn steps_to(&self, next: Self) -> bool;

    /// Processes one event. The call cannot fail and returns nothing; what it
    /// did is seen in the sink's state alone.
    fn process_event<T>(&mut self, event: T)
        requires
            old(self).ready(),
        ensures
            old(self).steps_to(*final(self)),
    ;
}

/// Marks a type as one that may be carried as the payload of an event.
pub trait EventData {

}

/// A component bound to one sink that produces one payload at a time and
/// hands it to that sink.
///
/// The sink type and the payload type are fixed by the implementing type. The
/// implementer supplies the two accessors `target` and `data` and describes
/// them in `sink`, `with_sink` and `produces`; `dispatch` is derived from them.
pub trait EventDispatcher: Sized {
    /// Type of the sink that events are sent to.
    type SinkT: EventSink;

    /// Type of the payload that is sent.
    type DataT: EventData;

    /// The sink that the dispatcher is bound to, as it stands.
    spec fn sink(&self) -> Self::SinkT;

    /// The dispatcher as it is left when `target` has lent out its sink and
    /// the borrower has left `sink` in it.
    spec fn with_sink(&self, sink: Self::SinkT) -> Self;

    /// Whether a call of `data` in the state `self` may return `payload` and
    /// leave the dispatcher in the state `next`.
    spec fn produces(&self, payload: Self::DataT, next: Self) -> bool;

    /// Sends one event to the sink: takes a payload from `data`, then hands it
    /// to the sink that `target` lends.
    ///
    /// The call is owed wherever the sink is ready for an event after `data`
    /// has run, whatever `data` returns. It leaves the dispatcher in a state
    /// that is reached by one call of `data` and then one event processed by
    /// the bound sink, with nothing else changed. [`can_dispatch`] and
    /// [`dispatched`] give the two clauses a name.
    ///
    /// The contract does not state which value the sink is handed: that it is
    /// the payload that `data` returned is what the body does, and no clause
    /// says so.
    fn dispatch(&mut self)
        requires
            forall|payload: Self::DataT, mid: Self|
                #![trigger old(self).produces(payload, mid)]
                old(self).produces(payload, mid) ==> mid.sink().ready(),
        ensures
            exists|payload: Self::DataT, mid: Self|
                #![trigger old(self).produces(payload, mid)]
                old(self).produces(payload, mid)
                && mid.sink().steps_to(final(self).sink())
                && *final(self) == mid.with_sink(final(self).sink()),
    {
        let data = self.data();
        self.target().process_event(data)
    }

    /// Lends out the sink that the dispatcher is bound to.
    ///
    /// The reference reads as the dispatcher's sink, and what the borrower
    /// leaves behind it is the dispatcher's sink from then on: every call
    /// reaches the same sink.
    fn target(&mut self) -> (sink: &mut Self::SinkT)
        ensures
            *sink == old(self).sink(),
            final(self).sink() == *final(sink),
            *final(self) == old(self).with_sink(*final(sink)),
    ;

    /// Produces the payload of the next event.
    fn data(&mut self) -> (payload: Self::DataT)
        ensures
            old(self).produces(payload, *final(self)),
    ;
}

/// Whether `dispatch` may be called on a dispatcher in the state `d`: the
/// precondition of [`EventDispatcher::dispatch`], which is written out there
/// because a contract inside the trait cannot name a function bounded by it.
pub open spec fn can_dispatch<D: EventDispatcher>(d: D) -> bool {
    forall|payload: D::DataT, mid: D|
        #![trigger d.produces(payload, mid)]
        d.produces(payload, mid) ==> mid.sink().ready()
}

/// Whether one call of `dispatch` in the state `pre` may leave the dispatcher
/// in the state `post`: the postcondition of [`EventDispatcher::dispatch`],
/// written out there for the same reason.
pub open spec fn dispatched<D: EventDispatcher>(pre: D, post: D) -> bool {
    exists|payload: D::DataT, mid: D|
        #![trigger pre.produces(payload, mid)]
        pre.produces(payload, mid)
        && mid.sink().steps_to(post.sink())
        && post == mid.with_sink(post.sink())
}

/// Calls `dispatch` once. This is the default method under the two names
/// above: it shows that [`can_dispatch`] is enough to call it and that
/// [`dispatched`] holds of every call.
pub fn dispatch_once<D: EventDispatcher>(d: &mut D)
    requires
        can_dispatch(*old(d)),
    ensures
        dispatched(*old(d), *final(d)),
{
    d.dispatch()
}

/// Whether `n` calls of `dispatch` in a row, the first in the state `pre`, may
/// leave the dispatcher in the state `post`.
pub open spec fn dispatched_times<D: EventDispatcher>(pre: D, n: nat, post: D) -> bool
    decreases n,
{
    if n == 0 {
        post == pre
    } else {
        exists|mid: D|
            #![trigger dispatched(mid, post)]
            dispatched_times(pre, (n - 1) as nat, mid) && dispatched(mid, post)
    }
}

/// Whether a call of `target` in the state `pre` lends out the sink `lent` and
/// leaves the dispatcher in the state `post` once the borrower has left
/// `returned` behind the reference: the postcondition of
/// [`EventDispatcher::target`].
pub open spec fn lends<D: EventDispatcher>(
    pre: D,
    lent: D::SinkT,
    returned: D::SinkT,
    post: D,
) -> bool {
    &&& lent == pre.sink()
    &&& post.sink() == returned
    &&& post == pre.with_sink(returned)
}

/// Whether `count` is, for sinks of type `S`, a count of the events that a
/// sink has processed: each event processed raises it by exactly one.
pub open spec fn counts_events<S: EventSink>(count: spec_fn(S) -> nat) -> bool {
    forall|pre: S, post: S| #[trigger] pre.steps_to(post) ==> count(post) == count(pre) + 1
}

/// Whether `data`, in dispatchers of type `D`, leaves `count` of the bound
/// sink as it found it.
pub open spec fn data_keeps<D: EventDispatcher>(count: spec_fn(D::SinkT) -> nat) -> bool {
    forall|pre: D, payload: D::DataT, post: D| #[trigger]
        pre.produces(payload, post) ==> count(post.sink()) == count(pre.sink())
}

/// One dispatch is one call of `data`, then one loan of the sink by `target`
/// in which the sink processes one event.
pub proof fn lemma_dispatch_composes<D: EventDispatcher>(pre: D, post: D)
    ensures
        dispatched(pre, post) <==> exists|payload: D::DataT, mid: D|
            #![trigger pre.produces(payload, mid)]
            pre.produces(payload, mid)
            && lends(mid, mid.sink(), post.sink(), post)
            && mid.sink().steps_to(post.sink()),
{
}

/// Repeated calls of `target` reach the same sink: what the borrower of one
/// call leaves in the sink is what the next call lends out.
pub proof fn lemma_target_is_stable<D: EventDispatcher>(
    first: D,
    lent: D::SinkT,
    returned: D::SinkT,
    second: D,
    lent_again: D::SinkT,
    returned_again: D::SinkT,
    third: D,
)
    requires
        lends(first, lent, returned, second),
        lends(second, lent_again, returned_again, third),
    ensures
        lent_again == returned,
{
}

/// Where the sink keeps a count of the events it has processed, and `data`
/// leaves that count alone, `n` dispatches raise the count by exactly `n`.
pub proof fn lemma_dispatches_raise_count<D: EventDispatcher>(
    count: spec_fn(D::SinkT) -> nat,
    pre: D,
    n: nat,
    post: D,
)
    requires
        counts_events::<D::SinkT>(count),
        data_keeps::<D>(count),
        dispatched_times(pre, n, post),
    ensures
        count(post.sink()) == count(pre.sink()) + n,
    decreases n,
{
    if n > 0 {
        let mid = choose|mid: D|
            #![trigger dispatched(mid, post)]
            dispatched_times(pre, (n - 1) as nat, mid) && dispatched(mid, post);
        lemma_dispatches_raise_count(count, pre, (n - 1) as nat, mid);
    }
}

} // verus!
