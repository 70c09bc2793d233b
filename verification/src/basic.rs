use crate::events::{EventData, EventDispatcher, EventSink};
use vstd::prelude::*;

verus! {

/// A sink that counts the events it has processed and does nothing else with
/// them.
pub struct BasicSink {
    /// The number of events processed so far.
    pub event_count: usize,
}

impl EventSink for BasicSink {
    /// The count can still be raised.
    open spec fn ready(&self) -> bool {
        self.event_count < usize::MAX
    }

    /// The count has gone up by one.
    open spec fn steps_to(&self, next: Self) -> bool {
        next.event_count == self.event_count + 1
    }

    fn process_event<T>(&mut self, _event: T)
        ensures
            final(self).event_count == old(self).event_count + 1,
    {
        self.event_count += 1;
    }
}

/// A payload that carries nothing.
#[derive(Copy, Clone)]
pub struct EmptyEventData {}

impl EventData for EmptyEventData {

}

/// A dispatcher that owns a [`BasicSink`] and sends it empty events.
pub struct BasicEventDispatcher {
    /// The sink that every event goes to.
    pub sink: BasicSink,
}

impl EventDispatcher for BasicEventDispatcher {
    type SinkT = BasicSink;

    type DataT = EmptyEventData;

    open spec fn sink(&self) -> BasicSink {
        self.sink
    }

    open spec fn with_sink(&self, sink: BasicSink) -> Self {
        BasicEventDispatcher { sink }
    }

    /// Producing a payload leaves the dispatcher as it was.
    open spec fn produces(&self, payload: EmptyEventData, next: Self) -> bool {
        next == *self
    }

    fn target(&mut self) -> (sink: &mut Self::SinkT)
        ensures
            *sink == old(self).sink,
            final(self).sink == *final(sink),
    {
        &mut self.sink
    }

    fn data(&mut self) -> (payload: Self::DataT)
        ensures
            payload == (EmptyEventData {}),
            *final(self) == *old(self),
    {
        EmptyEventData {}
    }
}

/// A [`BasicEventDispatcher`] can dispatch exactly where the count of its sink
/// is below the largest that it can hold.
pub proof fn lemma_basic_can_dispatch(d: BasicEventDispatcher)
    ensures
        crate::events::can_dispatch(d) <==> d.sink.event_count < usize::MAX,
{
    if crate::events::can_dispatch(d) {
        assert(d.produces(EmptyEventData {}, d));
    }
}

/// One dispatch of a [`BasicEventDispatcher`] raises the count of its sink by
/// one, and that is all it does.
pub proof fn lemma_basic_dispatched(pre: BasicEventDispatcher, post: BasicEventDispatcher)
    ensures
        crate::events::dispatched(pre, post) <==> post.sink.event_count == pre.sink.event_count
            + 1,
{
    if post.sink.event_count == pre.sink.event_count + 1 {
        assert(pre.produces(EmptyEventData {}, pre));
    }
}

/// `n` dispatches of a [`BasicEventDispatcher`] raise the count of its sink by
/// exactly `n`.
pub proof fn lemma_basic_dispatches_count(
    pre: BasicEventDispatcher,
    n: nat,
    post: BasicEventDispatcher,
)
    requires
        crate::events::dispatched_times(pre, n, post),
    ensures
        post.sink.event_count == pre.sink.event_count + n,
{
    let count = |sink: BasicSink| sink.event_count as nat;
    crate::events::lemma_dispatches_raise_count::<BasicEventDispatcher>(count, pre, n, post);
}

} // verus!
