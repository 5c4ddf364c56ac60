use vstd::prelude::*;

use crate::events::EventLog;
use crate::value::{StreamError, Value};

verus! {

/// One change to a single-value stream.
#[derive(Debug, PartialEq, Eq)]
pub enum ValueChange {
    Assign(Value),
    Clear,
}

/// The value after applying `c` to `s`.
pub open spec fn apply_value_change(s: Option<Value>, c: ValueChange) -> Option<Value> {
    match c {
        ValueChange::Assign(v) => Some(v),
        ValueChange::Clear => None,
    }
}

/// The value reached by applying `changes` in order, starting from `start`.
pub open spec fn replay_value(start: Option<Value>, changes: Seq<ValueChange>) -> Option<Value> {
    changes.fold_left(start, |s: Option<Value>, c: ValueChange| apply_value_change(s, c))
}

/// Number of change events a value stream retains for its subscribers.
pub const VALUE_HISTORY: usize = 64;

/// At most one value, present or absent, whose every change is published.
pub struct ValueStream {
    current: Option<Value>,
    log: EventLog<ValueChange>,
}

impl View for ValueStream {
    type V = Option<Value>;

    closed spec fn view(&self) -> Option<Value> {
        self.current
    }
}

impl ValueStream {
    /// The change events of this stream.
    pub closed spec fn events(&self) -> EventLog<ValueChange> {
        self.log
    }

    /// The value always equals the replay of every change from absent.
    pub closed spec fn wf(&self) -> bool {
        &&& self.log.wf()
        &&& self.current == replay_value(None, self.log.history())
    }

    /// Whether one more change can be numbered.
    pub open spec fn has_room(&self) -> bool {
        self.events().next_seq() < u64::MAX
    }

    pub fn new() -> (r: Self)
        ensures
            r.wf(),
            r@ == None::<Value>,
            r.events().history() == Seq::<ValueChange>::empty(),
    {
        ValueStream { current: None, log: EventLog::new(VALUE_HISTORY) }
    }

    pub proof fn lemma_wf(&self)
        requires
            self.wf(),
        ensures
            self.events().wf(),
            self@ == replay_value(None, self.events().history()),
    {
    }

    /// Applies one change and publishes it.
    pub fn apply(&mut self, change: ValueChange)
        requires
            old(self).wf(),
            old(self).has_room(),
        ensures
            final(self).wf(),
            final(self)@ == apply_value_change(old(self)@, change),
            final(self).events().history() == old(self).events().history().push(change),
    {
        let ghost hist = self.log.history();
        match &change {
            ValueChange::Assign(v) => {
                self.current = Some(v.duplicate());
            },
            ValueChange::Clear => {
                self.current = None;
            },
        }
        self.log.publish(change);
        proof {
            assert(hist.push(change).drop_last() =~= hist);
        }
    }

    /// Sets the value.
    pub fn set(&mut self, value: Value)
        requires
            old(self).wf(),
            old(self).has_room(),
        ensures
            final(self).wf(),
            final(self)@ == Some(value),
            final(self).events().history() == old(self).events().history().push(
                ValueChange::Assign(value),
            ),
    {
        self.apply(ValueChange::Assign(value));
    }

    /// Clears the value.
    pub fn clear(&mut self)
        requires
            old(self).wf(),
            old(self).has_room(),
        ensures
            final(self).wf(),
            final(self)@ == None::<Value>,
            final(self).events().history() == old(self).events().history().push(
                ValueChange::Clear,
            ),
    {
        self.apply(ValueChange::Clear);
    }

    /// A copy of the current value.
    pub fn snapshot(&self) -> (r: Option<Value>)
        ensures
            r == self@,
    {
        match &self.current {
            Some(v) => Some(v.duplicate()),
            None => None,
        }
    }

    /// The change events published so far, for reading by cursor.
    pub fn changes(&self) -> (r: &EventLog<ValueChange>)
        ensures
            *r == self.events(),
    {
        &self.log
    }

    /// Releases the stream. It holds nothing on behalf of anyone else, so
    /// this always succeeds.
    pub fn destroy(self) -> (r: Result<(), StreamError>)
        ensures
            r is Ok,
    {
        Ok(())
    }
}

/// A subscriber that took a snapshot when it subscribed (at sequence number
/// `k`) and then applies every later event in order ends with exactly the
/// stream's current value.
pub proof fn lemma_value_subscriber_catches_up(s: &ValueStream, k: nat)
    requires
        s.wf(),
        k <= s.events().next_seq(),
    ensures
        replay_value(
            replay_value(None, s.events().history().take(k as int)),
            s.events().history().skip(k as int),
        ) == s@,
{
    let h = s.events().history();
    let f = |st: Option<Value>, c: ValueChange| apply_value_change(st, c);
    h.lemma_fold_left_split(None::<Value>, f, k as int);
    assert(h.take(k as int) =~= h.subrange(0, k as int));
    assert(h.skip(k as int) =~= h.subrange(k as int, h.len() as int));
}

/// The snapshot of a value stream is the replay, from absent, of exactly the
/// changes applied to it.
pub proof fn lemma_value_snapshot_is_replay(s: &ValueStream)
    requires
        s.wf(),
    ensures
        s@ == replay_value(None, s.events().history()),
{
}

} // verus!
