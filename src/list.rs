use vstd::prelude::*;

use crate::events::EventLog;
use crate::value::{duplicate_values, StreamError, Value};

verus! {

/// One change to a list stream.
#[derive(Debug, PartialEq, Eq)]
pub enum ListChange {
    Insert { index: usize, value: Value },
    Remove { index: usize },
    Replace { index: usize, value: Value },
}

/// Whether `c` can be applied to a list with contents `s`.
pub open spec fn list_change_fits(s: Seq<Value>, c: ListChange) -> bool {
    match c {
        ListChange::Insert { index, .. } => index <= s.len(),
        ListChange::Remove { index } => index < s.len(),
        ListChange::Replace { index, .. } => index < s.len(),
    }
}

/// The contents after applying `c` to `s` (unchanged where it does not fit).
pub open spec fn apply_list_change(s: Seq<Value>, c: ListChange) -> Seq<Value> {
    if !list_change_fits(s, c) {
        s
    } else {
        match c {
            ListChange::Insert { index, value } => s.insert(index as int, value),
            ListChange::Remove { index } => s.remove(index as int),
            ListChange::Replace { index, value } => s.update(index as int, value),
        }
    }
}

/// The contents reached by applying `changes` in order, starting from `start`.
pub open spec fn replay_list(start: Seq<Value>, changes: Seq<ListChange>) -> Seq<Value> {
    changes.fold_left(start, |s: Seq<Value>, c: ListChange| apply_list_change(s, c))
}

/// Number of change events a list stream retains for its subscribers.
pub const LIST_HISTORY: usize = 256;

/// An ordered sequence of values whose every change is published as an event.
pub struct ListStream {
    items: Vec<Value>,
    log: EventLog<ListChange>,
}

impl View for ListStream {
    type V = Seq<Value>;

    closed spec fn view(&self) -> Seq<Value> {
        self.items@
    }
}

impl ListStream {
    /// The change events of this stream.
    pub closed spec fn events(&self) -> EventLog<ListChange> {
        self.log
    }

    /// The contents always equal the replay of every change from empty.
    pub closed spec fn wf(&self) -> bool {
        &&& self.log.wf()
        &&& self.items@ == replay_list(Seq::empty(), self.log.history())
    }

    /// Whether one more change can be numbered.
    pub open spec fn has_room(&self) -> bool {
        self.events().next_seq() < u64::MAX
    }

    pub fn new() -> (r: Self)
        ensures
            r.wf(),
            r@ == Seq::<Value>::empty(),
            r.events().history() == Seq::<ListChange>::empty(),
    {
        ListStream { items: Vec::new(), log: EventLog::new(LIST_HISTORY) }
    }

    pub proof fn lemma_wf(&self)
        requires
            self.wf(),
        ensures
            self.events().wf(),
            self@ == replay_list(Seq::empty(), self.events().history()),
    {
    }

    pub fn len(&self) -> (r: usize)
        ensures
            r == self@.len(),
    {
        self.items.len()
    }

    pub fn get(&self, index: usize) -> (r: Option<&Value>)
        ensures
            index < self@.len() <==> r is Some,
            r matches Some(v) ==> *v == self@[index as int],
    {
        if index < self.items.len() {
            Some(&self.items[index])
        } else {
            None
        }
    }

    /// Applies one change and publishes it; an index outside the contents
    /// is refused and nothing changes.
    pub fn apply(&mut self, change: ListChange) -> (r: Result<(), StreamError>)
        requires
            old(self).wf(),
            old(self).has_room(),
        ensures
            final(self).wf(),
            r is Ok <==> list_change_fits(old(self)@, change),
            r matches Err(e) ==> e == (StreamError::OutOfRange {
                index: match change {
                    ListChange::Insert { index, .. } => index,
                    ListChange::Remove { index } => index,
                    ListChange::Replace { index, .. } => index,
                },
                len: old(self)@.len() as usize,
            }),
            final(self)@ == apply_list_change(old(self)@, change),
            r is Ok ==> final(self).events().history() == old(self).events().history().push(change),
            r is Err ==> final(self).events() == old(self).events(),
    {
        let len = self.items.len();
        let ghost hist = self.log.history();
        match &change {
            ListChange::Insert { index, value } => {
                if *index > len {
                    return Err(StreamError::OutOfRange { index: *index, len });
                }
                self.items.insert(*index, value.duplicate());
            },
            ListChange::Remove { index } => {
                if *index >= len {
                    return Err(StreamError::OutOfRange { index: *index, len });
                }
                self.items.remove(*index);
            },
            ListChange::Replace { index, value } => {
                if *index >= len {
                    return Err(StreamError::OutOfRange { index: *index, len });
                }
                self.items.set(*index, value.duplicate());
            },
        }
        self.log.publish(change);
        proof {
            assert(hist.push(change).drop_last() =~= hist);
        }
        Ok(())
    }

    /// Appends `value` at the end.
    pub fn push(&mut self, value: Value) -> (r: Result<(), StreamError>)
        requires
            old(self).wf(),
            old(self).has_room(),
        ensures
            final(self).wf(),
            r is Ok,
            final(self)@ == old(self)@.push(value),
            final(self).events().history() == old(self).events().history().push(
                ListChange::Insert { index: old(self)@.len() as usize, value },
            ),
    {
        let index = self.items.len();
        let ghost v = value;
        let r = self.apply(ListChange::Insert { index, value });
        assert(old(self)@.insert(index as int, v) =~= old(self)@.push(v));
        r
    }

    /// A copy of the current contents.
    pub fn snapshot(&self) -> (r: Vec<Value>)
        ensures
            r@ == self@,
    {
        duplicate_values(&self.items)
    }

    /// The change events published so far, for reading by cursor.
    pub fn changes(&self) -> (r: &EventLog<ListChange>)
        ensures
            *r == self.events(),
    {
        &self.log
    }

    /// Releases the stream. It holds nothing on behalf of anyone else, so
    /// this always succeeds.
    pub fn destroy(self) -> (r: Result<(), StreamError>)
        ensures
            r is Ok,
    {
        Ok(())
    }
}

} // verus!

verus! {

/// A subscriber that took a snapshot when it subscribed (at sequence number
/// `k`) and then applies every later event in order ends with exactly the
/// stream's current contents.
pub proof fn lemma_list_subscriber_catches_up(s: &ListStream, k: nat)
    requires
        s.wf(),
        k <= s.events().next_seq(),
    ensures
        replay_list(
            replay_list(Seq::empty(), s.events().history().take(k as int)),
            s.events().history().skip(k as int),
        ) == s@,
{
    let h = s.events().history();
    let f = |st: Seq<Value>, c: ListChange| apply_list_change(st, c);
    h.lemma_fold_left_split(Seq::<Value>::empty(), f, k as int);
    assert(h.take(k as int) =~= h.subrange(0, k as int));
    assert(h.skip(k as int) =~= h.subrange(k as int, h.len() as int));
}

/// The snapshot of a list stream is the replay, from empty, of exactly the
/// changes applied to it.
pub proof fn lemma_list_snapshot_is_replay(s: &ListStream)
    requires
        s.wf(),
    ensures
        s@ == replay_list(Seq::empty(), s.events().history()),
{
}

} // verus!
