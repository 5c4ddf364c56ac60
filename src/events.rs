use vstd::prelude::*;

verus! {

/// Reported to a subscriber whose next event has already been discarded.
#[derive(Debug, Clone, Copy, PartialEq, Eq, Structural)]
pub struct Gap {
    /// The sequence number the subscriber asked for.
    pub requested: u64,
    /// The oldest sequence number still held; reading can go on from here
    /// after a fresh snapshot.
    pub resume_at: u64,
}

/// A bounded, multi-reader record of change events.
///
/// Every published event gets the next sequence number. At most `capacity`
/// of the newest events are retained; older ones are dropped instead of
/// holding up the writer. Readers are plain cursors (sequence numbers), so
/// any number of them can read independently and a slow one never blocks
/// the writer or another reader.
pub struct EventLog<E> {
    retained: Vec<E>,
    first: u64,
    capacity: usize,
    all: Ghost<Seq<E>>,
}

impl<E> EventLog<E> {
    /// Every event ever published, oldest first.
    pub closed spec fn history(&self) -> Seq<E> {
        self.all@
    }

    /// Sequence number of the oldest event still retained.
    pub closed spec fn oldest(&self) -> nat {
        self.first as nat
    }

    /// How many events are retained at most.
    pub closed spec fn bound(&self) -> nat {
        self.capacity as nat
    }

    /// Sequence number the next published event will get.
    pub open spec fn next_seq(&self) -> nat {
        self.history().len()
    }

    pub closed spec fn wf(&self) -> bool {
        &&& self.capacity > 0
        &&& self.retained@.len() <= self.capacity
        &&& self.first + self.retained@.len() == self.all@.len()
        &&& self.all@.len() <= u64::MAX
        &&& self.retained@ == self.all@.subrange(self.first as int, self.all@.len() as int)
        &&& (self.retained@.len() < self.capacity ==> self.first == 0)
    }

    /// The retained window is the newest events, up to the bound.
    pub proof fn lemma_window(&self)
        requires
            self.wf(),
        ensures
            self.oldest() <= self.next_seq(),
            self.next_seq() - self.oldest() <= self.bound(),
            self.next_seq() <= u64::MAX,
            self.bound() > 0,
            self.next_seq() - self.oldest() < self.bound() ==> self.oldest() == 0,
    {
    }

    pub fn new(capacity: usize) -> (r: Self)
        requires
            capacity > 0,
        ensures
            r.wf(),
            r.history() == Seq::<E>::empty(),
            r.oldest() == 0,
            r.bound() == capacity,
    {
        let r = EventLog { retained: Vec::new(), first: 0, capacity, all: Ghost(Seq::empty()) };
        assert(r.retained@ =~= r.all@.subrange(0, 0));
        r
    }

    /// Records `e` as the newest event, dropping the oldest one when full.
    pub fn publish(&mut self, e: E)
        requires
            old(self).wf(),
            old(self).next_seq() < u64::MAX,
        ensures
            final(self).wf(),
            final(self).history() == old(self).history().push(e),
            final(self).bound() == old(self).bound(),
            final(self).oldest() == if old(self).next_seq() - old(self).oldest() < old(self).bound() {
                old(self).oldest()
            } else {
                old(self).oldest() + 1
            },
    {
        proof {
            self.all = Ghost(self.all@.push(e));
        }
        if self.retained.len() == self.capacity {
            self.retained.remove(0);
            self.first = self.first + 1;
        }
        self.retained.push(e);
        assert(self.retained@ =~= self.all@.subrange(self.first as int, self.all@.len() as int));
    }

    /// Sequence number a new subscriber starts from: it sees only what is
    /// published from now on.
    pub fn subscribe(&self) -> (r: u64)
        requires
            self.wf(),
        ensures
            r == self.next_seq(),
    {
        self.first + self.retained.len() as u64
    }

    /// The event with sequence number `cursor`, if it is still held.
    ///
    /// `Ok(None)` means nothing new has been published yet; `Err` means the
    /// event was dropped and the reader has missed events.
    pub fn read(&self, cursor: u64) -> (r: Result<Option<&E>, Gap>)
        requires
            self.wf(),
        ensures
            cursor < self.oldest() <==> r is Err,
            r matches Err(g) ==> g.requested == cursor && g.resume_at == self.oldest(),
            cursor >= self.next_seq() ==> r == Ok::<Option<&E>, Gap>(None),
            self.oldest() <= cursor < self.next_seq() ==> (r matches Ok(Some(e)) && *e
                == self.history()[cursor as int]),
    {
        if cursor < self.first {
            return Err(Gap { requested: cursor, resume_at: self.first });
        }
        let offset = cursor - self.first;
        if offset as usize >= self.retained.len() || offset >= self.retained.len() as u64 {
            Ok(None)
        } else {
            Ok(Some(&self.retained[offset as usize]))
        }
    }
}

} // verus!
