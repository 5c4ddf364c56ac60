use vstd::prelude::*;

use crate::datastream::{mutation_result, snapshot_of, DataChange, DataStream, DataStreamSnapshot};
use crate::events::EventLog;
use crate::value::{StreamError, StreamKind};

verus! {

/// The identifier of one named output of a run.
#[derive(Debug, PartialEq, Eq)]
pub struct OutputId(pub String);

impl View for OutputId {
    type V = Seq<char>;

    open spec fn view(&self) -> Seq<char> {
        self.0@
    }
}

impl OutputId {
    pub fn duplicate(&self) -> (r: OutputId)
        ensures
            r == *self,
    {
        OutputId(self.0.clone())
    }

    pub fn same(&self, other: &OutputId) -> (r: bool)
        ensures
            r == (self@ == other@),
    {
        self.0 == other.0
    }
}

/// One output: a stream and what an observer needs to interpret it.
pub struct OutputSpec {
    pub name: String,
    pub stream: DataStream,
}

/// A structural change to the registry.
#[derive(Debug, PartialEq, Eq)]
pub enum SpecChange {
    Added { id: OutputId, name: String, kind: StreamKind },
    Removed { id: OutputId },
    Replaced { id: OutputId, name: String, kind: StreamKind },
}

/// A copy of one output at one moment.
#[derive(Debug, PartialEq, Eq)]
pub struct OutputSnapshot {
    pub id: OutputId,
    pub name: String,
    pub data: DataStreamSnapshot,
}

/// The registry as a sequence of (identifier, output), in insertion order.
pub type Entries = Seq<(Seq<char>, OutputSpec)>;

/// Index of the entry with key `k`, or -1.
pub open spec fn position(es: Entries, k: Seq<char>) -> int
    decreases es.len(),
{
    if es.len() == 0 {
        -1
    } else if es[0].0 == k {
        0
    } else {
        let p = position(es.drop_first(), k);
        if p < 0 {
            -1
        } else {
            p + 1
        }
    }
}

pub open spec fn keys_unique(es: Entries) -> bool {
    forall|i: int, j: int| 0 <= i < j < es.len() ==> es[i].0 != es[j].0
}

pub proof fn lemma_position(es: Entries, k: Seq<char>)
    ensures
        -1 <= position(es, k) < es.len(),
        position(es, k) >= 0 ==> es[position(es, k)].0 == k,
        position(es, k) >= 0 ==> forall|j: int| 0 <= j < position(es, k) ==> es[j].0 != k,
        position(es, k) < 0 ==> forall|j: int| 0 <= j < es.len() ==> es[j].0 != k,
    decreases es.len(),
{
    if es.len() > 0 && es[0].0 != k {
        lemma_position(es.drop_first(), k);
        assert forall|j: int| 1 <= j < es.len() implies es[j] == es.drop_first()[j - 1] by {}
    }
}

/// Number of structural change events the registry retains.
pub const SPEC_HISTORY: usize = 256;

/// An insertion-ordered mapping from identifier to output, publishing every
/// structural change.
pub struct Outputs {
    entries: Vec<(OutputId, OutputSpec)>,
    log: EventLog<SpecChange>,
}

impl View for Outputs {
    type V = Entries;

    closed spec fn view(&self) -> Entries {
        self.entries@.map_values(|e: (OutputId, OutputSpec)| (e.0@, e.1))
    }
}

impl Outputs {
    /// The structural change events of the registry.
    pub closed spec fn events(&self) -> EventLog<SpecChange> {
        self.log
    }

    pub closed spec fn wf(&self) -> bool {
        &&& self.log.wf()
        &&& keys_unique(self@)
        &&& forall|i: int| 0 <= i < self@.len() ==> (#[trigger] self@[i]).1.stream.wf()
    }

    pub open spec fn contains(&self, k: Seq<char>) -> bool {
        position(self@, k) >= 0
    }

    pub fn new() -> (r: Self)
        ensures
            r.wf(),
            r@ == Seq::<(Seq<char>, OutputSpec)>::empty(),
            r.events().history() == Seq::<SpecChange>::empty(),
    {
        let r = Outputs { entries: Vec::new(), log: EventLog::new(SPEC_HISTORY) };
        assert(r@ =~= Seq::<(Seq<char>, OutputSpec)>::empty());
        r
    }

    pub proof fn lemma_wf(&self)
        requires
            self.wf(),
        ensures
            self.events().wf(),
            keys_unique(self@),
            forall|i: int| 0 <= i < self@.len() ==> (#[trigger] self@[i]).1.stream.wf(),
    {
    }

    proof fn lemma_view(&self)
        ensures
            self@.len() == self.entries@.len(),
            forall|i: int|
                0 <= i < self@.len() ==> #[trigger] self@[i] == (self.entries@[i].0@, self.entries@[i].1),
    {
    }

    pub fn len(&self) -> (r: usize)
        ensures
            r == self@.len(),
    {
        self.entries.len()
    }

    /// The index of the entry for `id`, if there is one.
    fn find(&self, id: &OutputId) -> (r: Option<usize>)
        ensures
            r matches Some(i) ==> i as int == position(self@, id@) && i < self.entries@.len()
                && self@.len() == self.entries@.len(),
            r is None ==> position(self@, id@) == -1,
    {
        proof {
            self.lemma_view();
        }
        let mut i: usize = 0;
        while i < self.entries.len()
            invariant
                i <= self@.len(),
                self@.len() == self.entries@.len(),
                forall|j: int| 0 <= j < i ==> self@[j].0 != id@,
            decreases self@.len() - i,
        {
            if self.entries[i].0.same(id) {
                proof {
                    lemma_position(self@, id@);
                    let p = position(self@, id@);
                    assert(self@[i as int].0 == id@);
                    if p >= 0 && p != i {
                        assert(p > i);
                    }
                }
                return Some(i);
            }
            i = i + 1;
        }
        proof {
            lemma_position(self@, id@);
        }
        None
    }

    /// The output registered under `id`.
    pub fn get(&self, id: &OutputId) -> (r: Result<&OutputSpec, StreamError>)
        ensures
            self.contains(id@) <==> r is Ok,
            r matches Ok(s) ==> *s == self@[position(self@, id@)].1,
            r matches Err(e) ==> e == StreamError::NotFound,
    {
        match self.find(id) {
            Some(i) => Ok(&self.entries[i].1),
            None => Err(StreamError::NotFound),
        }
    }
    /// Whether one more structural change can be numbered.
    pub open spec fn log_has_room(&self) -> bool {
        self.events().next_seq() < u64::MAX
    }

    fn room(&self) -> (r: bool)
        requires
            self.wf(),
        ensures
            r == self.log_has_room(),
    {
        self.log.subscribe() < u64::MAX
    }

    /// Registers a new output under a fresh identifier and publishes `Added`.
    pub fn insert(&mut self, id: OutputId, spec: OutputSpec) -> (r: Result<(), StreamError>)
        requires
            old(self).wf(),
            spec.stream.wf(),
        ensures
            final(self).wf(),
            r is Ok <==> !old(self).contains(id@) && old(self).log_has_room(),
            old(self).contains(id@) ==> r == Err::<(), StreamError>(StreamError::AlreadyPresent),
            !old(self).contains(id@) && !old(self).log_has_room() ==> r == Err::<(), StreamError>(
                StreamError::HistoryFull,
            ),
            r is Ok ==> final(self)@ == old(self)@.push((id@, spec)),
            r is Ok ==> final(self).events().history() == old(self).events().history().push(
                SpecChange::Added { id, name: spec.name, kind: spec.stream.kind_spec() },
            ),
            r is Err ==> final(self)@ == old(self)@ && final(self).events() == old(self).events(),
    {
        if self.find(&id).is_some() {
            return Err(StreamError::AlreadyPresent);
        }
        if !self.room() {
            return Err(StreamError::HistoryFull);
        }
        proof {
            lemma_position(self@, id@);
        }
        let event = SpecChange::Added { id: id.duplicate(), name: spec.name.clone(), kind: spec.stream.kind() };
        self.log.publish(event);
        self.entries.push((id, spec));
        proof {
            self.lemma_view();
            assert(self@ =~= old(self)@.push((id@, spec)));
        }
        Ok(())
    }

    /// Unregisters the output under `id`, hands it back, and publishes `Removed`.
    pub fn remove(&mut self, id: &OutputId) -> (r: Result<OutputSpec, StreamError>)
        requires
            old(self).wf(),
        ensures
            final(self).wf(),
            r is Ok <==> old(self).contains(id@) && old(self).log_has_room(),
            !old(self).contains(id@) ==> r == Err::<OutputSpec, StreamError>(StreamError::NotFound),
            old(self).contains(id@) && !old(self).log_has_room() ==> r == Err::<OutputSpec, StreamError>(
                StreamError::HistoryFull,
            ),
            r matches Ok(s) ==> s == old(self)@[position(old(self)@, id@)].1 && s.stream.wf(),
            r is Ok ==> final(self)@ == old(self)@.remove(position(old(self)@, id@)),
            r is Ok ==> final(self).events().history() == old(self).events().history().push(
                SpecChange::Removed { id: *id },
            ),
            r is Err ==> final(self)@ == old(self)@ && final(self).events() == old(self).events(),
    {
        let i = match self.find(id) {
            Some(i) => i,
            None => return Err(StreamError::NotFound),
        };
        if !self.room() {
            return Err(StreamError::HistoryFull);
        }
        proof {
            self.lemma_view();
        }
        self.log.publish(SpecChange::Removed { id: id.duplicate() });
        let (_, spec) = self.entries.remove(i);
        proof {
            self.lemma_view();
            assert(self@ =~= old(self)@.remove(i as int));
        }
        Ok(spec)
    }

    /// Puts a new output in place of the one under `id`, hands the old one
    /// back, and publishes `Replaced`.
    pub fn replace(&mut self, id: OutputId, spec: OutputSpec) -> (r: Result<OutputSpec, StreamError>)
        requires
            old(self).wf(),
            spec.stream.wf(),
        ensures
            final(self).wf(),
            r is Ok <==> old(self).contains(id@) && old(self).log_has_room(),
            !old(self).contains(id@) ==> r == Err::<OutputSpec, StreamError>(StreamError::NotFound),
            old(self).contains(id@) && !old(self).log_has_room() ==> r == Err::<OutputSpec, StreamError>(
                StreamError::HistoryFull,
            ),
            r matches Ok(s) ==> s == old(self)@[position(old(self)@, id@)].1 && s.stream.wf(),
            r is Ok ==> final(self)@ == old(self)@.update(position(old(self)@, id@), (id@, spec)),
            r is Ok ==> final(self).events().history() == old(self).events().history().push(
                SpecChange::Replaced { id, name: spec.name, kind: spec.stream.kind_spec() },
            ),
            r is Err ==> final(self)@ == old(self)@ && final(self).events() == old(self).events(),
    {
        let i = match self.find(&id) {
            Some(i) => i,
            None => return Err(StreamError::NotFound),
        };
        if !self.room() {
            return Err(StreamError::HistoryFull);
        }
        proof {
            self.lemma_view();
            lemma_position(self@, id@);
        }
        let event = SpecChange::Replaced { id: id.duplicate(), name: spec.name.clone(), kind: spec.stream.kind() };
        self.log.publish(event);
        let (_, prev) = self.entries.remove(i);
        self.entries.insert(i, (id, spec));
        proof {
            self.lemma_view();
            assert(self@ =~= old(self)@.update(i as int, (id@, spec)));
        }
        Ok(prev)
    }

    /// Applies a content change to the stream of the output under `id`.
    /// Content changes are published by the stream itself, not here.
    pub fn mutate(&mut self, id: &OutputId, change: DataChange) -> (r: Result<(), StreamError>)
        requires
            old(self).wf(),
        ensures
            final(self).wf(),
            final(self).events() == old(self).events(),
            final(self)@.len() == old(self)@.len(),
            !old(self).contains(id@) ==> r == Err::<(), StreamError>(StreamError::NotFound)
                && final(self)@ == old(self)@,
            old(self).contains(id@) ==> {
                let p = position(old(self)@, id@);
                let a = old(self)@[p].1;
                let b = final(self)@[p].1;
                &&& forall|j: int| 0 <= j < old(self)@.len() && j != p ==> final(self)@[j] == old(self)@[j]
                &&& final(self)@[p].0 == id@
                &&& b.name == a.name
                &&& b.stream.kind_spec() == a.stream.kind_spec()
                &&& (!a.stream.has_room() ==> r == Err::<(), StreamError>(StreamError::HistoryFull) && b == a)
                &&& (a.stream.has_room() ==> mutation_result(a.stream, change, b.stream, r))
            },
    {
        let i = match self.find(id) {
            Some(i) => i,
            None => return Err(StreamError::NotFound),
        };
        proof {
            self.lemma_view();
            lemma_position(self@, id@);
        }
        let (k, mut spec) = self.entries.remove(i);
        let r = if spec.stream.can_record() {
            spec.stream.mutate(change)
        } else {
            Err(StreamError::HistoryFull)
        };
        self.entries.insert(i, (k, spec));
        proof {
            self.lemma_view();
            assert(self@ =~= old(self)@.update(i as int, (k@, spec)));
        }
        r
    }

    /// A copy of every output, in registry order, taken in one step.
    pub fn snapshot(&self) -> (r: Vec<OutputSnapshot>)
        requires
            self.wf(),
        ensures
            r@.len() == self@.len(),
            forall|i: int| 0 <= i < r@.len() ==> {
                &&& (#[trigger] r@[i]).id@ == self@[i].0
                &&& r@[i].name == self@[i].1.name
                &&& snapshot_of(self@[i].1.stream, r@[i].data)
            },
    {
        proof {
            self.lemma_view();
        }
        let mut r: Vec<OutputSnapshot> = Vec::new();
        let mut i: usize = 0;
        while i < self.entries.len()
            invariant
                i <= self@.len(),
                self@.len() == self.entries@.len(),
                forall|j: int| 0 <= j < self@.len() ==> #[trigger] self@[j] == (self.entries@[j].0@, self.entries@[j].1),
                r@.len() == i,
                forall|j: int| 0 <= j < i ==> {
                    &&& (#[trigger] r@[j]).id@ == self@[j].0
                    &&& r@[j].name == self@[j].1.name
                    &&& snapshot_of(self@[j].1.stream, r@[j].data)
                },
            decreases self@.len() - i,
        {
            let e = &self.entries[i];
            r.push(OutputSnapshot { id: e.0.duplicate(), name: e.1.name.clone(), data: e.1.stream.snapshot() });
            i = i + 1;
        }
        r
    }

    /// Where a new subscriber to structural changes starts reading.
    pub fn subscribe(&self) -> (r: u64)
        requires
            self.wf(),
        ensures
            r == self.events().next_seq(),
    {
        self.log.subscribe()
    }

    /// The structural change events published so far, for reading by cursor.
    pub fn changes(&self) -> (r: &EventLog<SpecChange>)
        ensures
            *r == self.events(),
    {
        &self.log
    }
}

} // verus!

verus! {

/// Inserting an output under an identifier the registry does not hold and
/// then removing it under the same identifier leaves the identifier unknown
/// and the registry as it was; the structural events are `Added` and then
/// `Removed`, in that order.
pub proof fn lemma_insert_then_remove(
    before: Entries,
    history: Seq<SpecChange>,
    id: OutputId,
    spec: OutputSpec,
)
    requires
        keys_unique(before),
        position(before, id@) < 0,
    ensures
        ({
            let inserted = before.push((id@, spec));
            let removed = inserted.remove(position(inserted, id@));
            let events = history.push(
                SpecChange::Added { id, name: spec.name, kind: spec.stream.kind_spec() },
            ).push(SpecChange::Removed { id });
            &&& position(inserted, id@) == before.len()
            &&& position(removed, id@) < 0
            &&& removed == before
            &&& events.len() == history.len() + 2
            &&& events[history.len() as int] is Added
            &&& events[history.len() as int + 1] is Removed
        }),
{
    let inserted = before.push((id@, spec));
    lemma_position(before, id@);
    lemma_position(inserted, id@);
    let p = position(inserted, id@);
    assert(inserted[before.len() as int].0 == id@);
    if p >= 0 && p < before.len() {
        assert(inserted[p] == before[p]);
    }
    assert(p == before.len());
    let removed = inserted.remove(position(inserted, id@));
    assert(removed =~= before);
}

} // verus!
