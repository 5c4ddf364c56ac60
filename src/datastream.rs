use vstd::prelude::*;

use crate::list::{apply_list_change, list_change_fits, ListChange, ListStream};
use crate::scalar::{apply_value_change, ValueChange, ValueStream};
use crate::tree::{apply_tree_change, forest_model, tree_change_fits, TreeChange, TreeStream, TreeStreamNode};
use crate::value::{StreamError, StreamKind, Value};

verus! {

/// A stream of one fixed kind: a list, a tree or a single optional value.
pub enum DataStream {
    List(ListStream),
    Tree(TreeStream),
    Value(ValueStream),
}

/// An immutable copy of a stream's contents.
#[derive(Debug, PartialEq, Eq)]
pub enum DataStreamSnapshot {
    List(Vec<Value>),
    Tree(Vec<TreeStreamNode>),
    Value(Option<Value>),
}

/// A change addressed to a stream of the matching kind.
#[derive(Debug, PartialEq, Eq)]
pub enum DataChange {
    List(ListChange),
    Tree(TreeChange),
    Value(ValueChange),
}

impl DataChange {
    pub open spec fn kind_spec(&self) -> StreamKind {
        match self {
            DataChange::List(_) => StreamKind::List,
            DataChange::Tree(_) => StreamKind::Tree,
            DataChange::Value(_) => StreamKind::Value,
        }
    }
}

/// Whether the snapshot `s` holds exactly the contents of `d`.
pub open spec fn snapshot_of(d: DataStream, s: DataStreamSnapshot) -> bool {
    match (d, s) {
        (DataStream::List(l), DataStreamSnapshot::List(v)) => v@ == l@,
        (DataStream::Tree(t), DataStreamSnapshot::Tree(f)) => forest_model(f@) == t@,
        (DataStream::Value(x), DataStreamSnapshot::Value(o)) => o == x@,
        _ => false,
    }
}

/// What applying `change` to `a0` does: it yields `b0` and the result `r`.
pub open spec fn mutation_result(a0: DataStream, change: DataChange, b0: DataStream, r: Result<(), StreamError>) -> bool {
    &&& change.kind_spec() != a0.kind_spec() ==> r == Err::<(), StreamError>(
            StreamError::VariantMismatch {
                expected: a0.kind_spec(),
                actual: change.kind_spec(),
            },
        ) && b0 == a0
    &&& match (a0, change, b0) {
            (DataStream::List(a), DataChange::List(c), DataStream::List(b)) => {
                &&& (r is Ok <==> list_change_fits(a@, c))
                &&& r matches Err(e) ==> e is OutOfRange
                &&& b@ == apply_list_change(a@, c)
                &&& r is Ok ==> b.events().history() == a.events().history().push(c)
                &&& r is Err ==> b.events() == a.events()
            },
            (DataStream::Tree(a), DataChange::Tree(c), DataStream::Tree(b)) => {
                &&& (r is Ok <==> tree_change_fits(a@, c))
                &&& r matches Err(e) ==> e == StreamError::InvalidPath
                &&& b@ == apply_tree_change(a@, c)
                &&& r is Ok ==> b.events().history() == a.events().history().push(c)
                &&& r is Err ==> b.events() == a.events()
            },
            (DataStream::Value(a), DataChange::Value(c), DataStream::Value(b)) => {
                &&& r is Ok
                &&& b@ == apply_value_change(a@, c)
                &&& b.events().history() == a.events().history().push(c)
            },
            _ => true,
        }
}

impl DataStream {
    pub open spec fn kind_spec(&self) -> StreamKind {
        match self {
            DataStream::List(_) => StreamKind::List,
            DataStream::Tree(_) => StreamKind::Tree,
            DataStream::Value(_) => StreamKind::Value,
        }
    }

    pub open spec fn wf(&self) -> bool {
        match self {
            DataStream::List(l) => l.wf(),
            DataStream::Tree(t) => t.wf(),
            DataStream::Value(v) => v.wf(),
        }
    }

    /// Whether one more change can be numbered.
    pub open spec fn has_room(&self) -> bool {
        match self {
            DataStream::List(l) => l.has_room(),
            DataStream::Tree(t) => t.has_room(),
            DataStream::Value(v) => v.has_room(),
        }
    }

    /// Whether one more change can be numbered.
    pub fn can_record(&self) -> (r: bool)
        requires
            self.wf(),
        ensures
            r == self.has_room(),
    {
        self.subscribe() < u64::MAX
    }

    /// The sequence number of the next change event: a new subscriber reads
    /// from here on, and sees only later changes.
    pub fn subscribe(&self) -> (r: u64)
        requires
            self.wf(),
        ensures
            r == match self {
                DataStream::List(l) => l.events().next_seq(),
                DataStream::Tree(t) => t.events().next_seq(),
                DataStream::Value(v) => v.events().next_seq(),
            },
    {
        match self {
            DataStream::List(l) => {
                proof { l.lemma_wf(); }
                l.changes().subscribe()
            },
            DataStream::Tree(t) => {
                proof { t.lemma_wf(); }
                t.changes().subscribe()
            },
            DataStream::Value(v) => {
                proof { v.lemma_wf(); }
                v.changes().subscribe()
            },
        }
    }

    pub fn kind(&self) -> (r: StreamKind)
        ensures
            r == self.kind_spec(),
    {
        match self {
            DataStream::List(_) => StreamKind::List,
            DataStream::Tree(_) => StreamKind::Tree,
            DataStream::Value(_) => StreamKind::Value,
        }
    }

    pub fn try_get_list(&self) -> (r: Result<&ListStream, StreamError>)
        ensures
            self.kind_spec() == StreamKind::List <==> r is Ok,
            r matches Ok(l) ==> *self == DataStream::List(*l),
            r matches Err(e) ==> e == (StreamError::VariantMismatch {
                expected: StreamKind::List,
                actual: self.kind_spec(),
            }),
    {
        match self {
            DataStream::List(l) => Ok(l),
            _ => Err(StreamError::VariantMismatch { expected: StreamKind::List, actual: self.kind() }),
        }
    }

    pub fn try_get_list_mut(&mut self) -> (r: Result<&mut ListStream, StreamError>)
        ensures
            old(self).kind_spec() == StreamKind::List <==> r is Ok,
            r matches Ok(l) ==> *old(self) == DataStream::List(*l) && *final(self) == DataStream::List(*final(l)),
            r matches Err(e) ==> e == (StreamError::VariantMismatch {
                expected: StreamKind::List,
                actual: old(self).kind_spec(),
            }) && *final(self) == *old(self),
    {
        let actual = self.kind();
        match self {
            DataStream::List(l) => Ok(l),
            _ => Err(StreamError::VariantMismatch { expected: StreamKind::List, actual }),
        }
    }

    pub fn try_get_tree(&self) -> (r: Result<&TreeStream, StreamError>)
        ensures
            self.kind_spec() == StreamKind::Tree <==> r is Ok,
            r matches Ok(x) ==> *self == DataStream::Tree(*x),
            r matches Err(e) ==> e == (StreamError::VariantMismatch {
                expected: StreamKind::Tree,
                actual: self.kind_spec(),
            }),
    {
        match self {
            DataStream::Tree(x) => Ok(x),
            _ => Err(StreamError::VariantMismatch { expected: StreamKind::Tree, actual: self.kind() }),
        }
    }

    pub fn try_get_tree_mut(&mut self) -> (r: Result<&mut TreeStream, StreamError>)
        ensures
            old(self).kind_spec() == StreamKind::Tree <==> r is Ok,
            r matches Ok(x) ==> *old(self) == DataStream::Tree(*x) && *final(self) == DataStream::Tree(*final(x)),
            r matches Err(e) ==> e == (StreamError::VariantMismatch {
                expected: StreamKind::Tree,
                actual: old(self).kind_spec(),
            }) && *final(self) == *old(self),
    {
        let actual = self.kind();
        match self {
            DataStream::Tree(x) => Ok(x),
            _ => Err(StreamError::VariantMismatch { expected: StreamKind::Tree, actual }),
        }
    }

    pub fn try_get_value(&self) -> (r: Result<&ValueStream, StreamError>)
        ensures
            self.kind_spec() == StreamKind::Value <==> r is Ok,
            r matches Ok(x) ==> *self == DataStream::Value(*x),
            r matches Err(e) ==> e == (StreamError::VariantMismatch {
                expected: StreamKind::Value,
                actual: self.kind_spec(),
            }),
    {
        match self {
            DataStream::Value(x) => Ok(x),
            _ => Err(StreamError::VariantMismatch { expected: StreamKind::Value, actual: self.kind() }),
        }
    }

    pub fn try_get_value_mut(&mut self) -> (r: Result<&mut ValueStream, StreamError>)
        ensures
            old(self).kind_spec() == StreamKind::Value <==> r is Ok,
            r matches Ok(x) ==> *old(self) == DataStream::Value(*x) && *final(self) == DataStream::Value(*final(x)),
            r matches Err(e) ==> e == (StreamError::VariantMismatch {
                expected: StreamKind::Value,
                actual: old(self).kind_spec(),
            }) && *final(self) == *old(self),
    {
        let actual = self.kind();
        match self {
            DataStream::Value(x) => Ok(x),
            _ => Err(StreamError::VariantMismatch { expected: StreamKind::Value, actual }),
        }
    }

    /// A copy of the current contents, of the stream's own kind.
    pub fn snapshot(&self) -> (r: DataStreamSnapshot)
        ensures
            snapshot_of(*self, r),
    {
        match self {
            DataStream::List(l) => DataStreamSnapshot::List(l.snapshot()),
            DataStream::Tree(t) => DataStreamSnapshot::Tree(t.snapshot()),
            DataStream::Value(v) => DataStreamSnapshot::Value(v.snapshot()),
        }
    }

    /// Applies a change of the stream's own kind. A change of another kind
    /// is refused with `VariantMismatch` and nothing changes; the kind of a
    /// stream never changes.
    pub fn mutate(&mut self, change: DataChange) -> (r: Result<(), StreamError>)
        requires
            old(self).wf(),
            old(self).has_room(),
        ensures
            final(self).wf(),
            final(self).kind_spec() == old(self).kind_spec(),
            mutation_result(*old(self), change, *final(self), r),
    {
        match (self, change) {
            (DataStream::List(l), DataChange::List(c)) => l.apply(c),
            (DataStream::Tree(t), DataChange::Tree(c)) => t.apply(c),
            (DataStream::Value(v), DataChange::Value(c)) => {
                v.apply(c);
                Ok(())
            },
            (s, c) => {
                let expected = s.kind();
                let actual = match c {
                    DataChange::List(_) => StreamKind::List,
                    DataChange::Tree(_) => StreamKind::Tree,
                    DataChange::Value(_) => StreamKind::Value,
                };
                Err(StreamError::VariantMismatch { expected, actual })
            },
        }
    }

    /// Releases the stream and whatever its kind holds.
    pub fn destroy(self) -> (r: Result<(), StreamError>)
        ensures
            r is Ok,
    {
        match self {
            DataStream::List(l) => l.destroy(),
            DataStream::Tree(t) => t.destroy(),
            DataStream::Value(v) => v.destroy(),
        }
    }
}

} // verus!
