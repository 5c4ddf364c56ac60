use vstd::prelude::*;

verus! {

/// A value that a program places into one of its outputs.
#[derive(Debug, PartialEq, Eq)]
pub enum Value {
    Bool(bool),
    Int(i64),
    Text(String),
}

impl Value {
    /// An independent copy of this value.
    pub fn duplicate(&self) -> (r: Value)
        ensures
            r == *self,
    {
        match self {
            Value::Bool(b) => Value::Bool(*b),
            Value::Int(i) => Value::Int(*i),
            Value::Text(s) => Value::Text(s.clone()),
        }
    }
}

/// Copies a sequence of values element by element.
pub fn duplicate_values(v: &Vec<Value>) -> (r: Vec<Value>)
    ensures
        r@ == v@,
{
    let mut r: Vec<Value> = Vec::new();
    let mut i: usize = 0;
    while i < v.len()
        invariant
            i <= v@.len(),
            r@ == v@.subrange(0, i as int),
        decreases v@.len() - i,
    {
        r.push(v[i].duplicate());
        i = i + 1;
    }
    assert(r@ =~= v@);
    r
}

/// The three shapes a data stream can have.
#[derive(Debug, Clone, Copy, PartialEq, Eq, Structural)]
pub enum StreamKind {
    List,
    Tree,
    Value,
}

/// What can go wrong when a stream or the outputs registry is used.
#[derive(Debug, Clone, Copy, PartialEq, Eq, Structural)]
pub enum StreamError {
    /// The caller expected one kind of stream and found another.
    VariantMismatch { expected: StreamKind, actual: StreamKind },
    /// An index lies outside the current contents.
    OutOfRange { index: usize, len: usize },
    /// A tree path does not lead to a node (or to a place for one).
    InvalidPath,
    /// No output is registered under the identifier.
    NotFound,
    /// An output is already registered under the identifier.
    AlreadyPresent,
    /// The change history has used up its sequence numbers.
    HistoryFull,
}

} // verus!
