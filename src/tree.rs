use vstd::prelude::*;

use crate::events::EventLog;
use crate::value::{StreamError, Value};

verus! {

broadcast use {vstd::std_specs::vec::group_vec_axioms, vstd::seq::group_seq_axioms};

/// A node of a tree stream: a value and the subtrees it owns, in order.
#[derive(Debug, PartialEq, Eq)]
pub struct TreeStreamNode {
    pub value: Value,
    pub children: Vec<TreeStreamNode>,
}

/// The mathematical shape of a node: its value and its children's shapes.
pub struct TreeModel {
    pub value: Value,
    pub children: Seq<TreeModel>,
}

pub open spec fn node_model(n: TreeStreamNode) -> TreeModel
    decreases n, 1nat,
{
    TreeModel { value: n.value, children: forest_model(n.children@) }
}

pub open spec fn forest_model(f: Seq<TreeStreamNode>) -> Seq<TreeModel>
    decreases f, 0nat,
{
    if f.len() == 0 {
        Seq::empty()
    } else {
        forest_model(f.drop_last()).push(node_model(f.last()))
    }
}

pub proof fn lemma_forest_model(f: Seq<TreeStreamNode>)
    ensures
        forest_model(f).len() == f.len(),
        forall|i: int| 0 <= i < f.len() ==> #[trigger] forest_model(f)[i] == node_model(f[i]),
    decreases f.len(),
{
    if f.len() > 0 {
        lemma_forest_model(f.drop_last());
    }
}


/// One change to a tree stream, at a path of child indices from the roots.
///
/// The last index of the path picks a place among the siblings; the ones
/// before it lead to their parent.
#[derive(Debug, PartialEq, Eq)]
pub enum TreeChange {
    /// A new subtree is inserted at the place (it may be one past the last sibling).
    Add { path: Vec<usize>, node: TreeStreamNode },
    /// The subtree at the place is removed.
    Remove { path: Vec<usize> },
    /// The subtree at the place is replaced.
    Replace { path: Vec<usize>, node: TreeStreamNode },
}

/// What a change does where its path ends.
pub enum Edit {
    Add(TreeModel),
    Remove,
    Replace(TreeModel),
}

pub open spec fn change_path(c: TreeChange) -> Seq<usize> {
    match c {
        TreeChange::Add { path, .. } => path@,
        TreeChange::Remove { path } => path@,
        TreeChange::Replace { path, .. } => path@,
    }
}

pub open spec fn change_edit(c: TreeChange) -> Edit {
    match c {
        TreeChange::Add { node, .. } => Edit::Add(node_model(node)),
        TreeChange::Remove { .. } => Edit::Remove,
        TreeChange::Replace { node, .. } => Edit::Replace(node_model(node)),
    }
}

/// The forest after applying `e` at `path` in `f`, or `None` where the path
/// leads nowhere.
pub open spec fn edit_forest(f: Seq<TreeModel>, path: Seq<usize>, e: Edit) -> Option<Seq<TreeModel>>
    decreases path.len(),
{
    if path.len() == 0 {
        None
    } else if path.len() == 1 {
        let i = path[0] as int;
        match e {
            Edit::Add(n) => if i <= f.len() { Some(f.insert(i, n)) } else { None },
            Edit::Remove => if i < f.len() { Some(f.remove(i)) } else { None },
            Edit::Replace(n) => if i < f.len() { Some(f.update(i, n)) } else { None },
        }
    } else {
        let i = path[0] as int;
        if i < f.len() {
            match edit_forest(f[i].children, path.drop_first(), e) {
                Some(c) => Some(f.update(i, TreeModel { value: f[i].value, children: c })),
                None => None,
            }
        } else {
            None
        }
    }
}

/// Whether `c` can be applied to the forest `f`.
pub open spec fn tree_change_fits(f: Seq<TreeModel>, c: TreeChange) -> bool {
    edit_forest(f, change_path(c), change_edit(c)) is Some
}

/// The forest after applying `c` to `f` (unchanged where it does not fit).
pub open spec fn apply_tree_change(f: Seq<TreeModel>, c: TreeChange) -> Seq<TreeModel> {
    match edit_forest(f, change_path(c), change_edit(c)) {
        Some(g) => g,
        None => f,
    }
}

/// The forest reached by applying `changes` in order, starting from `start`.
pub open spec fn replay_tree(start: Seq<TreeModel>, changes: Seq<TreeChange>) -> Seq<TreeModel> {
    changes.fold_left(start, |s: Seq<TreeModel>, c: TreeChange| apply_tree_change(s, c))
}

impl TreeStreamNode {
    /// A deep copy of this node and its subtrees.
    pub fn duplicate(&self) -> (r: TreeStreamNode)
        ensures
            node_model(r) == node_model(*self),
        decreases *self, 1nat,
    {
        TreeStreamNode { value: self.value.duplicate(), children: duplicate_forest(&self.children) }
    }
}

/// A deep copy of a forest.
pub fn duplicate_forest(f: &Vec<TreeStreamNode>) -> (r: Vec<TreeStreamNode>)
    ensures
        forest_model(r@) == forest_model(f@),
    decreases *f, 0nat,
{
    let mut r: Vec<TreeStreamNode> = Vec::new();
    let mut i: usize = 0;
    while i < f.len()
        invariant
            i <= f@.len(),
            r@.len() == i,
            forall|j: int| 0 <= j < i ==> node_model(#[trigger] r@[j]) == node_model(f@[j]),
        decreases f@.len() - i,
    {
        assert(decreases_to!(*f => f@[i as int]));
        let c = f[i].duplicate();
        r.push(c);
        i = i + 1;
    }
    proof {
        lemma_forest_model(r@);
        lemma_forest_model(f@);
        assert(forest_model(r@) =~= forest_model(f@));
    }
    r
}

/// Applies `e` at `path[depth..]` inside the forest `f`, in place.
fn edit_in_place(f: &mut Vec<TreeStreamNode>, path: &Vec<usize>, depth: usize, e: &TreeChange) -> (ok: bool)
    requires
        depth < path@.len(),
        change_path(*e) == path@,
    ensures
        ok == edit_forest(forest_model(old(f)@), path@.skip(depth as int), change_edit(*e)) is Some,
        ok ==> edit_forest(forest_model(old(f)@), path@.skip(depth as int), change_edit(*e))
            == Some(forest_model(final(f)@)),
        !ok ==> forest_model(final(f)@) == forest_model(old(f)@),
    decreases path@.len() - depth,
{
    let ghost p = path@.skip(depth as int);
    proof {
        lemma_forest_model(f@);
    }
    let i = path[depth];
    let len = f.len();
    if depth == path.len() - 1 {
        match e {
            TreeChange::Add { node, .. } => {
                if i > len {
                    return false;
                }
                f.insert(i, node.duplicate());
            },
            TreeChange::Remove { .. } => {
                if i >= len {
                    return false;
                }
                f.remove(i);
            },
            TreeChange::Replace { node, .. } => {
                if i >= len {
                    return false;
                }
                f.set(i, node.duplicate());
            },
        }
        proof {
            lemma_forest_model(f@);
            let g = edit_forest(forest_model(old(f)@), p, change_edit(*e));
            assert(g is Some);
            assert(g->0 =~= forest_model(f@));
        }
        true
    } else {
        if i >= len {
            return false;
        }
        let mut child = f.remove(i);
        let ghost old_child = child;
        let ok = edit_in_place(&mut child.children, path, depth + 1, e);
        proof {
            assert(p.drop_first() =~= path@.skip(depth + 1));
            assert(forest_model(old(f)@)[i as int] == node_model(old_child));
        }
        if ok {
            f.insert(i, child);
            proof {
                lemma_forest_model(f@);
                let g = edit_forest(forest_model(old(f)@), p, change_edit(*e));
                assert(g->0 =~= forest_model(f@));
            }
        } else {
            f.insert(i, child);
            proof {
                lemma_forest_model(f@);
                assert(f@ =~= old(f)@.update(i as int, child));
                assert(forest_model(f@) =~= forest_model(old(f)@));
            }
        }
        ok
    }
}

} // verus!

verus! {

/// Number of change events a tree stream retains for its subscribers.
pub const TREE_HISTORY: usize = 256;

/// A forest of values whose every change is published as an event.
pub struct TreeStream {
    roots: Vec<TreeStreamNode>,
    log: EventLog<TreeChange>,
}

impl View for TreeStream {
    type V = Seq<TreeModel>;

    closed spec fn view(&self) -> Seq<TreeModel> {
        forest_model(self.roots@)
    }
}

impl TreeStream {
    /// The change events of this stream.
    pub closed spec fn events(&self) -> EventLog<TreeChange> {
        self.log
    }

    /// The forest always equals the replay of every change from empty.
    pub closed spec fn wf(&self) -> bool {
        &&& self.log.wf()
        &&& forest_model(self.roots@) == replay_tree(Seq::empty(), self.log.history())
    }

    /// Whether one more change can be numbered.
    pub open spec fn has_room(&self) -> bool {
        self.events().next_seq() < u64::MAX
    }

    pub fn new() -> (r: Self)
        ensures
            r.wf(),
            r@ == Seq::<TreeModel>::empty(),
            r.events().history() == Seq::<TreeChange>::empty(),
    {
        let r = TreeStream { roots: Vec::new(), log: EventLog::new(TREE_HISTORY) };
        assert(forest_model(r.roots@) =~= Seq::<TreeModel>::empty());
        r
    }

    pub proof fn lemma_wf(&self)
        requires
            self.wf(),
        ensures
            self.events().wf(),
            self@ == replay_tree(Seq::empty(), self.events().history()),
    {
    }

    /// Applies one change and publishes it; a path that leads nowhere is
    /// refused and nothing changes.
    pub fn apply(&mut self, change: TreeChange) -> (r: Result<(), StreamError>)
        requires
            old(self).wf(),
            old(self).has_room(),
        ensures
            final(self).wf(),
            r is Ok <==> tree_change_fits(old(self)@, change),
            r matches Err(e) ==> e == StreamError::InvalidPath,
            final(self)@ == apply_tree_change(old(self)@, change),
            r is Ok ==> final(self).events().history() == old(self).events().history().push(change),
            r is Err ==> final(self).events() == old(self).events(),
    {
        let ghost hist = self.log.history();
        let path = match &change {
            TreeChange::Add { path, .. } => path,
            TreeChange::Remove { path } => path,
            TreeChange::Replace { path, .. } => path,
        };
        if path.len() == 0 {
            return Err(StreamError::InvalidPath);
        }
        let ok = edit_in_place(&mut self.roots, path, 0, &change);
        proof {
            assert(path@.skip(0) =~= path@);
        }
        if !ok {
            return Err(StreamError::InvalidPath);
        }
        self.log.publish(change);
        proof {
            assert(hist.push(change).drop_last() =~= hist);
        }
        Ok(())
    }

    /// A deep copy of the current forest.
    pub fn snapshot(&self) -> (r: Vec<TreeStreamNode>)
        ensures
            forest_model(r@) == self@,
    {
        duplicate_forest(&self.roots)
    }

    /// The change events published so far, for reading by cursor.
    pub fn changes(&self) -> (r: &EventLog<TreeChange>)
        ensures
            *r == self.events(),
    {
        &self.log
    }

    /// Releases the stream. It holds nothing on behalf of anyone else, so
    /// this always succeeds.
    pub fn destroy(self) -> (r: Result<(), StreamError>)
        ensures
            r is Ok,
    {
        Ok(())
    }
}

/// A subscriber that took a snapshot when it subscribed (at sequence number
/// `k`) and then applies every later event in order ends with exactly the
/// stream's current forest.
pub proof fn lemma_tree_subscriber_catches_up(s: &TreeStream, k: nat)
    requires
        s.wf(),
        k <= s.events().next_seq(),
    ensures
        replay_tree(
            replay_tree(Seq::empty(), s.events().history().take(k as int)),
            s.events().history().skip(k as int),
        ) == s@,
{
    let h = s.events().history();
    let f = |st: Seq<TreeModel>, c: TreeChange| apply_tree_change(st, c);
    h.lemma_fold_left_split(Seq::<TreeModel>::empty(), f, k as int);
    assert(h.take(k as int) =~= h.subrange(0, k as int));
    assert(h.skip(k as int) =~= h.subrange(k as int, h.len() as int));
}

/// The snapshot of a tree stream is the replay, from empty, of exactly the
/// changes applied to it.
pub proof fn lemma_tree_snapshot_is_replay(s: &TreeStream)
    requires
        s.wf(),
    ensures
        s@ == replay_tree(Seq::empty(), s.events().history()),
{
}

} // verus!
