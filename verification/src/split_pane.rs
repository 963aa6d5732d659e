//! Split pane layout management.
//!
//! A binary tree of panes within a tab. Each leaf is a terminal pane, and each
//! inner node splits its area horizontally or vertically between two children.
//! The pixel geometry of a split is computed by the application from each
//! node's ratio; this module owns the shape of the tree and the pane ids.

use vstd::prelude::*;

verus! {

/// Direction of a split.
#[derive(Debug, Clone, Copy, PartialEq, Eq, Structural)]
pub enum SplitDirection {
    /// Panes side by side; the divider is a vertical line
    Horizontal,
    /// Panes stacked; the divider is a horizontal line
    Vertical,
}

/// Direction for moving the focus between panes.
#[derive(Debug, Clone, Copy, PartialEq, Eq, Structural)]
pub enum NavDirection {
    Left,
    Right,
    Up,
    Down,
}

/// The ratio of a fresh split, one half, as the bit pattern of an IEEE-754
/// double.
pub const HALF_RATIO: u64 = 0x3FE0_0000_0000_0000u64;

/// A node in the split pane tree.
#[derive(Debug)]
pub enum PaneNode {
    /// A terminal pane
    Leaf { id: u64 },
    /// A split into two children
    Split {
        direction: SplitDirection,
        /// The share of the space given to the first child, as the bit
        /// pattern of an IEEE-754 double between 0 and 1
        ratio: u64,
        first: Box<PaneNode>,
        second: Box<PaneNode>,
    },
}

impl Clone for PaneNode {
    fn clone(&self) -> (res: Self)
        ensures
            res == *self,
        decreases self,
    {
        match self {
            PaneNode::Leaf { id } => PaneNode::Leaf { id: *id },
            PaneNode::Split { direction, ratio, first, second } => {
                let f = (**first).clone();
                let s = (**second).clone();
                PaneNode::Split {
                    direction: *direction,
                    ratio: *ratio,
                    first: Box::new(f),
                    second: Box::new(s),
                }
            },
        }
    }
}

/// The ids of the panes of `n`, from the first child to the second.
pub open spec fn pane_ids_of(n: PaneNode) -> Seq<u64>
    decreases n,
{
    match n {
        PaneNode::Leaf { id } => seq![id],
        PaneNode::Split { first, second, .. } => pane_ids_of(*first) + pane_ids_of(*second),
    }
}

/// `n` with the first leaf `target` (first child before second) replaced by
/// an even split between `target` and a new leaf `new_id`; `None` when no
/// leaf is `target`.
pub open spec fn split_at(n: PaneNode, target: u64, new_id: u64, direction: SplitDirection) -> Option<
    PaneNode,
>
    decreases n,
{
    match n {
        PaneNode::Leaf { id } => if id == target {
            Some(
                PaneNode::Split {
                    direction,
                    ratio: HALF_RATIO,
                    first: Box::new(PaneNode::Leaf { id }),
                    second: Box::new(PaneNode::Leaf { id: new_id }),
                },
            )
        } else {
            None
        },
        PaneNode::Split { direction: d, ratio, first, second } => match split_at(
            *first,
            target,
            new_id,
            direction,
        ) {
            Some(f) => Some(PaneNode::Split { direction: d, ratio, first: Box::new(f), second }),
            None => match split_at(*second, target, new_id, direction) {
                Some(s) => Some(PaneNode::Split { direction: d, ratio, first, second: Box::new(s) }),
                None => None,
            },
        },
    }
}

/// Whether `n` is the leaf `target`.
pub open spec fn is_leaf_with(n: PaneNode, target: u64) -> bool {
    n matches PaneNode::Leaf { id } && id == target
}

/// `n` without the leaf `target`, whose sibling takes the place of their
/// parent; at each split a child that is that leaf goes first, then the
/// first child's subtree is searched, then the second's. `None` when nothing
/// was removed (a lone leaf is never removed).
pub open spec fn removed(n: PaneNode, target: u64) -> Option<PaneNode>
    decreases n,
{
    match n {
        PaneNode::Leaf { .. } => None,
        PaneNode::Split { direction, ratio, first, second } => if is_leaf_with(*first, target) {
            Some(*second)
        } else if is_leaf_with(*second, target) {
            Some(*first)
        } else {
            match removed(*first, target) {
                Some(f) => Some(PaneNode::Split { direction, ratio, first: Box::new(f), second }),
                None => match removed(*second, target) {
                    Some(s) => Some(PaneNode::Split { direction, ratio, first, second: Box::new(s) }),
                    None => None,
                },
            }
        },
    }
}

/// Every tree has at least one pane.
pub proof fn lemma_ids_nonempty(n: PaneNode)
    ensures
        pane_ids_of(n).len() >= 1,
    decreases n,
{
    match n {
        PaneNode::Leaf { .. } => {},
        PaneNode::Split { first, second, .. } => {
            lemma_ids_nonempty(*first);
        },
    }
}

/// Splitting succeeds exactly when the pane is in the tree, and puts the new
/// pane right after the first occurrence of the split one; the other panes
/// keep their order.
pub proof fn lemma_split_ids(n: PaneNode, target: u64, new_id: u64, direction: SplitDirection)
    ensures
        split_at(n, target, new_id, direction) is Some <==> pane_ids_of(n).contains(target),
        split_at(n, target, new_id, direction) is Some ==> exists|i: int|
            0 <= i < pane_ids_of(n).len() && pane_ids_of(n)[i] == target && (forall|j: int|
                0 <= j < i ==> pane_ids_of(n)[j] != target) && #[trigger] pane_ids_of(
                split_at(n, target, new_id, direction).unwrap(),
            ) == pane_ids_of(n).insert(i + 1, new_id),
    decreases n,
{
    match n {
        PaneNode::Leaf { id } => {
            if id == target {
                let r = split_at(n, target, new_id, direction).unwrap();
                assert(pane_ids_of(PaneNode::Leaf { id }) == seq![id]);
                assert(pane_ids_of(PaneNode::Leaf { id: new_id }) == seq![new_id]);
                assert(pane_ids_of(r) =~= pane_ids_of(n).insert(1, new_id));
                assert(pane_ids_of(n)[0] == target);
            } else {
                assert(!pane_ids_of(n).contains(target)) by {
                    assert(pane_ids_of(n) =~= seq![id]);
                }
            }
        },
        PaneNode::Split { direction: d, ratio, first, second } => {
            lemma_split_ids(*first, target, new_id, direction);
            lemma_split_ids(*second, target, new_id, direction);
            let a = pane_ids_of(*first);
            let b = pane_ids_of(*second);
            assert(pane_ids_of(n) == a + b);
            if split_at(*first, target, new_id, direction) is Some {
                let i = choose|i: int|
                    0 <= i < a.len() && a[i] == target && (forall|j: int| 0 <= j < i ==> a[j] != target)
                        && #[trigger] pane_ids_of(split_at(*first, target, new_id, direction).unwrap())
                        == a.insert(i + 1, new_id);
                let f = split_at(*first, target, new_id, direction).unwrap();
                assert(pane_ids_of(split_at(n, target, new_id, direction).unwrap()) == pane_ids_of(f)
                    + b);
                assert((a + b)[i] == a[i]);
                assert(a.insert(i + 1, new_id) + b =~= (a + b).insert(i + 1, new_id));
                assert(forall|j: int| 0 <= j < i ==> (a + b)[j] == a[j]);
                assert((a + b).contains(target));
            } else if split_at(*second, target, new_id, direction) is Some {
                let i = choose|i: int|
                    0 <= i < b.len() && b[i] == target && (forall|j: int| 0 <= j < i ==> b[j] != target)
                        && #[trigger] pane_ids_of(split_at(*second, target, new_id, direction).unwrap())
                        == b.insert(i + 1, new_id);
                let s = split_at(*second, target, new_id, direction).unwrap();
                assert(pane_ids_of(split_at(n, target, new_id, direction).unwrap()) == a
                    + pane_ids_of(s));
                assert((a + b)[a.len() + i] == b[i]);
                assert(a + b.insert(i + 1, new_id) =~= (a + b).insert(a.len() + i + 1, new_id));
                assert forall|j: int| 0 <= j < a.len() + i implies (a + b)[j] != target by {
                    if j < a.len() {
                        assert((a + b)[j] == a[j]);
                        assert(!a.contains(target));
                    } else {
                        assert((a + b)[j] == b[j - a.len()]);
                    }
                }
                assert((a + b).contains(target));
            } else {
                assert(!(a + b).contains(target)) by {
                    if (a + b).contains(target) {
                        let k = choose|k: int| 0 <= k < (a + b).len() && (a + b)[k] == target;
                        if k < a.len() {
                            assert(a[k] == target);
                            assert(a.contains(target));
                        } else {
                            assert(b[k - a.len()] == target);
                            assert(b.contains(target));
                        }
                    }
                }
            }
        },
    }
}

/// A split has at least two panes.
pub proof fn lemma_split_has_two(n: PaneNode)
    requires
        n is Split,
    ensures
        pane_ids_of(n).len() >= 2,
{
    match n {
        PaneNode::Leaf { .. } => {},
        PaneNode::Split { first, second, .. } => {
            lemma_ids_nonempty(*first);
            lemma_ids_nonempty(*second);
        },
    }
}

/// Removing succeeds exactly when the pane is in a tree of more than one
/// pane, and takes out one occurrence of it; the other panes keep their
/// order.
pub proof fn lemma_remove_ids(n: PaneNode, target: u64)
    ensures
        removed(n, target) is Some <==> (pane_ids_of(n).contains(target) && pane_ids_of(n).len()
            > 1),
        removed(n, target) is Some ==> exists|i: int|
            0 <= i < pane_ids_of(n).len() && pane_ids_of(n)[i] == target && #[trigger] pane_ids_of(
                removed(n, target).unwrap(),
            ) == pane_ids_of(n).remove(i),
    decreases n,
{
    match n {
        PaneNode::Leaf { id } => {
            assert(pane_ids_of(n) =~= seq![id]);
        },
        PaneNode::Split { direction, ratio, first, second } => {
            lemma_split_has_two(n);
            let a = pane_ids_of(*first);
            let b = pane_ids_of(*second);
            assert(pane_ids_of(n) == a + b);
            lemma_ids_nonempty(*first);
            lemma_ids_nonempty(*second);
            if is_leaf_with(*first, target) {
                assert(a =~= seq![target]);
                assert((a + b)[0] == target);
                assert((a + b).remove(0) =~= b);
            } else if is_leaf_with(*second, target) {
                assert(b =~= seq![target]);
                assert((a + b)[a.len() as int] == target);
                assert((a + b).remove(a.len() as int) =~= a);
            } else {
                lemma_remove_ids(*first, target);
                lemma_remove_ids(*second, target);
                if removed(*first, target) is Some {
                    let i = choose|i: int|
                        0 <= i < a.len() && a[i] == target && #[trigger] pane_ids_of(
                            removed(*first, target).unwrap(),
                        ) == a.remove(i);
                    assert((a + b)[i] == a[i]);
                    assert(a.remove(i) + b =~= (a + b).remove(i));
                    assert((a + b).contains(target));
                } else if removed(*second, target) is Some {
                    let i = choose|i: int|
                        0 <= i < b.len() && b[i] == target && #[trigger] pane_ids_of(
                            removed(*second, target).unwrap(),
                        ) == b.remove(i);
                    assert((a + b)[a.len() + i] == b[i]);
                    assert(a + b.remove(i) =~= (a + b).remove(a.len() + i));
                    assert((a + b).contains(target));
                } else {
                    assert(!a.contains(target)) by {
                        match *first {
                            PaneNode::Leaf { id } => {
                                assert(a =~= seq![id]);
                            },
                            PaneNode::Split { .. } => {
                                lemma_split_has_two(*first);
                            },
                        }
                    }
                    assert(!b.contains(target)) by {
                        match *second {
                            PaneNode::Leaf { id } => {
                                assert(b =~= seq![id]);
                            },
                            PaneNode::Split { .. } => {
                                lemma_split_has_two(*second);
                            },
                        }
                    }
                    assert(!(a + b).contains(target)) by {
                        if (a + b).contains(target) {
                            let k = choose|k: int| 0 <= k < (a + b).len() && (a + b)[k] == target;
                            if k < a.len() {
                                assert(a[k] == target);
                            } else {
                                assert(b[k - a.len()] == target);
                            }
                        }
                    }
                }
            }
        },
    }
}

impl PaneNode {
    /// A single pane.
    pub fn leaf(id: u64) -> (res: Self)
        ensures
            res == (PaneNode::Leaf { id }),
    {
        PaneNode::Leaf { id }
    }

    /// Whether this node is a single pane.
    pub fn is_leaf(&self) -> (res: bool)
        ensures
            res == (*self is Leaf),
    {
        match self {
            PaneNode::Leaf { .. } => true,
            PaneNode::Split { .. } => false,
        }
    }

    /// The pane id of a leaf.
    pub fn pane_id(&self) -> (res: Option<u64>)
        ensures
            res == (match *self {
                PaneNode::Leaf { id } => Some(id),
                PaneNode::Split { .. } => None::<u64>,
            }),
    {
        match self {
            PaneNode::Leaf { id } => Some(*id),
            PaneNode::Split { .. } => None,
        }
    }

    fn collect_ids(&self, out: &mut Vec<u64>)
        ensures
            final(out)@ == old(out)@ + pane_ids_of(*self),
        decreases *self,
    {
        match self {
            PaneNode::Leaf { id } => {
                out.push(*id);
                proof {
                    assert(final(out)@ =~= old(out)@ + pane_ids_of(*self)) by {
                        assert(pane_ids_of(*self) == seq![*id]);
                    }
                }
            },
            PaneNode::Split { first, second, .. } => {
                first.collect_ids(out);
                second.collect_ids(out);
                proof {
                    assert(old(out)@ + pane_ids_of(**first) + pane_ids_of(**second) =~= old(out)@ + (
                    pane_ids_of(**first) + pane_ids_of(**second)));
                }
            },
        }
    }

    /// The ids of all panes, in order.
    pub fn pane_ids(&self) -> (res: Vec<u64>)
        ensures
            res@ == pane_ids_of(*self),
    {
        let mut ids: Vec<u64> = Vec::new();
        self.collect_ids(&mut ids);
        proof {
            assert(ids@ =~= pane_ids_of(*self));
        }
        ids
    }

    /// The number of panes.
    pub fn pane_count(&self) -> (res: usize)
        ensures
            res == pane_ids_of(*self).len(),
    {
        self.pane_ids().len()
    }

    fn split_owned(self, target_id: u64, new_id: u64, direction: SplitDirection) -> (res: (
        PaneNode,
        bool,
    ))
        ensures
            res.1 == split_at(self, target_id, new_id, direction) is Some,
            res.0 == (match split_at(self, target_id, new_id, direction) {
                Some(n) => n,
                None => self,
            }),
        decreases self,
    {
        match self {
            PaneNode::Leaf { id } => {
                if id == target_id {
                    (
                        PaneNode::Split {
                            direction,
                            ratio: HALF_RATIO,
                            first: Box::new(PaneNode::Leaf { id }),
                            second: Box::new(PaneNode::Leaf { id: new_id }),
                        },
                        true,
                    )
                } else {
                    (PaneNode::Leaf { id }, false)
                }
            },
            PaneNode::Split { direction: d, ratio, first, second } => {
                let (f, done) = (*first).split_owned(target_id, new_id, direction);
                if done {
                    (PaneNode::Split { direction: d, ratio, first: Box::new(f), second }, true)
                } else {
                    let (s, done2) = (*second).split_owned(target_id, new_id, direction);
                    (PaneNode::Split { direction: d, ratio, first: Box::new(f), second: Box::new(s) }, done2)
                }
            },
        }
    }

    /// Split the first pane `target_id` into itself and a new pane `new_id`,
    /// placed second, each given half of the space. Returns whether the pane
    /// was found.
    pub fn split_pane(&mut self, target_id: u64, new_id: u64, direction: SplitDirection) -> (res:
        bool)
        ensures
            res == split_at(*old(self), target_id, new_id, direction) is Some,
            *final(self) == (match split_at(*old(self), target_id, new_id, direction) {
                Some(n) => n,
                None => *old(self),
            }),
    {
        let mut node = PaneNode::Leaf { id: 0 };
        std::mem::swap(&mut node, self);
        let (n, done) = node.split_owned(target_id, new_id, direction);
        *self = n;
        done
    }

    fn remove_owned(self, target_id: u64) -> (res: (PaneNode, bool))
        ensures
            res.1 == removed(self, target_id) is Some,
            res.0 == (match removed(self, target_id) {
                Some(n) => n,
                None => self,
            }),
        decreases self,
    {
        match self {
            PaneNode::Leaf { id } => (PaneNode::Leaf { id }, false),
            PaneNode::Split { direction, ratio, first, second } => {
                let first_is_target = match &*first {
                    PaneNode::Leaf { id } => *id == target_id,
                    PaneNode::Split { .. } => false,
                };
                if first_is_target {
                    return (*second, true);
                }
                let second_is_target = match &*second {
                    PaneNode::Leaf { id } => *id == target_id,
                    PaneNode::Split { .. } => false,
                };
                if second_is_target {
                    return (*first, true);
                }
                let (f, done) = (*first).remove_owned(target_id);
                if done {
                    (PaneNode::Split { direction, ratio, first: Box::new(f), second }, true)
                } else {
                    let (s, done2) = (*second).remove_owned(target_id);
                    (PaneNode::Split { direction, ratio, first: Box::new(f), second: Box::new(s) }, done2)
                }
            },
        }
    }

    /// Remove the pane `target_id`; its sibling takes the place of their
    /// parent split. Returns whether a pane was removed.
    pub fn remove_pane(&mut self, target_id: u64) -> (res: bool)
        ensures
            res == removed(*old(self), target_id) is Some,
            *final(self) == (match removed(*old(self), target_id) {
                Some(n) => n,
                None => *old(self),
            }),
    {
        let mut node = PaneNode::Leaf { id: 0 };
        std::mem::swap(&mut node, self);
        let (n, done) = node.remove_owned(target_id);
        *self = n;
        done
    }
}

/// The state of a pane manager: the tree, the focused pane and the next id
/// to hand out.
pub struct PaneManagerView {
    pub root: PaneNode,
    pub active_pane: u64,
    pub next_id: u64,
}

/// Every pane id occurs once, and is below the next id to hand out.
pub open spec fn ids_fresh(v: PaneManagerView) -> bool {
    &&& pane_ids_of(v.root).no_duplicates()
    &&& forall|i: int| 0 <= i < pane_ids_of(v.root).len() ==> pane_ids_of(v.root)[i] < v.next_id
}

/// Manages the split panes of one tab: the pane tree, the focused pane and
/// the generation of pane ids.
pub struct PaneManager {
    root: PaneNode,
    active_pane: u64,
    next_id: u64,
}

impl View for PaneManager {
    type V = PaneManagerView;

    closed spec fn view(&self) -> PaneManagerView {
        PaneManagerView { root: self.root, active_pane: self.active_pane, next_id: self.next_id }
    }
}

proof fn lemma_insert_fresh(ids: Seq<u64>, i: int, x: u64, bound: u64)
    requires
        ids.no_duplicates(),
        forall|k: int| 0 <= k < ids.len() ==> ids[k] < bound,
        x == bound,
        0 <= i <= ids.len(),
        bound < u64::MAX,
    ensures
        ids.insert(i, x).no_duplicates(),
        forall|k: int| 0 <= k < ids.insert(i, x).len() ==> ids.insert(i, x)[k] < bound + 1,
{
    let r = ids.insert(i, x);
    assert forall|p: int, q: int| 0 <= p < r.len() && 0 <= q < r.len() && p != q implies r[p]
        != r[q] by {
        if p != i && q != i {
            let pp = if p < i { p } else { p - 1 };
            let qq = if q < i { q } else { q - 1 };
            assert(r[p] == ids[pp]);
            assert(r[q] == ids[qq]);
        } else if p == i {
            let qq = if q < i { q } else { q - 1 };
            assert(r[q] == ids[qq]);
        } else {
            let pp = if p < i { p } else { p - 1 };
            assert(r[p] == ids[pp]);
        }
    }
    assert forall|k: int| 0 <= k < r.len() implies r[k] < bound + 1 by {
        if k < i {
            assert(r[k] == ids[k]);
        } else if k > i {
            assert(r[k] == ids[k - 1]);
        }
    }
}

proof fn lemma_remove_fresh(ids: Seq<u64>, i: int, bound: u64)
    requires
        ids.no_duplicates(),
        forall|k: int| 0 <= k < ids.len() ==> ids[k] < bound,
        0 <= i < ids.len(),
    ensures
        ids.remove(i).no_duplicates(),
        forall|k: int| 0 <= k < ids.remove(i).len() ==> ids.remove(i)[k] < bound,
{
    let r = ids.remove(i);
    assert forall|p: int, q: int| 0 <= p < r.len() && 0 <= q < r.len() && p != q implies r[p]
        != r[q] by {
        let pp = if p < i { p } else { p + 1 };
        let qq = if q < i { q } else { q + 1 };
        assert(r[p] == ids[pp]);
        assert(r[q] == ids[qq]);
    }
    assert forall|k: int| 0 <= k < r.len() implies r[k] < bound by {
        if k < i {
            assert(r[k] == ids[k]);
        } else {
            assert(r[k] == ids[k + 1]);
        }
    }
}

impl PaneManager {
    /// A manager with the single pane `initial_id`, focused.
    pub fn new(initial_id: u64) -> (res: Self)
        requires
            initial_id < u64::MAX,
        ensures
            res@ == (PaneManagerView {
                root: PaneNode::Leaf { id: initial_id },
                active_pane: initial_id,
                next_id: (initial_id + 1) as u64,
            }),
            ids_fresh(res@),
    {
        let res = PaneManager {
            root: PaneNode::Leaf { id: initial_id },
            active_pane: initial_id,
            next_id: initial_id + 1,
        };
        proof {
            assert(pane_ids_of(res.root) =~= seq![initial_id]);
        }
        res
    }

    /// The pane tree.
    pub fn root(&self) -> (res: &PaneNode)
        ensures
            *res == self@.root,
    {
        &self.root
    }

    /// The pane tree, mutably.
    pub fn root_mut(&mut self) -> (res: &mut PaneNode)
        ensures
            *res == old(self)@.root,
            final(self)@ == (PaneManagerView { root: *final(res), ..old(self)@ }),
    {
        &mut self.root
    }

    /// The focused pane.
    pub fn active_pane(&self) -> (res: u64)
        ensures
            res == self@.active_pane,
    {
        self.active_pane
    }

    /// Focus the pane `id`.
    pub fn set_active_pane(&mut self, id: u64)
        ensures
            final(self)@ == (PaneManagerView { active_pane: id, ..old(self)@ }),
            ids_fresh(old(self)@) ==> ids_fresh(final(self)@),
    {
        self.active_pane = id;
    }

    /// Hand out a new pane id.
    pub fn next_id(&mut self) -> (res: u64)
        requires
            old(self)@.next_id < u64::MAX,
        ensures
            res == old(self)@.next_id,
            final(self)@ == (PaneManagerView { next_id: (old(self)@.next_id + 1) as u64, ..old(self)@ }),
            ids_fresh(old(self)@) ==> ids_fresh(final(self)@),
    {
        let id = self.next_id;
        self.next_id = self.next_id + 1;
        id
    }

    /// Split the focused pane; the new pane gets the next id, which is
    /// returned. When the focused pane is not in the tree nothing changes.
    pub fn split_active(&mut self, direction: SplitDirection) -> (res: Option<u64>)
        requires
            old(self)@.next_id < u64::MAX,
        ensures
            match split_at(old(self)@.root, old(self)@.active_pane, old(self)@.next_id, direction) {
                Some(n) => res == Some(old(self)@.next_id) && final(self)@ == (PaneManagerView {
                    root: n,
                    next_id: (old(self)@.next_id + 1) as u64,
                    ..old(self)@
                }),
                None => res is None && final(self)@ == old(self)@,
            },
            ids_fresh(old(self)@) ==> ids_fresh(final(self)@),
    {
        let new_id = self.next_id();
        let active = self.active_pane;
        let mut root = PaneNode::Leaf { id: 0 };
        std::mem::swap(&mut root, &mut self.root);
        let done = root.split_pane(active, new_id, direction);
        self.root = root;
        if done {
            proof {
                let old_v = old(self)@;
                lemma_split_ids(old_v.root, old_v.active_pane, old_v.next_id, direction);
                if ids_fresh(old_v) {
                    let ids = pane_ids_of(old_v.root);
                    let i = choose|i: int|
                        0 <= i < ids.len() && ids[i] == old_v.active_pane && (forall|j: int|
                            0 <= j < i ==> ids[j] != old_v.active_pane) && #[trigger] pane_ids_of(
                            split_at(old_v.root, old_v.active_pane, old_v.next_id, direction).unwrap(),
                        ) == ids.insert(i + 1, old_v.next_id);
                    lemma_insert_fresh(ids, i + 1, old_v.next_id, old_v.next_id);
                }
            }
            Some(new_id)
        } else {
            self.next_id = self.next_id - 1;
            None
        }
    }

    /// Close the focused pane and focus the first remaining one. The last
    /// pane is never closed. Returns whether a pane was closed.
    pub fn remove_active(&mut self) -> (res: bool)
        ensures
            pane_ids_of(old(self)@.root).len() <= 1 ==> !res && final(self)@ == old(self)@,
            pane_ids_of(old(self)@.root).len() > 1 ==> match removed(
                old(self)@.root,
                old(self)@.active_pane,
            ) {
                Some(n) => res && final(self)@ == (PaneManagerView {
                    root: n,
                    active_pane: pane_ids_of(n)[0],
                    ..old(self)@
                }),
                None => !res && final(self)@ == old(self)@,
            },
            ids_fresh(old(self)@) ==> ids_fresh(final(self)@),
    {
        if self.root.pane_count() <= 1 {
            return false;
        }
        let old_active = self.active_pane;
        let mut root = PaneNode::Leaf { id: 0 };
        std::mem::swap(&mut root, &mut self.root);
        let done = root.remove_pane(old_active);
        self.root = root;
        if done {
            let ids = self.root.pane_ids();
            proof {
                lemma_ids_nonempty(self.root);
            }
            self.active_pane = ids[0];
            proof {
                let old_v = old(self)@;
                lemma_remove_ids(old_v.root, old_v.active_pane);
                if ids_fresh(old_v) {
                    let all = pane_ids_of(old_v.root);
                    let i = choose|i: int|
                        0 <= i < all.len() && all[i] == old_v.active_pane && #[trigger] pane_ids_of(
                            removed(old_v.root, old_v.active_pane).unwrap(),
                        ) == all.remove(i);
                    lemma_remove_fresh(all, i, old_v.next_id);
                }
            }
            true
        } else {
            false
        }
    }

    /// The ids of all panes, in order.
    pub fn pane_ids(&self) -> (res: Vec<u64>)
        ensures
            res@ == pane_ids_of(self@.root),
    {
        self.root.pane_ids()
    }

    /// The number of panes.
    pub fn pane_count(&self) -> (res: usize)
        ensures
            res == pane_ids_of(self@.root).len(),
    {
        self.root.pane_count()
    }
}

} // verus!
