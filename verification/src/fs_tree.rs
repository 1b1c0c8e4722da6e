//! Filesystem tree arena: instead of parent references, a flat vector of
//! nodes addressed by index. The scanner fills an append-only arena of
//! [`ScanNode`]s; [`FsTree::from_arena`] turns any prefix of it (a snapshot
//! taken mid-scan) into a tree: folder sizes are aggregated and children are
//! sorted by size, largest first. Arena indices are stable, so the `NodeId`s
//! of one snapshot stay valid in the next ones.

use vstd::prelude::*;
use vstd::seq_lib::*;

verus! {

broadcast use {group_to_multiset_ensures, vstd::multiset::group_multiset_axioms};

/// A directory's own entry size: a fixed 4096 bytes.
pub const DIR_ENTRY_SIZE: u64 = 4096;

#[derive(Debug, Clone, Copy, PartialEq, Eq, Structural, Hash)]
pub struct NodeId(pub usize);

/// A node of the scan arena. Arena invariants: the root has index 0 and is
/// added first; a parent is added before any of its children (`parent` is
/// less than the node's own index; 0 for the root).
#[derive(Debug, Clone)]
pub struct ScanNode {
    pub name: String,
    pub path: String,
    /// For files the file length; ignored for directories.
    pub size: u64,
    pub is_dir: bool,
    pub parent: usize,
}

#[derive(Debug, Clone)]
pub struct FsNode {
    pub name: String,
    pub path: String,
    /// For folders the subtree aggregate, including their own entry size.
    pub size: u64,
    pub is_dir: bool,
    /// Sorted by `size`, largest first; equal sizes keep arena order.
    pub children: Vec<NodeId>,
}

#[derive(Debug, Clone)]
pub struct FsTree {
    pub nodes: Vec<FsNode>,
    pub root: NodeId,
}

/// What a node contributes by itself: its length for a file, the fixed entry
/// size for a directory.
pub open spec fn own_size(node: ScanNode) -> nat {
    if node.is_dir {
        DIR_ENTRY_SIZE as nat
    } else {
        node.size as nat
    }
}

/// The arena invariant: a root, and every other node after its parent.
pub open spec fn arena_wf(arena: Seq<ScanNode>) -> bool {
    &&& arena.len() > 0
    &&& forall|i: int| 1 <= i < arena.len() ==> #[trigger] arena[i].parent < i
}

/// The aggregate size of node `i`: its own size plus the aggregates of all
/// its children.
pub open spec fn subtree_size(arena: Seq<ScanNode>, i: int) -> nat
    decreases arena.len() - i, arena.len() + 1,
{
    if 0 <= i < arena.len() {
        own_size(arena[i]) + children_size(arena, i, i + 1)
    } else {
        0
    }
}

/// The aggregates of the children of `i` found at index `j` or later.
pub open spec fn children_size(arena: Seq<ScanNode>, i: int, j: int) -> nat
    decreases arena.len() - i, arena.len() - j,
{
    if 0 <= i < j < arena.len() {
        (if arena[j].parent == i {
            subtree_size(arena, j)
        } else {
            0
        }) + children_size(arena, i, j + 1)
    } else {
        0
    }
}

/// The children of `m` among the arena indices `1..hi`, in arena order.
pub open spec fn child_ids(arena: Seq<ScanNode>, m: int, hi: int) -> Seq<usize>
    decreases hi,
{
    if hi <= 1 {
        Seq::empty()
    } else {
        child_ids(arena, m, hi - 1) + if arena[hi - 1].parent == m {
            seq![(hi - 1) as usize]
        } else {
            Seq::empty()
        }
    }
}

/// `a` is shown before `b` among siblings: larger first, ties in arena order.
pub open spec fn shown_before(arena: Seq<ScanNode>, a: int, b: int) -> bool {
    subtree_size(arena, a) > subtree_size(arena, b) || (subtree_size(arena, a)
        == subtree_size(arena, b) && a < b)
}

/// `kids` lists exactly the children of `m`, in display order.
pub open spec fn children_listed(arena: Seq<ScanNode>, m: int, kids: Seq<NodeId>) -> bool {
    &&& forall|k: int|
        0 <= k < kids.len() ==> 1 <= (#[trigger] kids[k]).0 < arena.len() && arena[kids[k].0 as int].parent
            == m
    &&& forall|j: int|
        1 <= j < arena.len() && #[trigger] arena[j].parent == m ==> kids.contains(NodeId(j as usize))
    &&& forall|a: int, b: int|
        0 <= a < b < kids.len() ==> shown_before(arena, (#[trigger] kids[a]).0 as int, (#[trigger] kids[b]).0 as int)
}

impl FsTree {
    /// Every child id names a node of the tree, and so does the root.
    pub open spec fn wf(&self) -> bool {
        &&& self.root.0 < self.nodes.len()
        &&& forall|i: int, k: int|
            0 <= i < self.nodes.len() && 0 <= k < self.nodes[i].children.len() ==> (
            #[trigger] self.nodes[i].children[k]).0 < self.nodes.len()
    }

    /// The tree is the snapshot of `arena`: node `i` is arena entry `i`, with
    /// its aggregate size and its children in display order.
    pub open spec fn built_from(&self, arena: Seq<ScanNode>) -> bool {
        &&& self.root == NodeId(0)
        &&& self.nodes.len() == arena.len()
        &&& forall|i: int|
            0 <= i < arena.len() ==> {
                &&& (#[trigger] self.nodes[i]).name == arena[i].name
                &&& self.nodes[i].path == arena[i].path
                &&& self.nodes[i].is_dir == arena[i].is_dir
                &&& self.nodes[i].size == subtree_size(arena, i)
                &&& children_listed(arena, i, self.nodes[i].children@)
            }
    }
}

/// A child's aggregate is part of its parent's, and every aggregate is part
/// of the root's.
proof fn lemma_children_size_monotone(arena: Seq<ScanNode>, i: int, j: int, k: int)
    requires
        0 <= i < j <= k,
    ensures
        children_size(arena, i, j) >= children_size(arena, i, k),
    decreases k - j,
{
    if j < k {
        lemma_children_size_monotone(arena, i, j + 1, k);
    }
}

proof fn lemma_subtree_below_root(arena: Seq<ScanNode>, m: int)
    requires
        arena_wf(arena),
        0 <= m < arena.len(),
    ensures
        subtree_size(arena, m) <= subtree_size(arena, 0),
    decreases m,
{
    if m > 0 {
        let p = arena[m].parent as int;
        lemma_children_size_monotone(arena, p, p + 1, m);
        assert(children_size(arena, p, m) >= subtree_size(arena, m));
        lemma_subtree_below_root(arena, p);
    }
}

/// The reverse aggregation pass: every child sits right of its parent, so by
/// the time the pass reaches a node, all of its children are already summed.
fn aggregate_sizes(arena: &[ScanNode]) -> (sizes: Vec<u64>)
    requires
        arena_wf(arena@),
        subtree_size(arena@, 0) <= u64::MAX,
    ensures
        sizes@.len() == arena@.len(),
        forall|m: int| 0 <= m < arena@.len() ==> sizes@[m] == subtree_size(arena@, m),
{
    let n = arena.len();
    let mut sizes: Vec<u64> = Vec::with_capacity(n);
    let mut i: usize = 0;
    while i < n
        invariant
            n == arena@.len(),
            i <= n,
            sizes@.len() == i,
            forall|m: int| 0 <= m < i ==> sizes@[m] == own_size(#[trigger] arena@[m]),
        decreases n - i,
    {
        let s = if arena[i].is_dir {
            DIR_ENTRY_SIZE
        } else {
            arena[i].size
        };
        sizes.push(s);
        i += 1;
    }
    let mut k: usize = n - 1;
    while k >= 1
        invariant
            n == arena@.len(),
            arena_wf(arena@),
            subtree_size(arena@, 0) <= u64::MAX,
            k < n,
            sizes@.len() == n,
            forall|m: int|
                0 <= m < n ==> #[trigger] sizes@[m] == own_size(arena@[m]) + children_size(
                    arena@,
                    m,
                    if m + 1 > k + 1 {
                        m + 1
                    } else {
                        k + 1
                    },
                ),
        decreases k,
    {
        let p = arena[k].parent;
        proof {
            let a = arena@;
            assert(a[k as int].parent < k);
            assert(children_size(a, k as int, k as int + 1) + own_size(a[k as int]) == subtree_size(
                a,
                k as int,
            ));
            assert(sizes@[k as int] == subtree_size(a, k as int));
            assert(sizes@[p as int] == own_size(a[p as int]) + children_size(a, p as int, k + 1));
            assert(children_size(a, p as int, k as int) == subtree_size(a, k as int)
                + children_size(a, p as int, k + 1));
            lemma_children_size_monotone(a, p as int, p + 1, k as int);
            lemma_subtree_below_root(a, p as int);
        }
        let add = sizes[k];
        let updated = sizes[p] + add;
        sizes.set(p, updated);
        proof {
            let a = arena@;
            assert forall|m: int| 0 <= m < n implies #[trigger] sizes@[m] == own_size(a[m])
                + children_size(
                a,
                m,
                if m + 1 > k { m + 1 } else { k as int },
            ) by {
                if m < k && m != p {
                    assert(children_size(a, m, k as int) == children_size(a, m, k + 1));
                }
            }
        }
        k -= 1;
    }
    proof {
        assert forall|m: int| 0 <= m < arena@.len() implies sizes@[m] == subtree_size(arena@, m) by {
            assert(sizes@[m] == own_size(arena@[m]) + children_size(arena@, m, m + 1));
        }
    }
    sizes
}


/// `child_ids` lists the children of `m` below `hi`, each once, in
/// increasing order.
proof fn lemma_child_ids(arena: Seq<ScanNode>, m: int, hi: int)
    requires
        hi <= arena.len(),
        arena.len() <= usize::MAX,
    ensures
        forall|k: int|
            0 <= k < child_ids(arena, m, hi).len() ==> 1 <= #[trigger] child_ids(arena, m, hi)[k]
                < hi && arena[child_ids(arena, m, hi)[k] as int].parent == m,
        forall|j: int|
            1 <= j < hi && #[trigger] arena[j].parent == m ==> child_ids(arena, m, hi).contains(
                j as usize,
            ),
        forall|a: int, b: int|
            0 <= a < b < child_ids(arena, m, hi).len() ==> #[trigger] child_ids(arena, m, hi)[a]
                < #[trigger] child_ids(arena, m, hi)[b],
    decreases hi,
{
    if hi > 1 {
        lemma_child_ids(arena, m, hi - 1);
        let prev = child_ids(arena, m, hi - 1);
        let cur = child_ids(arena, m, hi);
        if arena[hi - 1].parent == m {
            assert(cur == prev.push((hi - 1) as usize));
            assert(cur[prev.len() as int] == (hi - 1) as usize);
            assert forall|a: int, b: int| 0 <= a < b < cur.len() implies #[trigger] cur[a]
                < #[trigger] cur[b] by {
                if b == prev.len() {
                    assert(prev[a] < hi - 1);
                } else {
                    assert(prev[a] < prev[b]);
                }
            }
            assert forall|j: int| 1 <= j < hi && #[trigger] arena[j].parent == m implies cur.contains(
                j as usize,
            ) by {
                if j < hi - 1 {
                    let k = choose|k: int| 0 <= k < prev.len() && prev[k] == j as usize;
                    assert(cur[k] == j as usize);
                } else {
                    assert(cur[prev.len() as int] == j as usize);
                }
            }
        } else {
            assert(cur =~= prev);
        }
    }
}

/// Non-strict display order by a size table: larger first, ties by index.
pub open spec fn size_order(sizes: Seq<u64>, a: usize, b: usize) -> bool {
    sizes[a as int] > sizes[b as int] || (sizes[a as int] == sizes[b as int] && a <= b)
}

pub open spec fn sorted_by_size(sizes: Seq<u64>, s: Seq<usize>) -> bool {
    forall|i: int, j: int| 0 <= i < j < s.len() ==> size_order(sizes, #[trigger] s[i], #[trigger] s[j])
}

pub open spec fn indexes_into(sizes: Seq<u64>, s: Seq<usize>) -> bool {
    forall|i: int| 0 <= i < s.len() ==> #[trigger] s[i] < sizes.len()
}

proof fn lemma_skip_multiset(s: Seq<usize>, i: int)
    requires
        0 <= i < s.len(),
    ensures
        s.skip(i).to_multiset() =~= s.skip(i + 1).to_multiset().insert(s[i]),
{
    let t = s.skip(i);
    assert(t.remove(0) =~= s.skip(i + 1));
    assert(t.remove(0).to_multiset() == t.to_multiset().remove(t[0]));
    assert(t.to_multiset().count(t[0]) > 0) by {
        assert(t.contains(t[0]));
    }
}

/// Merges two size-sorted runs into one.
fn merge_by_size(a: Vec<usize>, b: Vec<usize>, sizes: &Vec<u64>) -> (r: Vec<usize>)
    requires
        sorted_by_size(sizes@, a@),
        sorted_by_size(sizes@, b@),
        indexes_into(sizes@, a@),
        indexes_into(sizes@, b@),
    ensures
        sorted_by_size(sizes@, r@),
        indexes_into(sizes@, r@),
        r@.to_multiset() =~= a@.to_multiset().add(b@.to_multiset()),
{
    let mut out: Vec<usize> = Vec::new();
    let mut i: usize = 0;
    let mut j: usize = 0;
    proof {
        assert(a@.skip(0) =~= a@);
        assert(b@.skip(0) =~= b@);
    }
    while i < a.len() || j < b.len()
        invariant
            i <= a@.len(),
            j <= b@.len(),
            sorted_by_size(sizes@, a@),
            sorted_by_size(sizes@, b@),
            indexes_into(sizes@, a@),
            indexes_into(sizes@, b@),
            sorted_by_size(sizes@, out@),
            indexes_into(sizes@, out@),
            out@.to_multiset().add(a@.skip(i as int).to_multiset()).add(
                b@.skip(j as int).to_multiset(),
            ) =~= a@.to_multiset().add(b@.to_multiset()),
            out@.len() > 0 && i < a@.len() ==> size_order(sizes@, out@.last(), a@[i as int]),
            out@.len() > 0 && j < b@.len() ==> size_order(sizes@, out@.last(), b@[j as int]),
        decreases a@.len() - i + b@.len() - j,
    {
        let take_a = if i < a.len() && j < b.len() {
            let x = a[i];
            let y = b[j];
            sizes[x] > sizes[y] || (sizes[x] == sizes[y] && x <= y)
        } else {
            i < a.len()
        };
        let ghost old_out = out@;
        if take_a {
            let x = a[i];
            out.push(x);
            proof {
                lemma_skip_multiset(a@, i as int);
                assert forall|p: int, q: int| 0 <= p < q < out@.len() implies size_order(
                    sizes@,
                    #[trigger] out@[p],
                    #[trigger] out@[q],
                ) by {
                    if q == out@.len() - 1 && p < q {
                        if p < old_out.len() - 1 {
                            assert(size_order(sizes@, old_out[p], old_out.last()));
                        }
                    }
                }
                if i + 1 < a@.len() {
                    assert(size_order(sizes@, a@[i as int], a@[i + 1]));
                }
            }
            i += 1;
        } else {
            let y = b[j];
            out.push(y);
            proof {
                lemma_skip_multiset(b@, j as int);
                assert forall|p: int, q: int| 0 <= p < q < out@.len() implies size_order(
                    sizes@,
                    #[trigger] out@[p],
                    #[trigger] out@[q],
                ) by {
                    if q == out@.len() - 1 && p < q {
                        if p < old_out.len() - 1 {
                            assert(size_order(sizes@, old_out[p], old_out.last()));
                        }
                    }
                }
                if j + 1 < b@.len() {
                    assert(size_order(sizes@, b@[j as int], b@[j + 1]));
                }
            }
            j += 1;
        }
    }
    proof {
        assert(a@.skip(i as int) =~= Seq::<usize>::empty());
        assert(b@.skip(j as int) =~= Seq::<usize>::empty());
    }
    out
}

/// Sorts indices by the size table: larger first, equal sizes by index.
fn sort_by_size(v: Vec<usize>, sizes: &Vec<u64>) -> (r: Vec<usize>)
    requires
        indexes_into(sizes@, v@),
    ensures
        sorted_by_size(sizes@, r@),
        indexes_into(sizes@, r@),
        r@.to_multiset() =~= v@.to_multiset(),
    decreases v@.len(),
{
    if v.len() <= 1 {
        return v;
    }
    let mut left = v;
    let ghost whole = left@;
    let mid = left.len() / 2;
    let right = left.split_off(mid);
    proof {
        assert(whole =~= left@ + right@);
        lemma_multiset_commutative(left@, right@);
    }
    let l = sort_by_size(left, sizes);
    let r = sort_by_size(right, sizes);
    merge_by_size(l, r, sizes)
}

/// Indices sorted by the size table, as node ids.
fn to_node_ids(ids: &Vec<usize>) -> (r: Vec<NodeId>)
    ensures
        r@.len() == ids@.len(),
        forall|k: int| 0 <= k < ids@.len() ==> (#[trigger] r@[k]).0 == ids@[k],
{
    let mut r: Vec<NodeId> = Vec::with_capacity(ids.len());
    let mut k: usize = 0;
    while k < ids.len()
        invariant
            k <= ids@.len(),
            r@.len() == k,
            forall|q: int| 0 <= q < k ==> (#[trigger] r@[q]).0 == ids@[q],
        decreases ids@.len() - k,
    {
        r.push(NodeId(ids[k]));
        k += 1;
    }
    r
}

/// The sorted children of `m`, given its children in arena order.
proof fn lemma_sorted_children(
    arena: Seq<ScanNode>,
    sizes: Seq<u64>,
    m: int,
    sorted: Seq<usize>,
    kids: Seq<NodeId>,
)
    requires
        arena_wf(arena),
        arena.len() <= usize::MAX,
        sizes.len() == arena.len(),
        forall|q: int| 0 <= q < arena.len() ==> sizes[q] == subtree_size(arena, q),
        sorted_by_size(sizes, sorted),
        sorted.to_multiset() =~= child_ids(arena, m, arena.len() as int).to_multiset(),
        kids.len() == sorted.len(),
        forall|k: int| 0 <= k < sorted.len() ==> (#[trigger] kids[k]).0 == sorted[k],
    ensures
        children_listed(arena, m, kids),
{
    let ids = child_ids(arena, m, arena.len() as int);
    lemma_child_ids(arena, m, arena.len() as int);
    assert(ids.no_duplicates()) by {
        assert forall|a: int, b: int| 0 <= a < ids.len() && 0 <= b < ids.len() && a != b implies ids[a]
            != ids[b] by {
            if a < b {
                assert(ids[a] < ids[b]);
            } else {
                assert(ids[b] < ids[a]);
            }
        }
    }
    ids.lemma_multiset_has_no_duplicates();
    sorted.lemma_multiset_has_no_duplicates_conv();
    assert forall|k: int| 0 <= k < kids.len() implies 1 <= (#[trigger] kids[k]).0 < arena.len()
        && arena[kids[k].0 as int].parent == m by {
        assert(sorted.contains(sorted[k]));
        assert(sorted.to_multiset().count(sorted[k]) > 0);
        assert(ids.to_multiset().count(sorted[k]) > 0);
        assert(ids.contains(sorted[k]));
        let q = choose|q: int| 0 <= q < ids.len() && ids[q] == sorted[k];
        assert(ids[q] == sorted[k]);
    }
    assert forall|j: int| 1 <= j < arena.len() && #[trigger] arena[j].parent == m implies kids.contains(
        NodeId(j as usize),
    ) by {
        assert(ids.contains(j as usize));
        assert(ids.to_multiset().count(j as usize) > 0);
        assert(sorted.to_multiset().count(j as usize) > 0);
        assert(sorted.contains(j as usize));
        let q = choose|q: int| 0 <= q < sorted.len() && sorted[q] == j as usize;
        assert(kids[q] == NodeId(j as usize));
    }
    assert forall|a: int, b: int| 0 <= a < b < kids.len() implies shown_before(
        arena,
        (#[trigger] kids[a]).0 as int,
        (#[trigger] kids[b]).0 as int,
    ) by {
        assert(size_order(sizes, sorted[a], sorted[b]));
        assert(sorted[a] != sorted[b]);
        assert(sorted.contains(sorted[a]));
        assert(sorted.contains(sorted[b]));
        assert(sorted.to_multiset().count(sorted[a]) > 0);
        assert(sorted.to_multiset().count(sorted[b]) > 0);
    }
}

impl FsTree {
    /// Builds a tree snapshot from a (possibly partially filled) arena.
    /// The arena must hold the root, which the scanner places there first,
    /// and its total size must fit the size type.
    pub fn from_arena(arena: &[ScanNode]) -> (tree: FsTree)
        requires
            arena_wf(arena@),
            subtree_size(arena@, 0) <= u64::MAX,
        ensures
            tree.built_from(arena@),
            tree.wf(),
    {
        let n = arena.len();
        let sizes = aggregate_sizes(arena);
        let mut kids: Vec<Vec<usize>> = Vec::with_capacity(n);
        let mut i: usize = 0;
        while i < n
            invariant
                n == arena@.len(),
                i <= n,
                kids@.len() == i,
                forall|m: int| 0 <= m < i ==> (#[trigger] kids@[m])@ == child_ids(arena@, m, 1),
            decreases n - i,
        {
            kids.push(Vec::new());
            i += 1;
        }
        let mut i: usize = 1;
        while i < n
            invariant
                n == arena@.len(),
                arena_wf(arena@),
                1 <= i <= n,
                kids@.len() == n,
                forall|m: int| 0 <= m < n ==> (#[trigger] kids@[m])@ == child_ids(arena@, m, i as int),
            decreases n - i,
        {
            let p = arena[i].parent;
            kids[p].push(i);
            proof {
                assert forall|m: int| 0 <= m < n implies (#[trigger] kids@[m])@ == child_ids(
                    arena@,
                    m,
                    i + 1,
                ) by {
                    if m == p {
                        assert(child_ids(arena@, m, i + 1) =~= child_ids(arena@, m, i as int).push(
                            i,
                        ));
                    } else {
                        assert(child_ids(arena@, m, i + 1) =~= child_ids(arena@, m, i as int));
                    }
                }
            }
            i += 1;
        }
        let mut nodes: Vec<FsNode> = Vec::with_capacity(n);
        let mut m: usize = 0;
        while m < n
            invariant
                n == arena@.len(),
                arena_wf(arena@),
                m <= n,
                kids@.len() == n,
                sizes@.len() == n,
                forall|q: int| 0 <= q < n ==> sizes@[q] == subtree_size(arena@, q),
                forall|q: int| m <= q < n ==> (#[trigger] kids@[q])@ == child_ids(arena@, q, n as int),
                nodes@.len() == m,
                forall|q: int|
                    0 <= q < m ==> {
                        &&& (#[trigger] nodes@[q]).name == arena@[q].name
                        &&& nodes@[q].path == arena@[q].path
                        &&& nodes@[q].is_dir == arena@[q].is_dir
                        &&& nodes@[q].size == subtree_size(arena@, q)
                        &&& children_listed(arena@, q, nodes@[q].children@)
                    },
            decreases n - m,
        {
            let mut ids: Vec<usize> = Vec::new();
            std::mem::swap(&mut kids[m], &mut ids);
            proof {
                lemma_child_ids(arena@, m as int, n as int);
                assert(indexes_into(sizes@, ids@));
            }
            let sorted = sort_by_size(ids, &sizes);
            let children = to_node_ids(&sorted);
            proof {
                lemma_sorted_children(arena@, sizes@, m as int, sorted@, children@);
            }
            let node = &arena[m];
            nodes.push(
                FsNode {
                    name: node.name.clone(),
                    path: node.path.clone(),
                    size: sizes[m],
                    is_dir: node.is_dir,
                    children,
                },
            );
            m += 1;
        }
        let tree = FsTree { nodes, root: NodeId(0) };
        proof {
            assert forall|i: int, k: int|
                0 <= i < tree.nodes.len() && 0 <= k < tree.nodes[i].children.len() implies (
                #[trigger] tree.nodes[i].children[k]).0 < tree.nodes.len() by {
                assert(children_listed(arena@, i, tree.nodes@[i].children@));
                assert(tree.nodes@[i].children@[k] == tree.nodes[i].children[k]);
            }
        }
        tree
    }
}

/// `a` less `hits` subtractions of `removed`, each clamped at zero.
pub open spec fn trimmed_size(a: u64, removed: u64, hits: nat) -> u64 {
    if a >= hits * removed {
        (a - hits * removed) as u64
    } else {
        0
    }
}

/// `new` is `old` with the first occurrence of `x` taken out.
pub open spec fn first_removed(old: Seq<NodeId>, new: Seq<NodeId>, x: NodeId) -> bool {
    exists|pos: int|
        0 <= pos < old.len() && old[pos] == x && (forall|q: int| 0 <= q < pos ==> old[q] != x)
            && new == old.remove(pos)
}

/// How `remove_child` leaves the tree once it found `child` under `parent`:
/// the child is unlinked from `parent`, and its size is subtracted
/// (clamped at zero) from `parent` once and from every entry of `ancestors`
/// as often as the entry occurs. Nothing else changes.
pub open spec fn child_removed(
    old: FsTree,
    new: FsTree,
    parent: NodeId,
    child: NodeId,
    ancestors: Seq<NodeId>,
) -> bool {
    let removed = old.nodes[child.0 as int].size;
    &&& new.root == old.root
    &&& new.nodes.len() == old.nodes.len()
    &&& first_removed(
        old.nodes[parent.0 as int].children@,
        new.nodes[parent.0 as int].children@,
        child,
    )
    &&& forall|x: int|
        0 <= x < old.nodes.len() ==> {
            &&& (#[trigger] new.nodes[x]).name == old.nodes[x].name
            &&& new.nodes[x].path == old.nodes[x].path
            &&& new.nodes[x].is_dir == old.nodes[x].is_dir
            &&& x != parent.0 ==> new.nodes[x].children == old.nodes[x].children
            &&& new.nodes[x].size == trimmed_size(
                old.nodes[x].size,
                removed,
                ancestors.to_multiset().count(NodeId(x as usize)) + if x == parent.0 {
                    1nat
                } else {
                    0nat
                },
            )
        }
}

proof fn lemma_trim_once_more(a: u64, removed: u64, hits: nat)
    ensures
        trimmed_size(a, removed, hits + 1) == if trimmed_size(a, removed, hits) >= removed {
            (trimmed_size(a, removed, hits) - removed) as u64
        } else {
            0u64
        },
{
    assert((hits + 1) * removed == hits * removed + removed) by (nonlinear_arith);
    assert(hits * removed >= 0) by (nonlinear_arith);
}

impl FsTree {
    /// The node with this id.
    pub fn node(&self, id: NodeId) -> (node: &FsNode)
        requires
            id.0 < self.nodes.len(),
        ensures
            *node == self.nodes[id.0 as int],
    {
        &self.nodes[id.0]
    }

    /// Whether every child id and the root name a node of the tree.
    pub fn is_well_formed(&self) -> (r: bool)
        ensures
            r == self.wf(),
    {
        let n = self.nodes.len();
        if self.root.0 >= n {
            return false;
        }
        let mut i: usize = 0;
        while i < n
            invariant
                n == self.nodes.len(),
                i <= n,
                forall|a: int, k: int|
                    0 <= a < i && 0 <= k < self.nodes[a].children.len() ==> (
                    #[trigger] self.nodes[a].children[k]).0 < n,
            decreases n - i,
        {
            let kids = &self.nodes[i].children;
            let mut k: usize = 0;
            while k < kids.len()
                invariant
                    n == self.nodes.len(),
                    i < n,
                    kids == self.nodes[i as int].children,
                    k <= kids.len(),
                    forall|q: int| 0 <= q < k ==> (#[trigger] kids[q]).0 < n,
                decreases kids.len() - k,
            {
                if kids[k].0 >= n {
                    proof {
                        assert(self.nodes[i as int].children[k as int].0 >= n);
                    }
                    return false;
                }
                k += 1;
            }
            i += 1;
        }
        true
    }

    /// Removes a direct child of `parent` (after a successful filesystem
    /// delete) and subtracts its size from `parent` and from every node in
    /// `ancestors`, the navigation chain from the root down to `parent`,
    /// excluding `parent` itself (its size is adjusted here already).
    /// Subtraction clamps at zero, so a broken ancestor list cannot wrap a
    /// size around. Returns `false`, changing nothing, if `child` is not a
    /// direct child of `parent`.
    pub fn remove_child(&mut self, parent: NodeId, child: NodeId, ancestors: &[NodeId]) -> (removed:
        bool)
        requires
            old(self).wf(),
            parent.0 < old(self).nodes.len(),
            forall|k: int| 0 <= k < ancestors@.len() ==> (#[trigger] ancestors@[k]).0 < old(self).nodes.len(),
            !ancestors@.contains(parent),
        ensures
            final(self).wf(),
            removed == old(self).nodes[parent.0 as int].children@.contains(child),
            !removed ==> *final(self) == *old(self),
            removed ==> child_removed(*old(self), *final(self), parent, child, ancestors@),
    {
        let p = parent.0;
        let count = self.nodes[p].children.len();
        let mut position: usize = 0;
        while position < count
            invariant
                count == self.nodes[p as int].children@.len(),
                position <= count,
                p < self.nodes.len(),
                forall|q: int| 0 <= q < position ==> self.nodes[p as int].children@[q] != child,
            ensures
                position <= count,
                forall|q: int| 0 <= q < position ==> self.nodes[p as int].children@[q] != child,
                position < count ==> self.nodes[p as int].children@[position as int].0 == child.0,
            decreases count - position,
        {
            if self.nodes[p].children[position].0 == child.0 {
                break;
            }
            position += 1;
        }
        if position == count {
            proof {
                assert forall|q: int| 0 <= q < count implies self.nodes[p as int].children@[q]
                    != child by {}
            }
            return false;
        }
        let ghost old_tree = *self;
        proof {
            assert(self.nodes[p as int].children@[position as int] == child);
            assert(self.nodes[p as int].children@.contains(child));
            assert(old_tree.nodes[p as int].children[position as int].0 < old_tree.nodes.len());
        }
        let removed = self.nodes[child.0].size;
        self.nodes[p].children.remove(position);
        let parent_size = self.nodes[p].size;
        self.nodes[p].size = parent_size.saturating_sub(removed);
        let ghost mid = *self;
        proof {
            assert(first_removed(
                old_tree.nodes[p as int].children@,
                mid.nodes[p as int].children@,
                child,
            ));
            assert(ancestors@.take(0) =~= Seq::<NodeId>::empty());
            assert(ancestors@.take(0).to_multiset() =~= vstd::multiset::Multiset::<NodeId>::empty());
            assert forall|x: int| 0 <= x < old_tree.nodes.len() implies trimmed_size(
                #[trigger] mid.nodes[x].size,
                removed,
                0,
            ) == mid.nodes[x].size by {}
        }
        let mut k: usize = 0;
        while k < ancestors.len()
            invariant
                k <= ancestors@.len(),
                p < old_tree.nodes.len(),
                self.nodes.len() == old_tree.nodes.len(),
                self.root == old_tree.root,
                mid.nodes.len() == old_tree.nodes.len(),
                mid.nodes[p as int].size == trimmed_size(old_tree.nodes[p as int].size, removed, 1),
                forall|x: int| 0 <= x < old_tree.nodes.len() && x != p ==> (#[trigger] mid.nodes[x]) == old_tree.nodes[x],
                forall|q: int| 0 <= q < ancestors@.len() ==> (#[trigger] ancestors@[q]).0 < old_tree.nodes.len(),
                !ancestors@.contains(parent),
                parent.0 == p,
                forall|x: int|
                    0 <= x < old_tree.nodes.len() ==> {
                        &&& (#[trigger] self.nodes[x]).name == mid.nodes[x].name
                        &&& self.nodes[x].path == mid.nodes[x].path
                        &&& self.nodes[x].is_dir == mid.nodes[x].is_dir
                        &&& self.nodes[x].children == mid.nodes[x].children
                        &&& self.nodes[x].size == trimmed_size(
                            mid.nodes[x].size,
                            removed,
                            ancestors@.take(k as int).to_multiset().count(NodeId(x as usize)),
                        )
                    },
            decreases ancestors@.len() - k,
        {
            let a = ancestors[k].0;
            let size = self.nodes[a].size;
            self.nodes[a].size = size.saturating_sub(removed);
            proof {
                assert(ancestors@.take(k + 1) =~= ancestors@.take(k as int).push(ancestors@[k as int]));
                assert forall|x: int| 0 <= x < old_tree.nodes.len() implies (#[trigger] self.nodes[x]).size
                    == trimmed_size(
                    mid.nodes[x].size,
                    removed,
                    ancestors@.take(k + 1).to_multiset().count(NodeId(x as usize)),
                ) by {
                    let h = ancestors@.take(k as int).to_multiset().count(NodeId(x as usize));
                    lemma_trim_once_more(mid.nodes[x].size, removed, h);
                    if x == a {
                        assert(NodeId(x as usize) == ancestors@[k as int]);
                    }
                }
            }
            k += 1;
        }
        proof {
            assert(ancestors@.take(ancestors@.len() as int) =~= ancestors@);
            let new_tree = *self;
            assert forall|x: int| 0 <= x < old_tree.nodes.len() implies (#[trigger] new_tree.nodes[x]).size
                == trimmed_size(
                old_tree.nodes[x].size,
                removed,
                ancestors@.to_multiset().count(NodeId(x as usize)) + if x == parent.0 {
                    1nat
                } else {
                    0nat
                },
            ) by {
                if x == p {
                    assert(!ancestors@.contains(NodeId(x as usize)));
                    assert(ancestors@.to_multiset().count(NodeId(x as usize)) == 0);
                    assert(trimmed_size(mid.nodes[x].size, removed, 0) == mid.nodes[x].size);
                } else {
                    assert(mid.nodes[x] == old_tree.nodes[x]);
                }
            }
            assert forall|i: int, j: int|
                0 <= i < new_tree.nodes.len() && 0 <= j < new_tree.nodes[i].children.len() implies (
                #[trigger] new_tree.nodes[i].children[j]).0 < new_tree.nodes.len() by {
                if i == p {
                    let pos = position as int;
                    let oc = old_tree.nodes[p as int].children@;
                    assert(new_tree.nodes[i].children@ == oc.remove(pos));
                    if j < pos {
                        assert(new_tree.nodes[i].children@[j] == oc[j]);
                        assert(old_tree.nodes[p as int].children[j].0 < old_tree.nodes.len());
                    } else {
                        assert(new_tree.nodes[i].children@[j] == oc[j + 1]);
                        assert(old_tree.nodes[p as int].children[j + 1].0 < old_tree.nodes.len());
                    }
                } else {
                    assert(new_tree.nodes[i].children == old_tree.nodes[i].children);
                    assert(old_tree.nodes[i].children[j].0 < old_tree.nodes.len());
                }
            }
        }
        true
    }
}

proof fn lemma_prefix_subtree(a1: Seq<ScanNode>, a2: Seq<ScanNode>, i: int)
    requires
        a1.len() <= a2.len(),
        a1 == a2.take(a1.len() as int),
    ensures
        subtree_size(a1, i) <= subtree_size(a2, i),
    decreases a2.len() - i, a2.len() + 1,
{
    if 0 <= i < a1.len() {
        lemma_prefix_children(a1, a2, i, i + 1);
    }
}

proof fn lemma_prefix_children(a1: Seq<ScanNode>, a2: Seq<ScanNode>, i: int, j: int)
    requires
        a1.len() <= a2.len(),
        a1 == a2.take(a1.len() as int),
    ensures
        children_size(a1, i, j) <= children_size(a2, i, j),
    decreases a2.len() - i, a2.len() - j,
{
    if 0 <= i < j < a1.len() {
        assert(a1[j] == a2[j]);
        if a1[j].parent == i {
            lemma_prefix_subtree(a1, a2, j);
        }
        lemma_prefix_children(a1, a2, i, j + 1);
    }
}

/// A snapshot taken mid-scan stays meaningful in every later snapshot: each
/// node id names the same entry, folder sizes only grow, and every child
/// shown earlier is still shown.
pub proof fn law_snapshot_ids_stay_valid(
    early: FsTree,
    late: FsTree,
    early_arena: Seq<ScanNode>,
    late_arena: Seq<ScanNode>,
)
    requires
        early.built_from(early_arena),
        late.built_from(late_arena),
        early_arena.len() <= late_arena.len(),
        early_arena == late_arena.take(early_arena.len() as int),
    ensures
        forall|j: int|
            0 <= j < early.nodes.len() ==> {
                &&& (#[trigger] early.nodes[j]).name == late.nodes[j].name
                &&& early.nodes[j].path == late.nodes[j].path
                &&& early.nodes[j].is_dir == late.nodes[j].is_dir
                &&& early.nodes[j].size <= late.nodes[j].size
                &&& forall|c: NodeId|
                    early.nodes[j].children@.contains(c) ==> late.nodes[j].children@.contains(c)
            },
{
    assert forall|j: int| 0 <= j < early.nodes.len() implies {
        &&& (#[trigger] early.nodes[j]).name == late.nodes[j].name
        &&& early.nodes[j].path == late.nodes[j].path
        &&& early.nodes[j].is_dir == late.nodes[j].is_dir
        &&& early.nodes[j].size <= late.nodes[j].size
        &&& forall|c: NodeId|
            early.nodes[j].children@.contains(c) ==> late.nodes[j].children@.contains(c)
    } by {
        assert(early_arena[j] == late_arena[j]);
        lemma_prefix_subtree(early_arena, late_arena, j);
        assert forall|c: NodeId| early.nodes[j].children@.contains(c) implies late.nodes[j].children@.contains(
            c,
        ) by {
            let kids = early.nodes[j].children@;
            let k = choose|k: int| 0 <= k < kids.len() && kids[k] == c;
            assert(1 <= kids[k].0 < early_arena.len());
            assert(early_arena[c.0 as int] == late_arena[c.0 as int]);
            assert(late_arena[c.0 as int].parent == j);
            assert(NodeId(c.0 as usize) == c);
        }
    }
}

/// Whether `i` is `j` itself or one of its ancestors.
pub open spec fn reaches(arena: Seq<ScanNode>, i: int, j: int) -> bool
    decreases j,
{
    if j == i {
        true
    } else if i < j && 0 < j < arena.len() && (arena[j].parent as int) < j {
        reaches(arena, i, arena[j].parent as int)
    } else {
        false
    }
}

/// The node on `j`'s chain of ancestors whose parent is `i`; -1 when there
/// is none.
spec fn child_towards(arena: Seq<ScanNode>, i: int, j: int) -> int
    decreases j,
{
    if 0 < j < arena.len() && (arena[j].parent as int) < j {
        if arena[j].parent as int == i {
            j
        } else if i < arena[j].parent as int {
            child_towards(arena, i, arena[j].parent as int)
        } else {
            -1
        }
    } else {
        -1
    }
}

/// The sum of the own sizes of the first `n` entries.
pub open spec fn entries_size(arena: Seq<ScanNode>, n: int) -> nat
    decreases n,
{
    if n <= 0 {
        0
    } else {
        entries_size(arena, n - 1) + own_size(arena[n - 1])
    }
}

proof fn lemma_reaches_le(arena: Seq<ScanNode>, i: int, j: int)
    requires
        reaches(arena, i, j),
    ensures
        i <= j,
    decreases j,
{
    if j != i {
        lemma_reaches_le(arena, i, arena[j].parent as int);
    }
}

proof fn lemma_child_towards(arena: Seq<ScanNode>, i: int, j: int)
    requires
        0 <= i,
    ensures
        child_towards(arena, i, j) >= 0 ==> {
            let k = child_towards(arena, i, j);
            &&& i < k <= j
            &&& k < arena.len()
            &&& arena[k].parent == i
            &&& reaches(arena, k, j)
        },
    decreases j,
{
    if 0 < j < arena.len() && (arena[j].parent as int) < j {
        let p = arena[j].parent as int;
        if p != i && i < p {
            lemma_child_towards(arena, i, p);
        }
    }
}

proof fn lemma_child_towards_unique(arena: Seq<ScanNode>, i: int, k: int, j: int)
    requires
        0 <= i < k < arena.len(),
        arena[k].parent == i,
        reaches(arena, k, j),
    ensures
        child_towards(arena, i, j) == k,
    decreases j,
{
    if j != k {
        let p = arena[j].parent as int;
        lemma_reaches_le(arena, k, p);
        lemma_child_towards_unique(arena, i, k, p);
    }
}

proof fn lemma_reaches_through_child(arena: Seq<ScanNode>, i: int, k: int, j: int)
    requires
        0 <= i < k < arena.len(),
        arena[k].parent == i,
        reaches(arena, k, j),
    ensures
        reaches(arena, i, j),
    decreases j,
{
    if j == k {
        assert(reaches(arena, i, i));
    } else {
        let p = arena[j].parent as int;
        lemma_reaches_le(arena, k, p);
        lemma_reaches_through_child(arena, i, k, p);
    }
}

proof fn lemma_reaches_has_child(arena: Seq<ScanNode>, i: int, j: int)
    requires
        0 <= i < j,
        reaches(arena, i, j),
    ensures
        child_towards(arena, i, j) >= 0,
    decreases j,
{
    let p = arena[j].parent as int;
    if p != i {
        lemma_reaches_le(arena, i, p);
        lemma_reaches_has_child(arena, i, p);
    }
}

proof fn lemma_root_reaches(arena: Seq<ScanNode>, j: int)
    requires
        arena_wf(arena),
        0 <= j < arena.len(),
    ensures
        reaches(arena, 0, j),
    decreases j,
{
    if j > 0 {
        lemma_root_reaches(arena, arena[j].parent as int);
    }
}

/// Dropping the last entry takes its own size out of exactly the aggregates
/// of its ancestors.
proof fn lemma_last_subtree(arena: Seq<ScanNode>, i: int)
    requires
        0 <= i < arena.len() - 1,
    ensures
        subtree_size(arena, i) == subtree_size(arena.take(arena.len() - 1), i) + if reaches(
            arena,
            i,
            arena.len() - 1,
        ) {
            own_size(arena[arena.len() - 1])
        } else {
            0
        },
    decreases arena.len() - i, arena.len() + 1,
{
    let last = arena.len() - 1;
    let rest = arena.take(last);
    assert(rest[i] == arena[i]);
    lemma_last_children(arena, i, i + 1);
    lemma_child_towards(arena, i, last);
    let k = child_towards(arena, i, last);
    if reaches(arena, i, last) {
        lemma_reaches_has_child(arena, i, last);
    }
    if k >= 0 {
        lemma_reaches_through_child(arena, i, k, last);
    }
}

proof fn lemma_last_children(arena: Seq<ScanNode>, i: int, j: int)
    requires
        0 <= i < j <= arena.len() - 1,
    ensures
        children_size(arena, i, j) == children_size(arena.take(arena.len() - 1), i, j) + if j
            <= child_towards(arena, i, arena.len() - 1) {
            own_size(arena[arena.len() - 1])
        } else {
            0
        },
    decreases arena.len() - i, arena.len() - j,
{
    let last = arena.len() - 1;
    let rest = arena.take(last);
    lemma_child_towards(arena, i, last);
    let k = child_towards(arena, i, last);
    if j == last {
        assert(children_size(arena, last, last + 1) == 0);
        assert(subtree_size(arena, last) == own_size(arena[last]));
        assert(children_size(arena, i, last + 1) == 0);
        assert(children_size(rest, i, j) == 0);
    } else {
        assert(rest[j] == arena[j]);
        lemma_last_children(arena, i, j + 1);
        if arena[j].parent == i {
            lemma_last_subtree(arena, j);
            if reaches(arena, j, last) {
                lemma_child_towards_unique(arena, i, j, last);
            }
        }
    }
}

proof fn lemma_entries_prefix(a1: Seq<ScanNode>, a2: Seq<ScanNode>, m: int)
    requires
        m <= a1.len() <= a2.len(),
        a1 == a2.take(a1.len() as int),
    ensures
        entries_size(a1, m) == entries_size(a2, m),
    decreases m,
{
    if m > 0 {
        assert(a1[m - 1] == a2[m - 1]);
        lemma_entries_prefix(a1, a2, m - 1);
    }
}

proof fn lemma_entries_monotone(arena: Seq<ScanNode>, m: int, n: int)
    requires
        m <= n,
    ensures
        entries_size(arena, m) <= entries_size(arena, n),
    decreases n - m,
{
    if m < n {
        lemma_entries_monotone(arena, m, n - 1);
    }
}

/// Every entry counts once in the root's size: the root's aggregate is the
/// sum of the own sizes of all the entries of the arena.
pub proof fn law_root_size_is_total(arena: Seq<ScanNode>)
    requires
        arena_wf(arena),
    ensures
        subtree_size(arena, 0) == entries_size(arena, arena.len() as int),
    decreases arena.len(),
{
    let n = arena.len() as int;
    if n == 1 {
        assert(children_size(arena, 0, 1) == 0);
        assert(entries_size(arena, 0) == 0);
    } else {
        let last = n - 1;
        let rest = arena.take(last);
        assert(arena_wf(rest)) by {
            assert forall|i: int| 1 <= i < rest.len() implies #[trigger] rest[i].parent < i by {
                assert(rest[i] == arena[i]);
            }
        }
        law_root_size_is_total(rest);
        lemma_entries_prefix(rest, arena, last);
        lemma_root_reaches(arena, last);
        lemma_last_subtree(arena, 0);
        assert(entries_size(arena, n) == entries_size(arena, last) + own_size(arena[last]));
    }
}

impl FsTree {
    /// The snapshot of `arena` when it holds a root with every other entry
    /// after its parent and its total size fits the size type; `None`
    /// otherwise.
    pub fn try_from_arena(arena: &[ScanNode]) -> (r: Option<FsTree>)
        ensures
            match r {
                Some(tree) => {
                    &&& arena_wf(arena@)
                    &&& subtree_size(arena@, 0) <= u64::MAX
                    &&& tree.built_from(arena@)
                    &&& tree.wf()
                },
                None => !(arena_wf(arena@) && subtree_size(arena@, 0) <= u64::MAX),
            },
    {
        let n = arena.len();
        if n == 0 {
            return None;
        }
        let mut total: u64 = 0;
        let mut i: usize = 0;
        while i < n
            invariant
                n == arena@.len(),
                0 < n,
                i <= n,
                total == entries_size(arena@, i as int),
                forall|k: int| 1 <= k < i ==> #[trigger] arena@[k].parent < k,
            decreases n - i,
        {
            if i > 0 && arena[i].parent >= i {
                return None;
            }
            let own: u64 = if arena[i].is_dir {
                DIR_ENTRY_SIZE
            } else {
                arena[i].size
            };
            match total.checked_add(own) {
                Some(sum) => total = sum,
                None => {
                    proof {
                        if arena_wf(arena@) {
                            law_root_size_is_total(arena@);
                            lemma_entries_monotone(arena@, i + 1, n as int);
                        }
                    }
                    return None;
                },
            }
            i += 1;
        }
        proof {
            law_root_size_is_total(arena@);
        }
        Some(FsTree::from_arena(arena))
    }
}

} // verus!
