//! Building and traversing the flattened bounding-volume hierarchy.
//!
//! The tree is built top-down over the current shape list — every shape
//! becomes one leaf, in insertion order — and is emitted directly in the
//! flattened preorder encoding of `ShapeBVHNode`: descend into `entry` when
//! a node's box is hit, jump to `exit` otherwise, and a negative `entry`
//! yields the leaf shape `!entry`.  The whole array is rebuilt from the
//! shape list each time lighting is computed and owns no state across
//! frames.

use vstd::prelude::*;

verus! {

use crate::shape::{Aabb, ShapeBVHNode, ShapeData};

/// Hard cap on the number of shapes a hierarchy is built over.
pub const MAX_SHAPES: usize = 4096;

/// Is this node a leaf?
pub open spec fn is_leaf(n: ShapeBVHNode) -> bool {
    n.entry < 0
}

/// The shape index a leaf stands for: the bitwise negation of `entry`.
pub open spec fn leaf_shape(n: ShapeBVHNode) -> int {
    -n.entry - 1
}

/// The shape indices of the leaves of `s`, in node order.
pub open spec fn leaves_of(s: Seq<ShapeBVHNode>) -> Seq<int>
    decreases s.len(),
{
    if s.len() == 0 {
        Seq::empty()
    } else if is_leaf(s[0]) {
        seq![leaf_shape(s[0])] + leaves_of(s.drop_first())
    } else {
        leaves_of(s.drop_first())
    }
}

/// The leaves of a one-node sequence.
pub proof fn lemma_leaves_of_singleton(nd: ShapeBVHNode)
    ensures
        leaves_of(seq![nd]) == if is_leaf(nd) { seq![leaf_shape(nd)] } else { Seq::<int>::empty() },
{
    let s = seq![nd];
    assert(s.drop_first() =~= Seq::<ShapeBVHNode>::empty());
    assert(leaves_of(Seq::<ShapeBVHNode>::empty()) == Seq::<int>::empty());
    if is_leaf(nd) {
        assert(leaves_of(s) =~= seq![leaf_shape(nd)]);
    } else {
        assert(leaves_of(s) =~= Seq::<int>::empty());
    }
}

/// Leaf extraction distributes over concatenation.
pub proof fn lemma_leaves_of_concat(a: Seq<ShapeBVHNode>, b: Seq<ShapeBVHNode>)
    ensures
        leaves_of(a + b) == leaves_of(a) + leaves_of(b),
    decreases a.len(),
{
    if a.len() == 0 {
        assert(a + b =~= b);
        assert(leaves_of(a) + leaves_of(b) =~= leaves_of(b));
    } else {
        lemma_leaves_of_concat(a.drop_first(), b);
        assert((a + b).drop_first() =~= a.drop_first() + b);
        if is_leaf(a[0]) {
            assert(leaves_of(a + b) =~= leaves_of(a) + leaves_of(b));
        }
    }
}

/// Extending a prefix by one node appends that node's leaf, if it is one.
pub proof fn lemma_leaves_of_step(s: Seq<ShapeBVHNode>, i: int)
    requires
        0 <= i < s.len(),
    ensures
        leaves_of(s.subrange(0, i + 1)) == leaves_of(s.subrange(0, i))
            + if is_leaf(s[i]) { seq![leaf_shape(s[i])] } else { Seq::<int>::empty() },
{
    assert(s.subrange(0, i + 1) =~= s.subrange(0, i) + seq![s[i]]);
    lemma_leaves_of_concat(s.subrange(0, i), seq![s[i]]);
    lemma_leaves_of_singleton(s[i]);
    if !is_leaf(s[i]) {
        assert(leaves_of(s.subrange(0, i)) + Seq::<int>::empty() =~= leaves_of(s.subrange(0, i)));
    }
}

/// `links_wf` for one node at position `i`: an internal node's first child
/// sits right after it and its `exit` strictly grows, while a leaf's
/// subtree is itself, so its `exit` is the next node.
pub open spec fn links_wf_at(nd: ShapeBVHNode, i: int, n_shapes: int) -> bool {
    &&& (is_leaf(nd) ==> nd.exit == i + 1 && 0 <= leaf_shape(nd) < n_shapes)
    &&& (!is_leaf(nd) ==> nd.entry == i + 1 && i + 1 < nd.exit)
}

/// Link well-formedness for the nodes from `n0` on, with every `exit`
/// capped by the sequence end.
pub open spec fn links_wf_range(nodes: Seq<ShapeBVHNode>, n0: int, n_shapes: int) -> bool {
    forall|i: int| n0 <= i < nodes.len()
        ==> links_wf_at(#[trigger] nodes[i], i, n_shapes) && nodes[i].exit <= nodes.len()
}

/// Subtree spans nest for the nodes from `n0` on: a node inside another's
/// span ends within that span.
pub open spec fn spans_nested_range(nodes: Seq<ShapeBVHNode>, n0: int) -> bool {
    forall|i: int, j: int| #![trigger nodes[i], nodes[j]]
        n0 <= i < j < nodes.len() && j < nodes[i].exit ==> nodes[j].exit <= nodes[i].exit
}

/// Every box contains the boxes of all nodes in its span — in particular
/// each leaf's box is inside every ancestor's box up to the root.
pub open spec fn boxes_contained_range(nodes: Seq<ShapeBVHNode>, n0: int) -> bool {
    forall|i: int, j: int| #![trigger nodes[i], nodes[j]]
        n0 <= i < j < nodes.len() && j < nodes[i].exit
            ==> nodes[i].aabb.contains_box(nodes[j].aabb)
}

/// Each leaf's box from `n0` on is exactly its shape's bounding box.
pub open spec fn leaf_boxes_exact_range(
    nodes: Seq<ShapeBVHNode>, n0: int, shapes: Seq<ShapeData>,
) -> bool {
    forall|i: int| n0 <= i < nodes.len() && is_leaf(#[trigger] nodes[i]) ==> {
        &&& 0 <= leaf_shape(nodes[i]) < shapes.len()
        &&& nodes[i].aabb == shapes[leaf_shape(nodes[i])].aabb_spec()
    }
}

/// The full well-formedness of a hierarchy built over `shapes`: a binary
/// tree flattened in preorder, one leaf per shape in insertion order, each
/// box containing every box in its subtree.
pub open spec fn bvh_wf(nodes: Seq<ShapeBVHNode>, shapes: Seq<ShapeData>) -> bool {
    &&& nodes.len() == if shapes.len() == 0 { 0int } else { 2 * shapes.len() - 1 }
    &&& links_wf_range(nodes, 0, shapes.len() as int)
    &&& spans_nested_range(nodes, 0)
    &&& boxes_contained_range(nodes, 0)
    &&& leaf_boxes_exact_range(nodes, 0, shapes)
    &&& leaves_of(nodes) == Seq::new(shapes.len(), |k: int| k)
}

/// Containment along the ancestor chain: in a well-formed hierarchy, the
/// bounding box of any leaf's shape lies inside the box of every node whose
/// span covers the leaf, the root included.
pub proof fn lemma_bvh_containment(
    nodes: Seq<ShapeBVHNode>, shapes: Seq<ShapeData>, i: int, j: int,
)
    requires
        bvh_wf(nodes, shapes),
        0 <= i < j < nodes.len(),
        j < nodes[i].exit,
        is_leaf(nodes[j]),
    ensures
        nodes[i].aabb.contains_box(shapes[leaf_shape(nodes[j])].aabb_spec()),
{
    assert(nodes[i].aabb.contains_box(nodes[j].aabb));
}


/// Moves the subtree properties from a build state to a later state that
/// left the subtree's nodes untouched.
proof fn lemma_props_transfer(
    small: Seq<ShapeBVHNode>, big: Seq<ShapeBVHNode>, n0: int, cap: int,
    n_shapes: int, shapes: Seq<ShapeData>,
)
    requires
        0 <= n0 <= cap <= small.len(),
        cap <= big.len(),
        forall|t: int| n0 <= t < cap ==> #[trigger] big[t] == small[t],
        links_wf_range(small, n0, n_shapes),
        spans_nested_range(small, n0),
        boxes_contained_range(small, n0),
        leaf_boxes_exact_range(small, n0, shapes),
        cap == small.len(),
    ensures
        forall|t: int| n0 <= t < cap
            ==> links_wf_at(#[trigger] big[t], t, n_shapes) && big[t].exit <= cap,
        forall|i: int, j: int| #![trigger big[i], big[j]]
            n0 <= i < j < cap && j < big[i].exit
                ==> big[j].exit <= big[i].exit && big[i].aabb.contains_box(big[j].aabb),
        forall|t: int| n0 <= t < cap && is_leaf(#[trigger] big[t])
            ==> 0 <= leaf_shape(big[t]) < shapes.len()
                && big[t].aabb == shapes[leaf_shape(big[t])].aabb_spec(),
{
    assert forall|t: int| n0 <= t < cap
        implies links_wf_at(#[trigger] big[t], t, n_shapes) && big[t].exit <= cap by {
        assert(links_wf_at(small[t], t, n_shapes) && small[t].exit <= small.len());
    }
    assert forall|i: int, j: int| #![trigger big[i], big[j]]
        n0 <= i < j < cap && j < big[i].exit
        implies big[j].exit <= big[i].exit && big[i].aabb.contains_box(big[j].aabb) by {
        assert(small[j].exit <= small[i].exit);
        assert(small[i].aabb.contains_box(small[j].aabb));
    }
    assert forall|t: int| n0 <= t < cap && is_leaf(#[trigger] big[t])
        implies 0 <= leaf_shape(big[t]) < shapes.len()
            && big[t].aabb == shapes[leaf_shape(big[t])].aabb_spec() by {
        assert(is_leaf(small[t]));
    }
}

/// Emits the subtree for `shapes[lo..hi)` in preorder at the end of `out`.
#[verifier::rlimit(80)]
fn build_range(shapes: &Vec<ShapeData>, lo: usize, hi: usize, out: &mut Vec<ShapeBVHNode>)
    requires
        lo < hi <= shapes@.len(),
        shapes@.len() <= MAX_SHAPES,
        forall|k: int| 0 <= k < shapes@.len() ==> (#[trigger] shapes@[k]).wf(),
        old(out)@.len() + 2 * (hi - lo) <= 2 * shapes@.len(),
    ensures
        final(out)@.len() == old(out)@.len() + 2 * (hi - lo) - 1,
        final(out)@.subrange(0, old(out)@.len() as int) == old(out)@,
        links_wf_range(final(out)@, old(out)@.len() as int, shapes@.len() as int),
        spans_nested_range(final(out)@, old(out)@.len() as int),
        boxes_contained_range(final(out)@, old(out)@.len() as int),
        leaf_boxes_exact_range(final(out)@, old(out)@.len() as int, shapes@),
        final(out)@[old(out)@.len() as int].exit == final(out)@.len(),
        leaves_of(final(out)@.subrange(old(out)@.len() as int, final(out)@.len() as int))
            == Seq::new((hi - lo) as nat, |k: int| lo + k),
    decreases hi - lo,
{
    let n0 = out.len();
    if hi - lo == 1 {
        let node = ShapeBVHNode {
            aabb: shapes[lo].aabb(),
            entry: -(lo as i32) - 1,
            exit: (n0 + 1) as i32,
        };
        out.push(node);
        proof {
            lemma_leaves_of_singleton(node);
            assert(out@.subrange(n0 as int, n0 as int + 1) =~= seq![node]);
            assert(leaves_of(seq![node]) =~= Seq::new(1, |k: int| lo + k));
            assert(out@.subrange(0, n0 as int) =~= old(out)@);
        }
    } else {
        let mid = lo + (hi - lo) / 2;
        // Placeholder; the real links and box are written once both child
        // subtrees exist.
        out.push(ShapeBVHNode { aabb: shapes[lo].aabb(), entry: 0, exit: 0 });
        let ghost pstate = out@;
        build_range(shapes, lo, mid, out);
        let ghost mstate = out@;
        let e1 = out.len();
        build_range(shapes, mid, hi, out);
        let ghost rstate = out@;
        let e2 = out.len();
        let left_box = out[n0 + 1].aabb;
        let right_box = out[e1].aabb;
        let both = Aabb::union(&left_box, &right_box);
        let node = ShapeBVHNode {
            aabb: both,
            entry: (n0 + 1) as i32,
            exit: e2 as i32,
        };
        out.set(n0, node);
        proof {
            let fin = out@;
            let n0i = n0 as int;
            let e1i = e1 as int;
            let e2i = e2 as int;
            let ns = shapes@.len() as int;
            // Untouched regions: the old prefix, then the two subtrees.
            assert(fin =~= rstate.update(n0i, node));
            assert(forall|t: int| 0 <= t < e1i ==> rstate[t] == #[trigger] mstate[t]) by {
                assert(forall|t: int| 0 <= t < e1i ==>
                    rstate.subrange(0, e1i)[t] == #[trigger] rstate[t]);
            }
            assert(forall|t: int| n0i < t < e2i ==> #[trigger] fin[t] == rstate[t]);
            assert(forall|t: int| n0i + 1 <= t < e1i ==> #[trigger] fin[t] == mstate[t]);
            assert(forall|t: int| 0 <= t < n0i ==> #[trigger] fin[t] == old(out)@[t]) by {
                assert(forall|t: int| 0 <= t < n0i + 1 ==>
                    mstate.subrange(0, n0i + 1)[t] == #[trigger] mstate[t]);
                assert(forall|t: int| 0 <= t < n0i ==>
                    pstate[t] == #[trigger] old(out)@[t]);
            }
            assert(fin.subrange(0, n0i) =~= old(out)@);
            lemma_props_transfer(mstate, fin, n0i + 1, e1i, ns, shapes@);
            lemma_props_transfer(rstate, fin, e1i, e2i, ns, shapes@);
            assert(fin[n0i] == node);
            assert(fin[n0i + 1].aabb == left_box && fin[n0i + 1].exit == e1i);
            assert(fin[e1i].aabb == right_box && fin[e1i].exit == e2i);
            // Links.
            assert(links_wf_range(fin, n0i, ns)) by {
                assert(links_wf_at(fin[n0i], n0i, ns));
            }
            // Span nesting: a span inside the left child ends by `e1`, one
            // inside the right child ends by `e2`, and the root spans all.
            assert forall|i: int, j: int| #![trigger fin[i], fin[j]]
                n0i <= i < j < fin.len() && j < fin[i].exit
                implies fin[j].exit <= fin[i].exit by {
                if i == n0i {
                    assert(fin[j].exit <= e2i);
                } else if i < e1i {
                    assert(fin[i].exit <= e1i);
                    if j < fin[i].exit {
                        assert(fin[j].exit <= fin[i].exit);
                    }
                }
            }
            // Containment: the root box is the union of the child roots'
            // boxes, each of which contains its whole subtree.
            assert forall|i: int, j: int| #![trigger fin[i], fin[j]]
                n0i <= i < j < fin.len() && j < fin[i].exit
                implies fin[i].aabb.contains_box(fin[j].aabb) by {
                if i == n0i {
                    if j == n0i + 1 {
                        assert(both.contains_box(left_box));
                    } else if j < e1i {
                        assert(fin[n0i + 1].aabb.contains_box(fin[j].aabb));
                    } else if j == e1i {
                        assert(both.contains_box(right_box));
                    } else {
                        assert(fin[e1i].aabb.contains_box(fin[j].aabb));
                    }
                }
            }
            assert(leaf_boxes_exact_range(fin, n0i, shapes@));
            // Leaf order: the subtree is the internal root followed by the
            // two child subtrees.
            let whole = fin.subrange(n0i, e2i);
            let left = fin.subrange(n0i + 1, e1i);
            let right = fin.subrange(e1i, e2i);
            assert(left =~= mstate.subrange(n0i + 1, e1i));
            assert(right =~= rstate.subrange(e1i, e2i));
            assert(whole =~= seq![node] + (left + right));
            lemma_leaves_of_concat(seq![node], left + right);
            lemma_leaves_of_singleton(node);
            lemma_leaves_of_concat(left, right);
            assert(leaves_of(whole) =~= Seq::new((hi - lo) as nat, |k: int| lo + k));
        }
    }
}

/// Builds the flattened hierarchy for the whole shape list: one leaf per
/// shape, leaves in insertion order, ready for stackless traversal.
pub fn build(shapes: &Vec<ShapeData>) -> (nodes: Vec<ShapeBVHNode>)
    requires
        shapes@.len() <= MAX_SHAPES,
        forall|k: int| 0 <= k < shapes@.len() ==> (#[trigger] shapes@[k]).wf(),
    ensures
        bvh_wf(nodes@, shapes@),
{
    let mut nodes: Vec<ShapeBVHNode> = Vec::new();
    if shapes.len() == 0 {
        proof {
            assert(leaves_of(nodes@) =~= Seq::new(0, |k: int| k));
        }
        return nodes;
    }
    build_range(shapes, 0, shapes.len(), &mut nodes);
    proof {
        assert(nodes@.subrange(0, nodes@.len() as int) =~= nodes@);
        assert(leaves_of(nodes@) =~= Seq::new(shapes@.len(), |k: int| k));
    }
    nodes
}

/// Walks the whole hierarchy without pruning — every box treated as hit —
/// and returns the shape index of every leaf met, in order.  On a
/// well-formed hierarchy this visits every shape exactly once, in
/// insertion order.
pub fn traverse_all(nodes: &Vec<ShapeBVHNode>, shapes: &Vec<ShapeData>) -> (visited: Vec<usize>)
    requires
        bvh_wf(nodes@, shapes@),
    ensures
        visited@.map_values(|v: usize| v as int) == Seq::new(shapes@.len(), |k: int| k),
{
    let mut visited: Vec<usize> = Vec::new();
    let mut idx: usize = 0;
    while idx < nodes.len()
        invariant
            bvh_wf(nodes@, shapes@),
            idx <= nodes@.len(),
            visited@.map_values(|v: usize| v as int) == leaves_of(nodes@.subrange(0, idx as int)),
        decreases nodes@.len() - idx,
    {
        let nd = nodes[idx];
        proof {
            lemma_leaves_of_step(nodes@, idx as int);
        }
        proof {
            assert(links_wf_at(nodes@[idx as int], idx as int, shapes@.len() as int));
        }
        if nd.entry < 0 {
            let shape_idx = (-(nd.entry + 1)) as usize;
            assert(shape_idx as int == leaf_shape(nd));
            visited.push(shape_idx);
            proof {
                assert(visited@.map_values(|v: usize| v as int)
                    =~= leaves_of(nodes@.subrange(0, idx as int + 1)));
            }
            // A leaf's whole subtree is itself, so its `exit` is the next
            // node and the sweep stays sequential.
            idx = nd.exit as usize;
        } else {
            proof {
                assert(visited@.map_values(|v: usize| v as int)
                    =~= leaves_of(nodes@.subrange(0, idx as int + 1)));
            }
            // An internal node's first child sits right after it.
            idx = nd.entry as usize;
        }
    }
    proof {
        assert(nodes@.subrange(0, nodes@.len() as int) =~= nodes@);
    }
    visited
}

/// Stackless point query over the x/y footprint: descends into a node when
/// its box covers the point, otherwise skips the node's whole span.
/// Pruning loses nothing — every skipped leaf's box lies inside the
/// skipped node's box — so every shape whose leaf box covers the point is
/// returned; each returned index is a valid shape index.  Callers test the
/// returned candidates against the exact shape.
pub fn query_xy(
    nodes: &Vec<ShapeBVHNode>, shapes: &Vec<ShapeData>, px: i64, py: i64,
) -> (hits: Vec<usize>)
    requires
        bvh_wf(nodes@, shapes@),
    ensures
        forall|j: int| 0 <= j < nodes@.len() && is_leaf(#[trigger] nodes@[j])
            && nodes@[j].aabb.contains_xy(px as int, py as int)
            ==> hits@.contains(leaf_shape(nodes@[j]) as usize),
        forall|v: int| 0 <= v < hits@.len() ==> #[trigger] hits@[v] < shapes@.len(),
{
    let mut hits: Vec<usize> = Vec::new();
    let mut idx: usize = 0;
    while idx < nodes.len()
        invariant
            bvh_wf(nodes@, shapes@),
            idx <= nodes@.len(),
            forall|j: int| 0 <= j < idx && is_leaf(#[trigger] nodes@[j])
                && nodes@[j].aabb.contains_xy(px as int, py as int)
                ==> hits@.contains(leaf_shape(nodes@[j]) as usize),
            forall|v: int| 0 <= v < hits@.len() ==> #[trigger] hits@[v] < shapes@.len(),
        decreases nodes@.len() - idx,
    {
        let ghost hits0 = hits@;
        let nd = nodes[idx];
        proof {
            assert(links_wf_at(nodes@[idx as int], idx as int, shapes@.len() as int));
        }
        let inside = nd.aabb.min.x <= px && px <= nd.aabb.max.x
            && nd.aabb.min.y <= py && py <= nd.aabb.max.y;
        if inside {
            if nd.entry < 0 {
                let shape_idx = (-(nd.entry + 1)) as usize;
                let next = nd.exit as usize;
                hits.push(shape_idx);
                proof {
                    assert(hits@ == hits0.push(shape_idx));
                    assert forall|j: int| 0 <= j < idx as int + 1
                        && is_leaf(#[trigger] nodes@[j])
                        && nodes@[j].aabb.contains_xy(px as int, py as int)
                        implies hits@.contains(leaf_shape(nodes@[j]) as usize) by {
                        if j < idx as int {
                            let v = choose|v: int| 0 <= v < hits0.len()
                                && hits0[v] == leaf_shape(nodes@[j]) as usize;
                            assert(hits@[v] == leaf_shape(nodes@[j]) as usize);
                        } else {
                            assert(hits@[hits@.len() - 1] == leaf_shape(nodes@[j]) as usize);
                        }
                    }
                }
                idx = next;
            } else {
                idx = nd.entry as usize;
            }
        } else {
            // The box misses the point, so every leaf box in this span —
            // all contained in this box — misses it too.
            let next = nd.exit as usize;
            proof {
                assert forall|j: int| 0 <= j < next as int
                    && is_leaf(#[trigger] nodes@[j])
                    && nodes@[j].aabb.contains_xy(px as int, py as int)
                    implies hits@.contains(leaf_shape(nodes@[j]) as usize) by {
                    if idx as int <= j {
                        assert(nodes@[idx as int].aabb.contains_box(nodes@[j].aabb));
                        assert(false);
                    }
                }
            }
            idx = next;
        }
    }
    hits
}

} // verus!
