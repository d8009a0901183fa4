//! Spatial index over tracked entity positions.
//!
//! Every frame the host reads the positions of all trackable entities and
//! rebuilds a k-d tree from that snapshot (a batch rebuild is simple and
//! correct, and tracked-entity counts in this domain are small). The index
//! answers range queries: all tracked entities whose position lies within a
//! given radius of a center point, inclusive, found by the standard k-d
//! descent that prunes subtrees whose splitting plane is farther from the
//! center than the radius along the splitting axis.

use vstd::prelude::*;

use crate::entity::EntityId;
use crate::geom::{axis_coord, dist_sq, distance_squared, in_bounds, lemma_square_bound, Vec3Fixed};

verus! {

/// Largest radius a range query accepts; big enough to cover any two
/// in-bounds points and small enough that its square stays in `i64`.
pub const MAX_RADIUS: i64 = 4_000_000;

/// A (entity, position) pair contributed by an entity carrying a trackable
/// tag, snapshotted once per frame.
#[derive(Clone, Copy, Debug, PartialEq, Eq, Structural)]
pub struct TrackedPosition {
    pub entity: EntityId,
    pub pos: Vec3Fixed,
}

/// Whether a tracked pair lies within `radius` of `center`, inclusive.
pub open spec fn in_range(p: TrackedPosition, center: Vec3Fixed, radius: i64) -> bool {
    dist_sq(p.pos, center) <= radius * radius
}

/// One node of the k-d tree: a splitting point, the axis it splits on, and
/// the two half-spaces.
pub enum KdNode {
    Leaf,
    Split { point: TrackedPosition, axis: u8, left: Box<KdNode>, right: Box<KdNode> },
}

impl KdNode {
    /// All tracked pairs stored in this subtree, in-order.
    pub open spec fn points(self) -> Seq<TrackedPosition>
        decreases self,
    {
        match self {
            KdNode::Leaf => Seq::empty(),
            KdNode::Split { point, axis, left, right } => left.points() + seq![point]
                + right.points(),
        }
    }

    /// Structural invariant: the splitting axis is valid, every stored
    /// position is in bounds, and each half-space is on its side of the
    /// splitting plane.
    pub open spec fn wf(self) -> bool
        decreases self,
    {
        match self {
            KdNode::Leaf => true,
            KdNode::Split { point, axis, left, right } => {
                &&& axis < 3
                &&& in_bounds(point.pos)
                &&& forall|i: int|
                    0 <= i < left.points().len() ==> axis_coord(
                        (#[trigger] left.points()[i]).pos,
                        axis as int,
                    ) <= axis_coord(point.pos, axis as int)
                &&& forall|i: int|
                    0 <= i < right.points().len() ==> axis_coord(
                        (#[trigger] right.points()[i]).pos,
                        axis as int,
                    ) >= axis_coord(point.pos, axis as int)
                &&& forall|i: int|
                    0 <= i < left.points().len() ==> in_bounds((#[trigger] left.points()[i]).pos)
                &&& forall|i: int|
                    0 <= i < right.points().len() ==> in_bounds((#[trigger] right.points()[i]).pos)
                &&& left.wf()
                &&& right.wf()
            },
        }
    }
}

/// If one coordinate already differs by more than `r`, the squared distance
/// exceeds `r` squared.
proof fn lemma_far_on_one_axis(dx: int, dy: int, dz: int, r: int)
    by (nonlinear_arith)
    requires
        r >= 0,
        dx > r || dx < -r,
    ensures
        dx * dx + dy * dy + dz * dz > r * r,
{
}

/// A point beyond the splitting plane by more than the radius, on the far
/// side, is out of range.
proof fn lemma_axis_separation(p: Vec3Fixed, center: Vec3Fixed, axis: int, radius: i64)
    requires
        0 <= axis < 3,
        radius >= 0,
        axis_coord(p, axis) < axis_coord(center, axis) - radius || axis_coord(p, axis)
            > axis_coord(center, axis) + radius,
    ensures
        dist_sq(p, center) > radius * radius,
{
    let dx = p.x - center.x;
    let dy = p.y - center.y;
    let dz = p.z - center.z;
    if axis == 0 {
        lemma_far_on_one_axis(dx, dy, dz, radius as int);
    } else if axis == 1 {
        lemma_far_on_one_axis(dy, dx, dz, radius as int);
    } else {
        lemma_far_on_one_axis(dz, dy, dx, radius as int);
    }
}

/// A sequence none of whose elements satisfies the predicate filters to
/// nothing.
proof fn lemma_filter_all_out<A>(s: Seq<A>, pred: spec_fn(A) -> bool)
    requires
        forall|i: int| 0 <= i < s.len() ==> !pred(#[trigger] s[i]),
    ensures
        s.filter(pred) =~= Seq::<A>::empty(),
    decreases s.len(),
{
    reveal(Seq::filter);
    if s.len() > 0 {
        lemma_filter_all_out(s.drop_last(), pred);
    }
}

/// Filtering a one-element sequence keeps or drops that element.
proof fn lemma_filter_singleton<A>(x: A, pred: spec_fn(A) -> bool)
    ensures
        pred(x) ==> seq![x].filter(pred) =~= seq![x],
        !pred(x) ==> seq![x].filter(pred) =~= Seq::<A>::empty(),
{
    reveal(Seq::filter);
    let single = seq![x];
    assert(single.drop_last() =~= Seq::<A>::empty());
    assert(single.last() == x);
    assert(Seq::<A>::empty().filter(pred) =~= Seq::<A>::empty());
}

/// Filtering an in-order concatenation filters each part in place.
proof fn lemma_filter_concat3<A>(a: Seq<A>, x: A, b: Seq<A>, pred: spec_fn(A) -> bool)
    ensures
        (a + seq![x] + b).filter(pred) == a.filter(pred) + seq![x].filter(pred) + b.filter(pred),
{
    Seq::filter_distributes_over_add(a + seq![x], b, pred);
    Seq::filter_distributes_over_add(a, seq![x], pred);
}

/// Splits the points after the pivot into the side at or below the pivot
/// coordinate and the side above it.
fn partition(pts: &Vec<TrackedPosition>, lo: usize, split: i64, axis: u8) -> (r: (
    Vec<TrackedPosition>,
    Vec<TrackedPosition>,
))
    requires
        axis < 3,
        lo < pts@.len(),
        forall|i: int| 0 <= i < pts@.len() ==> in_bounds((#[trigger] pts@[i]).pos),
    ensures
        r.0@.to_multiset().add(r.1@.to_multiset()) == pts@.skip(lo as int + 1).to_multiset(),
        r.0@.len() + r.1@.len() == pts@.len() - lo - 1,
        forall|k: int|
            0 <= k < r.0@.len() ==> axis_coord((#[trigger] r.0@[k]).pos, axis as int) <= split,
        forall|k: int|
            0 <= k < r.1@.len() ==> axis_coord((#[trigger] r.1@[k]).pos, axis as int) > split,
        forall|k: int| 0 <= k < r.0@.len() ==> in_bounds((#[trigger] r.0@[k]).pos),
        forall|k: int| 0 <= k < r.1@.len() ==> in_bounds((#[trigger] r.1@[k]).pos),
{
    let n = pts.len();
    let mut below: Vec<TrackedPosition> = Vec::new();
    let mut above: Vec<TrackedPosition> = Vec::new();
    let mut i: usize = lo + 1;
    proof {
        broadcast use vstd::multiset::group_multiset_axioms;
        broadcast use vstd::seq_lib::group_to_multiset_ensures;

        let start = pts@.subrange(lo as int + 1, i as int);
        assert(below@.to_multiset().len() == 0);
        assert(above@.to_multiset().len() == 0);
        assert(start.to_multiset().len() == 0);
        assert(below@.to_multiset().add(above@.to_multiset()) =~= start.to_multiset());
    }
    while i < n
        invariant
            lo + 1 <= i <= pts@.len(),
            n == pts@.len(),
            axis < 3,
            forall|k: int| 0 <= k < pts@.len() ==> in_bounds((#[trigger] pts@[k]).pos),
            below@.to_multiset().add(above@.to_multiset()) == pts@.subrange(
                lo as int + 1,
                i as int,
            ).to_multiset(),
            below@.len() + above@.len() == i - lo - 1,
            forall|k: int|
                0 <= k < below@.len() ==> axis_coord((#[trigger] below@[k]).pos, axis as int)
                    <= split,
            forall|k: int|
                0 <= k < above@.len() ==> axis_coord((#[trigger] above@[k]).pos, axis as int)
                    > split,
            forall|k: int| 0 <= k < below@.len() ==> in_bounds((#[trigger] below@[k]).pos),
            forall|k: int| 0 <= k < above@.len() ==> in_bounds((#[trigger] above@[k]).pos),
        decreases pts@.len() - i,
    {
        let p = pts[i];
        proof {
            assert(pts@.subrange(lo as int + 1, i as int + 1) =~= pts@.subrange(
                lo as int + 1,
                i as int,
            ).push(pts@[i as int]));
            vstd::seq_lib::to_multiset_build(pts@.subrange(lo as int + 1, i as int), pts@[i as int]);
        }
        let ghost old_below = below@;
        let ghost old_above = above@;
        if p.pos.coord(axis) <= split {
            below.push(p);
            proof {
                broadcast use vstd::multiset::group_multiset_axioms;

                vstd::seq_lib::to_multiset_build(old_below, p);
                assert(below@.to_multiset().add(above@.to_multiset()) =~= old_below.to_multiset()
                    .add(old_above.to_multiset()).insert(p));
            }
        } else {
            above.push(p);
            proof {
                broadcast use vstd::multiset::group_multiset_axioms;

                vstd::seq_lib::to_multiset_build(old_above, p);
                assert(below@.to_multiset().add(above@.to_multiset()) =~= old_below.to_multiset()
                    .add(old_above.to_multiset()).insert(p));
            }
        }
        i = i + 1;
    }
    proof {
        assert(pts@.subrange(lo as int + 1, pts@.len() as int) =~= pts@.skip(lo as int + 1));
    }
    (below, above)
}

/// Builds the subtree over the points of `pts` from index `lo` on, splitting
/// on `axis` first and cycling through the axes below.
fn build_node(pts: &Vec<TrackedPosition>, lo: usize, axis: u8) -> (r: KdNode)
    requires
        axis < 3,
        lo <= pts@.len(),
        forall|i: int| 0 <= i < pts@.len() ==> in_bounds((#[trigger] pts@[i]).pos),
    ensures
        r.wf(),
        r.points().to_multiset() == pts@.skip(lo as int).to_multiset(),
    decreases pts@.len() - lo,
{
    if lo >= pts.len() {
        proof {
            assert(pts@.skip(lo as int) =~= Seq::<TrackedPosition>::empty());
            assert(KdNode::Leaf.points() =~= pts@.skip(lo as int));
        }
        return KdNode::Leaf;
    }
    let pivot = pts[lo];
    let split = pivot.pos.coord(axis);
    let (below, above) = partition(pts, lo, split, axis);
    let next_axis: u8 = if axis == 2 {
        0
    } else {
        axis + 1
    };
    let left = build_node(&below, 0, next_axis);
    let right = build_node(&above, 0, next_axis);
    proof {
        assert(below@.skip(0) =~= below@);
        assert(above@.skip(0) =~= above@);
    }
    let node = KdNode::Split { point: pivot, axis, left: Box::new(left), right: Box::new(right) };
    proof {
        lemma_build_node_wf(node, below@, above@, pivot, axis);
        lemma_build_node_contents(node, below@, above@, pivot, pts@, lo as int);
    }
    node
}

/// Transfers the partition facts through the multiset equalities onto the
/// freshly built node.
proof fn lemma_build_node_wf(
    node: KdNode,
    left_src: Seq<TrackedPosition>,
    right_src: Seq<TrackedPosition>,
    pivot: TrackedPosition,
    axis: u8,
)
    requires
        node matches KdNode::Split { point, axis: a, left, right } && point == pivot && a == axis
            && left.points().to_multiset() == left_src.to_multiset()
            && right.points().to_multiset() == right_src.to_multiset() && left.wf() && right.wf(),
        axis < 3,
        in_bounds(pivot.pos),
        forall|k: int|
            0 <= k < left_src.len() ==> axis_coord((#[trigger] left_src[k]).pos, axis as int)
                <= axis_coord(pivot.pos, axis as int),
        forall|k: int|
            0 <= k < right_src.len() ==> axis_coord((#[trigger] right_src[k]).pos, axis as int)
                > axis_coord(pivot.pos, axis as int),
        forall|k: int| 0 <= k < left_src.len() ==> in_bounds((#[trigger] left_src[k]).pos),
        forall|k: int| 0 <= k < right_src.len() ==> in_bounds((#[trigger] right_src[k]).pos),
    ensures
        node.wf(),
{
    broadcast use vstd::seq_lib::group_to_multiset_ensures;

    let left = *node->left;
    let right = *node->right;
    assert forall|i: int| 0 <= i < left.points().len() implies axis_coord(
        (#[trigger] left.points()[i]).pos,
        axis as int,
    ) <= axis_coord(pivot.pos, axis as int) && in_bounds(left.points()[i].pos) by {
        let p = left.points()[i];
        assert(left.points().contains(p));
        assert(left.points().to_multiset().count(p) > 0);
        assert(left_src.contains(p));
        let k = choose|k: int| 0 <= k < left_src.len() && left_src[k] == p;
        assert(axis_coord(left_src[k].pos, axis as int) <= axis_coord(pivot.pos, axis as int));
    }
    assert forall|i: int| 0 <= i < right.points().len() implies axis_coord(
        (#[trigger] right.points()[i]).pos,
        axis as int,
    ) >= axis_coord(pivot.pos, axis as int) && in_bounds(right.points()[i].pos) by {
        let p = right.points()[i];
        assert(right.points().contains(p));
        assert(right.points().to_multiset().count(p) > 0);
        assert(right_src.contains(p));
        let k = choose|k: int| 0 <= k < right_src.len() && right_src[k] == p;
        assert(axis_coord(right_src[k].pos, axis as int) > axis_coord(pivot.pos, axis as int));
    }
}

/// The built node holds the pivot plus everything the partition handed to
/// its two sides.
proof fn lemma_build_node_contents(
    node: KdNode,
    left_src: Seq<TrackedPosition>,
    right_src: Seq<TrackedPosition>,
    pivot: TrackedPosition,
    pts: Seq<TrackedPosition>,
    lo: int,
)
    requires
        node matches KdNode::Split { point, axis: a, left, right } && point == pivot
            && left.points().to_multiset() == left_src.to_multiset()
            && right.points().to_multiset() == right_src.to_multiset(),
        0 <= lo < pts.len(),
        pivot == pts[lo],
        left_src.to_multiset().add(right_src.to_multiset()) == pts.skip(lo + 1).to_multiset(),
    ensures
        node.points().to_multiset() == pts.skip(lo).to_multiset(),
{
    broadcast use vstd::multiset::group_multiset_axioms;

    let left = *node->left;
    let right = *node->right;
    assert(node.points() == left.points() + seq![pivot] + right.points());
    vstd::seq_lib::lemma_multiset_commutative(left.points() + seq![pivot], right.points());
    vstd::seq_lib::lemma_multiset_commutative(left.points(), seq![pivot]);
    assert(pts.skip(lo) =~= seq![pivot] + pts.skip(lo + 1));
    vstd::seq_lib::lemma_multiset_commutative(seq![pivot], pts.skip(lo + 1));
    assert(node.points().to_multiset() =~= pts.skip(lo).to_multiset());
}

/// Range search descent: appends to `out` exactly the in-range points of the
/// subtree, in-order.
fn query_node(node: &KdNode, center: &Vec3Fixed, radius: i64, out: &mut Vec<TrackedPosition>)
    requires
        node.wf(),
        in_bounds(*center),
        0 <= radius <= MAX_RADIUS,
    ensures
        final(out)@ == old(out)@ + node.points().filter(
            |p: TrackedPosition| in_range(p, *center, radius),
        ),
    decreases *node,
{
    let ghost pred = |p: TrackedPosition| in_range(p, *center, radius);
    match node {
        KdNode::Leaf => {
            proof {
                lemma_filter_all_out(node.points(), pred);
                assert(out@ =~= out@ + node.points().filter(pred));
            }
        },
        KdNode::Split { point, axis, left, right } => {
            let ghost before = out@;
            let split = point.pos.coord(*axis);
            let c = center.coord(*axis);
            if c - radius <= split {
                query_node(left, center, radius, out);
            } else {
                proof {
                    assert forall|i: int| 0 <= i < left.points().len() implies !pred(
                        #[trigger] left.points()[i],
                    ) by {
                        lemma_axis_separation(left.points()[i].pos, *center, *axis as int, radius);
                    }
                    lemma_filter_all_out(left.points(), pred);
                    assert(out@ =~= out@ + left.points().filter(pred));
                }
            }
            let ghost after_left = out@;
            proof {
                lemma_square_bound(radius as int, MAX_RADIUS as int);
            }
            let d2 = distance_squared(&point.pos, center);
            if d2 <= radius * radius {
                out.push(*point);
            }
            proof {
                lemma_filter_singleton(*point, pred);
                assert(out@ =~= after_left + seq![*point].filter(pred));
            }
            let ghost after_point = out@;
            if c + radius >= split {
                query_node(right, center, radius, out);
            } else {
                proof {
                    assert forall|i: int| 0 <= i < right.points().len() implies !pred(
                        #[trigger] right.points()[i],
                    ) by {
                        lemma_axis_separation(right.points()[i].pos, *center, *axis as int, radius);
                    }
                    lemma_filter_all_out(right.points(), pred);
                    assert(out@ =~= out@ + right.points().filter(pred));
                }
            }
            proof {
                lemma_filter_concat3(left.points(), *point, right.points(), pred);
                assert(out@ =~= before + node.points().filter(pred));
            }
        },
    }
}

/// The per-frame spatial index: a k-d tree over a snapshot of tracked
/// positions.
pub struct SpatialIndex {
    pub root: KdNode,
}

impl SpatialIndex {
    /// The tracked pairs held by the index.
    pub open spec fn points(self) -> Seq<TrackedPosition> {
        self.root.points()
    }

    pub open spec fn wf(self) -> bool {
        self.root.wf()
    }

    /// Batch rebuild from this frame's snapshot of tracked positions.
    ///
    /// The index holds exactly the pairs of the snapshot, independent of
    /// their order.
    pub fn build(snapshot: &Vec<TrackedPosition>) -> (r: SpatialIndex)
        requires
            forall|i: int| 0 <= i < snapshot@.len() ==> in_bounds((#[trigger] snapshot@[i]).pos),
        ensures
            r.wf(),
            r.points().to_multiset() == snapshot@.to_multiset(),
    {
        let root = build_node(snapshot, 0, 0);
        proof {
            assert(snapshot@.skip(0) =~= snapshot@);
        }
        SpatialIndex { root }
    }

    /// All tracked entities whose position lies within `radius` of `center`,
    /// inclusive: exactly the in-range subset of the indexed pairs. An empty
    /// tracked set yields an empty result, never an error.
    pub fn entities_within(&self, center: Vec3Fixed, radius: i64) -> (r: Vec<TrackedPosition>)
        requires
            self.wf(),
            in_bounds(center),
            0 <= radius <= MAX_RADIUS,
        ensures
            r@ == self.points().filter(|p: TrackedPosition| in_range(p, center, radius)),
    {
        let mut out: Vec<TrackedPosition> = Vec::new();
        query_node(&self.root, &center, radius, &mut out);
        proof {
            assert(out@ =~= Seq::<TrackedPosition>::empty() + out@);
        }
        out
    }
}

/// Every point a well-formed tree stores is in bounds.
pub proof fn lemma_wf_points_in_bounds(node: KdNode)
    requires
        node.wf(),
    ensures
        forall|i: int|
            0 <= i < node.points().len() ==> in_bounds((#[trigger] node.points()[i]).pos),
{
    match node {
        KdNode::Leaf => {},
        KdNode::Split { point, axis, left, right } => {
            let pts = node.points();
            let nl = left.points().len() as int;
            assert forall|i: int| 0 <= i < pts.len() implies in_bounds(
                (#[trigger] pts[i]).pos,
            ) by {
                if i < nl {
                    assert(pts[i] == left.points()[i]);
                } else if i == nl {
                    assert(pts[i] == point);
                } else {
                    assert(pts[i] == right.points()[i - nl - 1]);
                }
            }
        },
    }
}

/// What a range query means, stated against the snapshot rather than the
/// tree: for every index built from a snapshot, the query result holds a
/// tracked pair exactly when the snapshot holds it within the radius of the
/// center — a brute-force distance filter over the snapshot finds the same
/// set, whatever order the snapshot listed the pairs in.
pub proof fn lemma_entities_within_exact(
    index: SpatialIndex,
    snapshot: Seq<TrackedPosition>,
    center: Vec3Fixed,
    radius: i64,
    result: Seq<TrackedPosition>,
)
    requires
        index.points().to_multiset() == snapshot.to_multiset(),
        result == index.points().filter(|p: TrackedPosition| in_range(p, center, radius)),
    ensures
        forall|p: TrackedPosition|
            #[trigger] result.contains(p) <==> snapshot.contains(p) && dist_sq(p.pos, center)
                <= radius * radius,
{
    broadcast use vstd::seq_lib::group_to_multiset_ensures;

    let pred = |p: TrackedPosition| in_range(p, center, radius);
    let pts = index.points();
    assert forall|p: TrackedPosition| #[trigger] result.contains(p) implies snapshot.contains(p)
        && dist_sq(p.pos, center) <= radius * radius by {
        pts.lemma_filter_contains_rev(pred, p);
        let i = choose|i: int| 0 <= i < result.len() && result[i] == p;
        pts.lemma_filter_pred(pred, i);
        assert(pts.to_multiset().count(p) > 0);
    }
    assert forall|p: TrackedPosition|
        snapshot.contains(p) && dist_sq(p.pos, center) <= radius * radius implies #[trigger] result
        .contains(p) by {
        assert(snapshot.to_multiset().count(p) > 0);
        assert(pts.contains(p));
        let i = choose|i: int| 0 <= i < pts.len() && pts[i] == p;
        pts.lemma_filter_contains(pred, i);
    }
}

/// A zero-radius query misses every tracked pair that is not exactly at the
/// center: on an index holding no pair at the center it returns nothing.
pub proof fn lemma_zero_radius_empty(index: SpatialIndex, center: Vec3Fixed)
    requires
        forall|i: int|
            0 <= i < index.points().len() ==> (#[trigger] index.points()[i]).pos != center,
    ensures
        index.points().filter(|p: TrackedPosition| in_range(p, center, 0)).len() == 0,
{
    let pred = |p: TrackedPosition| in_range(p, center, 0);
    assert forall|i: int| 0 <= i < index.points().len() implies !pred(
        #[trigger] index.points()[i],
    ) by {
        crate::geom::lemma_dist_sq_zero(index.points()[i].pos, center);
    }
    lemma_filter_all_out(index.points(), pred);
}

} // verus!
