//! Parent/child hierarchy resolution.
//!
//! The engine's scene hierarchy supplies directed child-to-parent edges that
//! form a forest of finite trees. `resolve_root` walks from any entity up to
//! its top-most ancestor, the logical game object. The engine guarantees that
//! the hierarchy is acyclic, but the walk still guards against malformed
//! cyclic input: after more steps than there are links it reports
//! `CycleDetected` instead of looping forever.

use vstd::prelude::*;

use crate::entity::EntityId;

verus! {

/// The one hard failure of hierarchy resolution: the parent links contain a
/// cycle, so no root exists on the walked chain.
#[derive(Clone, Copy, Debug, PartialEq, Eq, Structural)]
pub enum HierarchyError {
    CycleDetected,
}

/// The parent of `e` under a sequence of (child, parent) links: the first
/// link whose child is `e`, if any.
pub open spec fn parent_of(links: Seq<(EntityId, EntityId)>, e: EntityId) -> Option<EntityId>
    decreases links.len(),
{
    if links.len() == 0 {
        None
    } else if links[0].0 == e {
        Some(links[0].1)
    } else {
        parent_of(links.drop_first(), e)
    }
}

/// An entity with no parent link is a root.
pub open spec fn is_root(links: Seq<(EntityId, EntityId)>, e: EntityId) -> bool {
    parent_of(links, e) is None
}

/// The entity reached from `e` after following `k` parent steps; the walk
/// stays put once it reaches a root.
pub open spec fn ancestor_at(links: Seq<(EntityId, EntityId)>, e: EntityId, k: nat) -> EntityId
    decreases k,
{
    if k == 0 {
        e
    } else {
        let prev = ancestor_at(links, e, (k - 1) as nat);
        match parent_of(links, prev) {
            Some(p) => p,
            None => prev,
        }
    }
}

/// The engine-supplied parent links, one per child entity.
pub struct ParentLinks {
    pub links: Vec<(EntityId, EntityId)>,
}

impl ParentLinks {
    /// Each child has at most one parent link.
    pub open spec fn wf(self) -> bool {
        forall|i: int, j: int|
            0 <= i < j < self.links@.len() ==> (#[trigger] self.links@[i]).0 != (
            #[trigger] self.links@[j]).0
    }

    pub fn new() -> (r: ParentLinks)
        ensures
            r.links@.len() == 0,
            r.wf(),
    {
        ParentLinks { links: Vec::new() }
    }

    /// Record that `child`'s immediate parent is `parent`. Linking a child
    /// that had no parent yet keeps the links well-formed.
    pub fn push_link(&mut self, child: EntityId, parent: EntityId)
        ensures
            final(self).links@ == old(self).links@.push((child, parent)),
            old(self).wf() && parent_of(old(self).links@, child) is None ==> final(self).wf(),
    {
        proof {
            if self.wf() && parent_of(self.links@, child) is None {
                lemma_no_parent_means_unlinked(self.links@, child);
            }
        }
        self.links.push((child, parent));
    }

    /// Immediate parent lookup, exactly as `parent_of` describes it.
    pub fn get_parent(&self, e: EntityId) -> (r: Option<EntityId>)
        ensures
            r == parent_of(self.links@, e),
    {
        let n = self.links.len();
        let mut i: usize = 0;
        proof {
            assert(self.links@.skip(0) =~= self.links@);
        }
        while i < n
            invariant
                0 <= i <= n,
                n == self.links@.len(),
                parent_of(self.links@.skip(i as int), e) == parent_of(self.links@, e),
            decreases n - i,
        {
            let link = self.links[i];
            proof {
                assert(self.links@.skip(i as int)[0] == self.links@[i as int]);
                assert(self.links@.skip(i as int).drop_first() =~= self.links@.skip(i as int + 1));
            }
            if link.0 == e {
                return Some(link.1);
            }
            i = i + 1;
        }
        proof {
            assert(self.links@.skip(n as int) =~= Seq::<(EntityId, EntityId)>::empty());
        }
        None
    }

    /// Walk to the top-most ancestor of `entity`.
    ///
    /// Returns the root of `entity`'s chain whenever the chain reaches one
    /// within as many steps as there are links (which every acyclic chain
    /// does, see `lemma_acyclic_chain_resolves`), and `CycleDetected`
    /// otherwise.
    pub fn resolve_root(&self, entity: EntityId) -> (r: Result<EntityId, HierarchyError>)
        ensures
            r == if is_root(self.links@, ancestor_at(self.links@, entity, self.links@.len())) {
                Ok::<EntityId, HierarchyError>(
                    ancestor_at(self.links@, entity, self.links@.len()),
                )
            } else {
                Err::<EntityId, HierarchyError>(HierarchyError::CycleDetected)
            },
            r matches Ok(root) ==> is_root(self.links@, root),
    {
        let ghost s = self.links@;
        let n = self.links.len();
        let mut cur = entity;
        let mut i: usize = 0;
        loop
            invariant
                0 <= i <= n,
                n == s.len(),
                s == self.links@,
                cur == ancestor_at(s, entity, i as nat),
                forall|k: nat| k < i ==> !is_root(s, #[trigger] ancestor_at(s, entity, k)),
            decreases n - i,
        {
            match self.get_parent(cur) {
                None => {
                    proof {
                        lemma_ancestor_absorb(s, entity, i as nat, s.len());
                    }
                    return Ok(cur);
                },
                Some(p) => {
                    if i == n {
                        return Err(HierarchyError::CycleDetected);
                    }
                    proof {
                        assert(ancestor_at(s, entity, (i + 1) as nat) == p);
                    }
                    cur = p;
                    i = i + 1;
                },
            }
        }
    }
}

/// An entity without a parent is the child of no link at all.
proof fn lemma_no_parent_means_unlinked(links: Seq<(EntityId, EntityId)>, e: EntityId)
    requires
        parent_of(links, e) is None,
    ensures
        forall|i: int| 0 <= i < links.len() ==> (#[trigger] links[i]).0 != e,
    decreases links.len(),
{
    if links.len() > 0 {
        lemma_no_parent_means_unlinked(links.drop_first(), e);
        assert forall|i: int| 0 <= i < links.len() implies (#[trigger] links[i]).0 != e by {
            if i > 0 {
                assert(links.drop_first()[i - 1] == links[i]);
            }
        }
    }
}

/// Once the walk reaches a root it stays there.
pub proof fn lemma_ancestor_absorb(links: Seq<(EntityId, EntityId)>, e: EntityId, k: nat, m: nat)
    requires
        k <= m,
        is_root(links, ancestor_at(links, e, k)),
    ensures
        ancestor_at(links, e, m) == ancestor_at(links, e, k),
    decreases m,
{
    if m > k {
        lemma_ancestor_absorb(links, e, k, (m - 1) as nat);
    }
}

/// Two equal waypoints make the walk periodic from there on.
proof fn lemma_ancestor_shift(
    links: Seq<(EntityId, EntityId)>,
    e: EntityId,
    i: nat,
    j: nat,
    t: nat,
)
    requires
        ancestor_at(links, e, i) == ancestor_at(links, e, j),
    ensures
        ancestor_at(links, e, (i + t) as nat) == ancestor_at(links, e, (j + t) as nat),
    decreases t,
{
    if t > 0 {
        lemma_ancestor_shift(links, e, i, j, (t - 1) as nat);
    }
}

/// If some step of the walk reaches a root, there is a first such step.
proof fn lemma_first_root_depth(links: Seq<(EntityId, EntityId)>, e: EntityId, d: nat) -> (dm: nat)
    requires
        is_root(links, ancestor_at(links, e, d)),
    ensures
        dm <= d,
        is_root(links, ancestor_at(links, e, dm)),
        forall|k: nat| k < dm ==> !is_root(links, #[trigger] ancestor_at(links, e, k)),
    decreases d,
{
    if exists|k: nat| k < d && is_root(links, #[trigger] ancestor_at(links, e, k)) {
        let k = choose|k: nat| k < d && is_root(links, #[trigger] ancestor_at(links, e, k));
        lemma_first_root_depth(links, e, k)
    } else {
        d
    }
}

/// A non-root waypoint of the walk is the child of some link.
proof fn lemma_non_root_is_child(links: Seq<(EntityId, EntityId)>, e: EntityId)
    requires
        !is_root(links, e),
    ensures
        links.map_values(|l: (EntityId, EntityId)| l.0).contains(e),
    decreases links.len(),
{
    let children = links.map_values(|l: (EntityId, EntityId)| l.0);
    if links.len() == 0 {
        // contradicts the hypothesis: everything is a root of an empty forest
    } else if links[0].0 == e {
        assert(children[0] == e);
    } else {
        lemma_non_root_is_child(links.drop_first(), e);
        let rest = links.drop_first().map_values(|l: (EntityId, EntityId)| l.0);
        let w = choose|w: int| 0 <= w < rest.len() && rest[w] == e;
        assert(children[w + 1] == e);
    }
}

/// Every chain that reaches a root at all reaches one within `links.len()`
/// steps: the waypoints before the first root are pairwise distinct children
/// of distinct links, so there are at most `links.len()` of them.
pub proof fn lemma_acyclic_chain_resolves(links: Seq<(EntityId, EntityId)>, e: EntityId, d: nat)
    requires
        is_root(links, ancestor_at(links, e, d)),
    ensures
        is_root(links, ancestor_at(links, e, links.len())),
        ancestor_at(links, e, links.len()) == ancestor_at(links, e, d),
{
    broadcast use vstd::seq_lib::group_seq_properties;

    let dm = lemma_first_root_depth(links, e, d);
    if dm > links.len() {
        let waypoints = Seq::new(dm, |k: int| ancestor_at(links, e, k as nat));
        assert forall|i: int, j: int| 0 <= i < j < dm implies waypoints[i] != waypoints[j] by {
            if waypoints[i] == waypoints[j] {
                lemma_ancestor_shift(links, e, i as nat, j as nat, (dm - j) as nat);
                assert(ancestor_at(links, e, (i + dm - j) as nat) == ancestor_at(links, e, dm));
            }
        }
        assert(waypoints.no_duplicates());
        let children = links.map_values(|l: (EntityId, EntityId)| l.0);
        assert forall|x: EntityId| waypoints.to_set().contains(x) implies children.to_set()
            .contains(x) by {
            let k = choose|k: int| 0 <= k < waypoints.len() && waypoints[k] == x;
            assert(!is_root(links, ancestor_at(links, e, k as nat)));
            lemma_non_root_is_child(links, x);
        }
        waypoints.unique_seq_to_set();
        children.lemma_cardinality_of_set();
        vstd::set_lib::lemma_len_subset(waypoints.to_set(), children.to_set());
        assert(false);
    } else {
        lemma_ancestor_absorb(links, e, dm, links.len());
        lemma_ancestor_absorb(links, e, dm, d);
    }
}

} // verus!
