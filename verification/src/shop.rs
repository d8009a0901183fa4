//! Shop furniture: the objects the map spawns, their collision layout, and
//! the weighted choice of item category per shelf slot.
//!
//! Collider shapes are axis-aligned boxes given by half extents and an offset
//! from the object's origin, in fixed-point sub-units. Category weights are
//! in thousandths; the host draws a random number below the total weight and
//! the library picks the category deterministically from it.

use vstd::prelude::*;

use crate::geom::Vec3Fixed;

verus! {

/// Product categories a shelf can stock.
#[derive(Clone, Copy, Debug, PartialEq, Eq, Structural)]
pub enum Category {
    Bakery,
    Produce,
    Dairy,
    Meat,
    Canned,
    Snacks,
    Beverages,
    Frozen,
    Condiments,
}

/// Weighted categories of a shop object, weights in thousandths.
pub struct CategoryDistribution(pub Vec<(u32, Category)>);

/// An axis-aligned box collider: half extents and offset from the object's
/// origin, in sub-units.
#[derive(Clone, Copy, Debug, PartialEq, Eq, Structural)]
pub struct CuboidCollider {
    pub half_extents: Vec3Fixed,
    pub offset: Vec3Fixed,
}

/// The collision layout of the basic shelf: four legs and three boards.
pub open spec fn shelf_colliders() -> Seq<CuboidCollider> {
    seq![
        CuboidCollider {
            half_extents: Vec3Fixed { x: 35, y: 940, z: 47 },
            offset: Vec3Fixed { x: -1430i64, y: 940, z: 395 },
        },
        CuboidCollider {
            half_extents: Vec3Fixed { x: 35, y: 940, z: 47 },
            offset: Vec3Fixed { x: -1430i64, y: 940, z: -395i64 },
        },
        CuboidCollider {
            half_extents: Vec3Fixed { x: 35, y: 940, z: 47 },
            offset: Vec3Fixed { x: 1430, y: 940, z: 395 },
        },
        CuboidCollider {
            half_extents: Vec3Fixed { x: 35, y: 940, z: 47 },
            offset: Vec3Fixed { x: 1430, y: 940, z: -395i64 },
        },
        CuboidCollider {
            half_extents: Vec3Fixed { x: 1400, y: 25, z: 450 },
            offset: Vec3Fixed { x: 0, y: 375, z: 0 },
        },
        CuboidCollider {
            half_extents: Vec3Fixed { x: 1400, y: 25, z: 450 },
            offset: Vec3Fixed { x: 0, y: 1075, z: 0 },
        },
        CuboidCollider {
            half_extents: Vec3Fixed { x: 1400, y: 25, z: 450 },
            offset: Vec3Fixed { x: 0, y: 1740, z: 0 },
        },
    ]
}

/// The box that keeps the player from walking through a shelf.
pub open spec fn shelf_player_collider() -> CuboidCollider {
    CuboidCollider {
        half_extents: Vec3Fixed { x: 1500, y: 950, z: 550 },
        offset: Vec3Fixed { x: 0, y: 950, z: 0 },
    }
}

/// Miscellaneous shop furniture the map spawns.
#[derive(Clone, Copy, Debug, PartialEq, Eq, Structural)]
pub enum MiscShopObjects {
    Shelf,
}

impl MiscShopObjects {
    /// Scene asset of this object.
    pub fn path(&self) -> (r: &'static str)
        ensures
            r@ == "models/SM_Prop_Shop_Shelf_Basic_01.glb#Scene0"@,
    {
        match self {
            MiscShopObjects::Shelf => "models/SM_Prop_Shop_Shelf_Basic_01.glb#Scene0",
        }
    }

    /// Collision boxes of this object, relative to its origin.
    pub fn colliders_with_transforms(&self) -> (r: Vec<CuboidCollider>)
        ensures
            r@ == shelf_colliders(),
    {
        let mut v: Vec<CuboidCollider> = Vec::new();
        v.push(
            CuboidCollider {
                half_extents: Vec3Fixed { x: 35, y: 940, z: 47 },
                offset: Vec3Fixed { x: -1430, y: 940, z: 395 },
            },
        );
        v.push(
            CuboidCollider {
                half_extents: Vec3Fixed { x: 35, y: 940, z: 47 },
                offset: Vec3Fixed { x: -1430, y: 940, z: -395 },
            },
        );
        v.push(
            CuboidCollider {
                half_extents: Vec3Fixed { x: 35, y: 940, z: 47 },
                offset: Vec3Fixed { x: 1430, y: 940, z: 395 },
            },
        );
        v.push(
            CuboidCollider {
                half_extents: Vec3Fixed { x: 35, y: 940, z: 47 },
                offset: Vec3Fixed { x: 1430, y: 940, z: -395 },
            },
        );
        v.push(
            CuboidCollider {
                half_extents: Vec3Fixed { x: 1400, y: 25, z: 450 },
                offset: Vec3Fixed { x: 0, y: 375, z: 0 },
            },
        );
        v.push(
            CuboidCollider {
                half_extents: Vec3Fixed { x: 1400, y: 25, z: 450 },
                offset: Vec3Fixed { x: 0, y: 1075, z: 0 },
            },
        );
        v.push(
            CuboidCollider {
                half_extents: Vec3Fixed { x: 1400, y: 25, z: 450 },
                offset: Vec3Fixed { x: 0, y: 1740, z: 0 },
            },
        );
        proof {
            assert(v@ =~= shelf_colliders());
        }
        v
    }

    /// The box that blocks the player.
    pub fn player_collider(&self) -> (r: CuboidCollider)
        ensures
            r == shelf_player_collider(),
    {
        CuboidCollider {
            half_extents: Vec3Fixed { x: 1500, y: 950, z: 550 },
            offset: Vec3Fixed { x: 0, y: 950, z: 0 },
        }
    }
}

/// The basic shelf as a stocked shop object.
#[derive(Clone, Copy, Debug, PartialEq, Eq, Structural)]
pub struct MiscShelf;

impl MiscShelf {
    /// What the shelf stocks: snacks and condiments in equal measure.
    pub fn categories(&self) -> (r: Vec<(u32, Category)>)
        ensures
            r@ == seq![(500u32, Category::Snacks), (500u32, Category::Condiments)],
    {
        let mut v: Vec<(u32, Category)> = Vec::new();
        v.push((500, Category::Snacks));
        v.push((500, Category::Condiments));
        proof {
            assert(v@ =~= seq![(500u32, Category::Snacks), (500u32, Category::Condiments)]);
        }
        v
    }

    /// Collision boxes of the shelf, relative to its origin.
    pub fn colliders_with_transforms(&self) -> (r: Vec<CuboidCollider>)
        ensures
            r@ == shelf_colliders(),
    {
        MiscShopObjects::Shelf.colliders_with_transforms()
    }

    /// The box that blocks the player.
    pub fn player_collider(&self) -> (r: CuboidCollider)
        ensures
            r == shelf_player_collider(),
    {
        MiscShopObjects::Shelf.player_collider()
    }

    /// Scene asset of the shelf.
    pub fn path(&self) -> (r: &'static str)
        ensures
            r@ == "models/SM_Prop_Shop_Shelf_Basic_01.glb#Scene0"@,
    {
        MiscShopObjects::Shelf.path()
    }
}

/// The category a weighted draw lands on: walk the weights and take the
/// first category whose cumulative weight passes the roll.
pub open spec fn pick_weighted(dist: Seq<(u32, Category)>, roll: int) -> Option<Category>
    decreases dist.len(),
{
    if dist.len() == 0 {
        None
    } else if roll < dist[0].0 {
        Some(dist[0].1)
    } else {
        pick_weighted(dist.drop_first(), roll - dist[0].0)
    }
}

/// Category of a weighted draw: `roll` is a uniform draw below the total
/// weight; `None` exactly when the roll is at or past the total weight.
pub fn pick_category(dist: &Vec<(u32, Category)>, roll: u32) -> (r: Option<Category>)
    ensures
        r == pick_weighted(dist@, roll as int),
{
    let mut i: usize = 0;
    let mut remaining = roll;
    let n = dist.len();
    proof {
        assert(dist@.skip(0) =~= dist@);
    }
    while i < n
        invariant
            0 <= i <= n,
            n == dist@.len(),
            remaining <= roll,
            pick_weighted(dist@, roll as int) == pick_weighted(
                dist@.skip(i as int),
                remaining as int,
            ),
        decreases n - i,
    {
        let (weight, category) = dist[i];
        proof {
            assert(dist@.skip(i as int)[0] == dist@[i as int]);
            assert(dist@.skip(i as int).drop_first() =~= dist@.skip(i as int + 1));
        }
        if remaining < weight {
            return Some(category);
        }
        remaining = remaining - weight;
        i = i + 1;
    }
    proof {
        assert(dist@.skip(n as int) =~= Seq::<(u32, Category)>::empty());
    }
    None
}

} // verus!
