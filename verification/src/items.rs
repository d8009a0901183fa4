//! Item pickups and their country-of-origin tag.
//!
//! Every pickup carries an `ItemPickupCountry`, assigned at spawn time and
//! immutable thereafter; it decides the score delta when the item lands in
//! the cart, the flag texture of its landing indicator, and the highlight
//! color shown over the item.

use vstd::prelude::*;

verus! {

/// Marker for an entity that is a collectible item pickup.
#[derive(Clone, Copy, Debug, PartialEq, Eq, Structural)]
pub struct ItemPickup;

/// Marker for the collision shape child of an item pickup.
#[derive(Clone, Copy, Debug, PartialEq, Eq, Structural)]
pub struct ItemPickupCollider;

/// Marker for an item that a stomp has sent flying.
#[derive(Clone, Copy, Debug, PartialEq, Eq, Structural)]
pub struct ItemIsStomped;

/// Country of origin of an item pickup.
#[derive(Clone, Copy, Debug, PartialEq, Eq, Structural)]
pub enum ItemPickupCountry {
    USA,
    CA,
    Mexico,
    EU,
    UK,
    China,
}

/// A color with channels in thousandths (1000 is full intensity).
#[derive(Clone, Copy, Debug, PartialEq, Eq, Structural)]
pub struct ColorMilli {
    pub red: i64,
    pub green: i64,
    pub blue: i64,
}

/// Score awarded (or charged) when an item of this origin lands in the cart.
pub open spec fn country_score(c: ItemPickupCountry) -> int {
    match c {
        ItemPickupCountry::USA => -10,
        ItemPickupCountry::CA => 10,
        ItemPickupCountry::Mexico => 5,
        ItemPickupCountry::EU => 2,
        ItemPickupCountry::UK => 3,
        ItemPickupCountry::China => -1,
    }
}

impl ItemPickupCountry {
    /// Texture shown on this item's landing indicator.
    pub fn asset_path(&self) -> (r: &'static str)
        ensures
            r@ == match *self {
                ItemPickupCountry::USA => "images/fl_us.png"@,
                ItemPickupCountry::CA => "images/fl_ca.png"@,
                ItemPickupCountry::Mexico => "images/fl_mx.png"@,
                ItemPickupCountry::EU => "images/fl_eu.png"@,
                ItemPickupCountry::UK => "images/fl_uk.png"@,
                ItemPickupCountry::China => "images/fl_cn.png"@,
            },
    {
        match self {
            ItemPickupCountry::USA => "images/fl_us.png",
            ItemPickupCountry::CA => "images/fl_ca.png",
            ItemPickupCountry::Mexico => "images/fl_mx.png",
            ItemPickupCountry::EU => "images/fl_eu.png",
            ItemPickupCountry::UK => "images/fl_uk.png",
            ItemPickupCountry::China => "images/fl_cn.png",
        }
    }

    /// Highlight color: a faint green for origins that score positively, a
    /// faint red for the rest.
    pub fn highlight_color(&self) -> (r: ColorMilli)
        ensures
            country_score(*self) > 0 ==> r == (ColorMilli { red: 0, green: 100, blue: 0 }),
            country_score(*self) <= 0 ==> r == (ColorMilli { red: 100, green: 0, blue: 0 }),
    {
        if self.scores() > 0 {
            ColorMilli { red: 0, green: 100, blue: 0 }
        } else {
            ColorMilli { red: 100, green: 0, blue: 0 }
        }
    }

    /// Score delta applied when an item of this origin is collected.
    pub fn scores(&self) -> (r: i32)
        ensures
            r == country_score(*self),
            -10 <= r <= 10,
    {
        match self {
            ItemPickupCountry::USA => -10,
            ItemPickupCountry::CA => 10,
            ItemPickupCountry::Mexico => 5,
            ItemPickupCountry::EU => 2,
            ItemPickupCountry::UK => 3,
            ItemPickupCountry::China => -1,
        }
    }

    /// Origin picked from a uniformly drawn index; the host supplies the
    /// random draw.
    pub fn from_index(roll: u8) -> (r: ItemPickupCountry)
        requires
            roll <= 5,
        ensures
            r == if roll == 0 {
                ItemPickupCountry::USA
            } else if roll == 1 {
                ItemPickupCountry::CA
            } else if roll == 2 {
                ItemPickupCountry::Mexico
            } else if roll == 3 {
                ItemPickupCountry::EU
            } else if roll == 4 {
                ItemPickupCountry::UK
            } else {
                ItemPickupCountry::China
            },
    {
        match roll {
            0 => ItemPickupCountry::USA,
            1 => ItemPickupCountry::CA,
            2 => ItemPickupCountry::Mexico,
            3 => ItemPickupCountry::EU,
            4 => ItemPickupCountry::UK,
            _ => ItemPickupCountry::China,
        }
    }
}

} // verus!
