//! Entity handles.
//!
//! The host engine owns entity lifetimes; this crate only ever sees an opaque
//! numeric handle and never creates or destroys the entity behind it.

use vstd::prelude::*;

verus! {

/// An opaque handle to an engine-owned entity.
#[derive(Clone, Copy, Debug, PartialEq, Eq, Structural, Hash)]
pub struct EntityId(pub u64);

} // verus!
