//! The world rectangle and the reserved dropzone rectangle inside it.

use vstd::prelude::*;

verus! {

use crate::vec2::Vec2I;

/// Immutable world geometry for a simulation run: an outer bounds rectangle
/// and an inner dropzone rectangle strictly contained in it.
pub struct WorldBoundaryResource {
    pub grid_spacing: i64,
    /// Lower-left corner of the game world.
    pub bounds_min: Vec2I,
    /// Upper-right corner of the game world.
    pub bounds_max: Vec2I,
    /// Lower-left corner of the dropzone.
    pub dropzone_min: Vec2I,
    /// Upper-right corner of the dropzone.
    pub dropzone_max: Vec2I,
}

impl WorldBoundaryResource {
    /// Geometric well-formedness: corners in range, both rectangles
    /// nonempty, and the dropzone strictly inside the bounds.
    pub open spec fn wf(&self) -> bool {
        &&& self.bounds_min.valid()
        &&& self.bounds_max.valid()
        &&& self.dropzone_min.valid()
        &&& self.dropzone_max.valid()
        &&& self.bounds_min.x < self.bounds_max.x
        &&& self.bounds_min.y < self.bounds_max.y
        &&& self.bounds_min.x < self.dropzone_min.x
        &&& self.bounds_min.y < self.dropzone_min.y
        &&& self.dropzone_min.x < self.dropzone_max.x
        &&& self.dropzone_min.y < self.dropzone_max.y
        &&& self.dropzone_max.x < self.bounds_max.x
        &&& self.dropzone_max.y < self.bounds_max.y
    }

    /// A point is in the dropzone iff it lies within the inner rectangle,
    /// borders included.
    pub open spec fn spec_in_dropzone(&self, point: Vec2I) -> bool {
        &&& self.dropzone_min.x <= point.x <= self.dropzone_max.x
        &&& self.dropzone_min.y <= point.y <= self.dropzone_max.y
    }

    /// Returns true if the point lies within the dropzone min/max bounds.
    pub fn in_dropzone(&self, point: Vec2I) -> (r: bool)
        ensures
            r == self.spec_in_dropzone(point),
    {
        point.x >= self.dropzone_min.x && point.x <= self.dropzone_max.x
            && point.y >= self.dropzone_min.y && point.y <= self.dropzone_max.y
    }

    /// A point is in bounds iff it lies within the outer rectangle, borders
    /// included.
    pub open spec fn spec_in_bounds(&self, point: Vec2I) -> bool {
        &&& self.bounds_min.x <= point.x <= self.bounds_max.x
        &&& self.bounds_min.y <= point.y <= self.bounds_max.y
    }

    /// Returns true if the point lies within the world bounds.
    pub fn in_bounds(&self, point: Vec2I) -> (r: bool)
        ensures
            r == self.spec_in_bounds(point),
    {
        point.x >= self.bounds_min.x && point.x <= self.bounds_max.x
            && point.y >= self.bounds_min.y && point.y <= self.bounds_max.y
    }
}

impl Default for WorldBoundaryResource {
    /// The stock world: a 10240-by-10240 milli-unit world with a
    /// 2048-by-2048 dropzone centered in it.
    fn default() -> (r: Self)
        ensures
            r.wf(),
            r.bounds_min@ == (-5_120_000int, -5_120_000int),
            r.bounds_max@ == (5_120_000int, 5_120_000int),
            r.dropzone_min@ == (-1_024_000int, -1_024_000int),
            r.dropzone_max@ == (1_024_000int, 1_024_000int),
            r.grid_spacing == 512_000,
    {
        WorldBoundaryResource {
            grid_spacing: 512_000,
            bounds_min: Vec2I { x: -5_120_000, y: -5_120_000 },
            bounds_max: Vec2I { x: 5_120_000, y: 5_120_000 },
            dropzone_min: Vec2I { x: -1_024_000, y: -1_024_000 },
            dropzone_max: Vec2I { x: 1_024_000, y: 1_024_000 },
        }
    }
}

} // verus!
