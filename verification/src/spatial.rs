//! Uniform-grid spatial index over the bounded world.
//!
//! The world rectangle is split into square cells of a fixed size; each cell
//! holds the identities of the agents currently in it, and a hash map keyed
//! by identity records each agent's cell, position and velocity. Radius
//! queries enumerate the block of cells that covers the radius and keep the
//! agents whose exact squared Euclidean distance is within range, so their
//! cost is proportional to the area queried, not to the population.

use vstd::prelude::*;

verus! {

broadcast use vstd::std_specs::hash::axiom_u64_obeys_hash_table_key_model;

use crate::COORD_LIMIT;
use crate::math::{div_floor_i64, isqrt_u64, sqrt_floor};
use crate::vec2::{dist_sq, Vec2I};
use vstd::hash_map::HashMapWithView;

/// One hit of a radius query: the agent's identity, its recorded position
/// and velocity, and the floor of its Euclidean distance to the query point.
#[derive(Clone, Copy, Debug, PartialEq, Eq, Structural)]
pub struct SpatialQueryResult {
    pub key: u64,
    pub position: Vec2I,
    pub velocity: Vec2I,
    pub distance: i64,
}

/// What the index records for one agent.
pub struct IndexEntry {
    pub cell: usize,
    pub position: Vec2I,
    pub velocity: Vec2I,
}

/// Grid of cells plus a per-agent table of last known cell, position and
/// velocity.
pub struct SpatialIndex {
    pub min: Vec2I,
    pub max: Vec2I,
    pub grid_x: usize,
    pub grid_y: usize,
    pub len: usize,
    pub cell_size: i64,
    pub entities: Vec<Vec<u64>>,
    pub by_entity: HashMapWithView<u64, IndexEntry>,
}

/// Ceiling of `a / b`, for positive `b`.
pub open spec fn ceil_div(a: int, b: int) -> int {
    (a + b - 1) / b
}

/// Basic facts about `ceil_div` with a nonnegative dividend.
pub proof fn lemma_ceil_div_props(a: int, b: int)
    requires
        0 <= a,
        1 <= b,
    ensures
        0 <= ceil_div(a, b) <= a,
        ceil_div(a, b) * b >= a,
        a >= 1 ==> ceil_div(a, b) >= 1,
{
    let q = ceil_div(a, b);
    vstd::arithmetic::div_mod::lemma_fundamental_div_mod(a + b - 1, b);
    let r = (a + b - 1) % b;
    vstd::arithmetic::div_mod::lemma_mod_bound(a + b - 1, b);
    assert(a + b - 1 == b * q + r);
    assert(q * b == b * q) by (nonlinear_arith);
    assert(q >= 0) by (nonlinear_arith)
        requires
            q * b >= a,
            a >= 0,
            b >= 1,
    ;
    if a >= 1 {
        assert(q >= 1) by (nonlinear_arith)
            requires
                q * b >= a,
                a >= 1,
                b >= 1,
        ;
    }
    if a == 0 {
        assert(b - 1 == 0 * b + (b - 1)) by (nonlinear_arith);
        vstd::arithmetic::div_mod::lemma_fundamental_div_mod_converse(b - 1, b, 0, b - 1);
    } else {
        assert(a + b - 1 <= a * b) by (nonlinear_arith)
            requires
                a >= 1,
                b >= 1,
        ;
        vstd::arithmetic::div_mod::lemma_div_is_ordered(a + b - 1, a * b, b);
        vstd::arithmetic::div_mod::lemma_div_by_multiple(a, b);
    }
}

/// A row-major cell coordinate pair maps into the flattened range.
proof fn lemma_row_major(ax: int, ay: int, gx: int, gy: int)
    requires
        0 <= ax < gx,
        0 <= ay < gy,
    ensures
        0 <= ay * gx + ax < gx * gy,
    decreases 0int,
{
    assert(0 <= ay * gx + ax < gx * gy) by (nonlinear_arith)
        requires
            0 <= ax < gx,
            0 <= ay < gy,
    ;
}

/// Distinct cell coordinates give distinct flattened indices.
proof fn lemma_row_major_inj(ax: int, ay: int, bx: int, cy: int, gx: int)
    requires
        0 <= ax < gx,
        0 <= bx < gx,
        ay * gx + ax == cy * gx + bx,
    ensures
        ax == bx,
        ay == cy,
{
    assert(ax == bx && ay == cy) by (nonlinear_arith)
        requires
            0 <= ax < gx,
            0 <= bx < gx,
            ay * gx + ax == cy * gx + bx,
    ;
}

/// All offsets `(x + dx, y + dy)` for `dx`, `dy` in `[-distance, distance]`,
/// in row-major order over `dx` then `dy`. A negative distance spans no
/// offsets at all.
pub fn offset_iter(x: i64, y: i64, distance: i64) -> (r: Vec<(i64, i64)>)
    requires
        -COORD_LIMIT <= distance <= COORD_LIMIT,
        -COORD_LIMIT <= x <= COORD_LIMIT,
        -COORD_LIMIT <= y <= COORD_LIMIT,
        distance >= 0 ==> (2 * distance + 1) * (2 * distance + 1) <= usize::MAX,
    ensures
        distance < 0 ==> r@.len() == 0,
        distance >= 0 ==> r@.len() == (2 * distance + 1) * (2 * distance + 1),
        forall|i: int|
            0 <= i < r@.len() ==> #[trigger] r@[i].0 == x - distance + i / (2 * distance + 1)
                && r@[i].1 == y - distance + i % (2 * distance + 1),
{
    if distance < 0 {
        return Vec::new();
    }
    let w: i64 = 2 * distance + 1;
    let mut r: Vec<(i64, i64)> = Vec::new();
    let mut dx: i64 = -distance;
    while dx <= distance
        invariant
            -distance <= dx <= distance + 1,
            0 <= distance <= COORD_LIMIT,
            -COORD_LIMIT <= x <= COORD_LIMIT,
            -COORD_LIMIT <= y <= COORD_LIMIT,
            w == 2 * distance + 1,
            r@.len() == (dx + distance) * w,
            forall|i: int|
                0 <= i < r@.len() ==> #[trigger] r@[i].0 == x - distance + i / (w as int)
                    && r@[i].1 == y - distance + i % (w as int),
        decreases distance - dx + 1,
    {
        let mut dy: i64 = -distance;
        while dy <= distance
            invariant
                -distance <= dy <= distance + 1,
                -distance <= dx <= distance,
                0 <= distance <= COORD_LIMIT,
                -COORD_LIMIT <= x <= COORD_LIMIT,
                -COORD_LIMIT <= y <= COORD_LIMIT,
                w == 2 * distance + 1,
                r@.len() == (dx + distance) * w + (dy + distance),
                forall|i: int|
                    0 <= i < r@.len() ==> #[trigger] r@[i].0 == x - distance + i / (w as int)
                        && r@[i].1 == y - distance + i % (w as int),
            decreases distance - dy + 1,
        {
            proof {
                let i = r@.len() as int;
                assert(i == (dx + distance) * w + (dy + distance));
                vstd::arithmetic::div_mod::lemma_fundamental_div_mod_converse_div(
                    i,
                    w as int,
                    dx + distance,
                    dy + distance,
                );
                vstd::arithmetic::div_mod::lemma_fundamental_div_mod_converse_mod(
                    i,
                    w as int,
                    dx + distance,
                    dy + distance,
                );
                assert((dx + distance + 1) * w == (dx + distance) * w + w) by (nonlinear_arith);
                assert(r@.len() + 1 <= (2 * distance + 1) * (2 * distance + 1)) by (nonlinear_arith)
                    requires
                        r@.len() == (dx + distance) * w + (dy + distance),
                        w == 2 * distance + 1,
                        -distance <= dx <= distance,
                        -distance <= dy <= distance,
                ;
            }
            r.push((x + dx, y + dy));
            dy = dy + 1;
        }
        proof {
            assert((dx + 1 + distance) * w == (dx + distance) * w + w) by (nonlinear_arith);
        }
        dx = dx + 1;
    }
    proof {
        assert((distance + 1 + distance) * w == (2 * distance + 1) * (2 * distance + 1));
    }
    r
}

impl SpatialIndex {
    /// Grid column of a point (may be out of range for far-away points).
    pub open spec fn spec_cell_x(self, p: (int, int)) -> int {
        (p.0 - self.min.x) / self.cell_size as int
    }

    /// Grid row of a point.
    pub open spec fn spec_cell_y(self, p: (int, int)) -> int {
        (p.1 - self.min.y) / self.cell_size as int
    }

    /// The point's cell lies within the grid.
    pub open spec fn spec_in_grid(self, p: (int, int)) -> bool {
        &&& 0 <= self.spec_cell_x(p) < self.grid_x as int
        &&& 0 <= self.spec_cell_y(p) < self.grid_y as int
    }

    /// Flattened row-major cell index of a point.
    pub open spec fn spec_cell_index(self, p: (int, int)) -> int {
        self.spec_cell_y(p) * self.grid_x as int + self.spec_cell_x(p)
    }

    /// The grid geometry (extent, cell size, dimensions) of two indexes
    /// agrees.
    pub open spec fn same_grid(self, other: Self) -> bool {
        &&& self.min == other.min
        &&& self.max == other.max
        &&& self.grid_x == other.grid_x
        &&& self.grid_y == other.grid_y
        &&& self.len == other.len
        &&& self.cell_size == other.cell_size
    }

    /// Whether a point's cell lies within the grid.
    pub fn in_grid(&self, p: Vec2I) -> (r: bool)
        requires
            self.wf(),
            p.valid(),
        ensures
            r == self.spec_in_grid(p@),
    {
        let cx: i64 = div_floor_i64(p.x - self.min.x, self.cell_size);
        let cy: i64 = div_floor_i64(p.y - self.min.y, self.cell_size);
        cx >= 0 && cy >= 0 && cx < self.grid_x as i64 && cy < self.grid_y as i64
    }

    /// Any point of the covered half-open rectangle falls in the grid.
    pub proof fn lemma_in_grid_of_bounds(self, p: (int, int))
        requires
            self.wf(),
            self.min.x <= p.0 < self.max.x,
            self.min.y <= p.1 < self.max.y,
        ensures
            self.spec_in_grid(p),
    {
        let cs = self.cell_size as int;
        lemma_ceil_div_props(self.max.x - self.min.x, cs);
        lemma_ceil_div_props(self.max.y - self.min.y, cs);
        vstd::arithmetic::div_mod::lemma_div_pos_is_pos(p.0 - self.min.x, cs);
        vstd::arithmetic::div_mod::lemma_div_pos_is_pos(p.1 - self.min.y, cs);
        assert(self.spec_cell_x(p) < self.grid_x as int) by {
            let gx = self.grid_x as int;
            assert(p.0 - self.min.x <= gx * cs - 1) by (nonlinear_arith)
                requires
                    p.0 < self.max.x,
                    gx * cs >= self.max.x - self.min.x,
            ;
            vstd::arithmetic::div_mod::lemma_div_is_ordered(p.0 - self.min.x, gx * cs - 1, cs);
            assert((gx * cs - 1) / cs == gx - 1) by {
                assert((gx - 1) * cs + (cs - 1) == gx * cs - 1) by (nonlinear_arith);
                vstd::arithmetic::div_mod::lemma_fundamental_div_mod_converse(
                    gx * cs - 1,
                    cs,
                    gx - 1,
                    cs - 1,
                );
            }
        }
        assert(self.spec_cell_y(p) < self.grid_y as int) by {
            let gy = self.grid_y as int;
            assert(p.1 - self.min.y <= gy * cs - 1) by (nonlinear_arith)
                requires
                    p.1 < self.max.y,
                    gy * cs >= self.max.y - self.min.y,
            ;
            vstd::arithmetic::div_mod::lemma_div_is_ordered(p.1 - self.min.y, gy * cs - 1, cs);
            assert((gy * cs - 1) / cs == gy - 1) by {
                assert((gy - 1) * cs + (cs - 1) == gy * cs - 1) by (nonlinear_arith);
                vstd::arithmetic::div_mod::lemma_fundamental_div_mod_converse(
                    gy * cs - 1,
                    cs,
                    gy - 1,
                    cs - 1,
                );
            }
        }
    }

    spec fn geom_wf(self) -> bool {
        &&& self.min.valid()
        &&& self.max.valid()
        &&& 1 <= self.cell_size <= COORD_LIMIT
        &&& self.min.x < self.max.x
        &&& self.min.y < self.max.y
        &&& self.grid_x as int == ceil_div(self.max.x - self.min.x, self.cell_size as int)
        &&& self.grid_y as int == ceil_div(self.max.y - self.min.y, self.cell_size as int)
        &&& 1 <= self.grid_x <= 0x4000_0000
        &&& 1 <= self.grid_y <= 0x4000_0000
        &&& self.len as int == self.grid_x as int * self.grid_y as int
        &&& self.entities@.len() == self.len as int
    }

    spec fn entries_wf(self) -> bool {
        forall|k: u64|
            #[trigger] self.by_entity@.contains_key(k) ==> {
                let e = self.by_entity@[k];
                &&& e.position.valid()
                &&& e.velocity.valid()
                &&& self.spec_in_grid(e.position@)
                &&& e.cell as int == self.spec_cell_index(e.position@)
                &&& (e.cell as int) < self.entities@.len()
                &&& self.entities@[e.cell as int]@.contains(k)
            }
    }

    spec fn cells_wf(self) -> bool {
        forall|j: int, i: int|
            0 <= j < self.entities@.len() && 0 <= i < self.entities@[j]@.len() ==> {
                let k = #[trigger] self.entities@[j]@[i];
                self.by_entity@.contains_key(k) && self.by_entity@[k].cell as int == j
            }
    }

    spec fn cells_nodup(self) -> bool {
        forall|j: int, i1: int, i2: int|
            #![trigger self.entities@[j]@[i1], self.entities@[j]@[i2]]
            0 <= j < self.entities@.len() && 0 <= i1 < i2 < self.entities@[j]@.len()
                ==> self.entities@[j]@[i1] != self.entities@[j]@[i2]
    }

    /// Internal consistency: grid geometry as constructed, every table entry
    /// in the cell its position falls in, every cell member backed by a
    /// table entry, no cell holding an identity twice.
    pub closed spec fn wf(self) -> bool {
        &&& self.geom_wf()
        &&& self.entries_wf()
        &&& self.cells_wf()
        &&& self.cells_nodup()
    }

    /// The index's abstract contents: which agents are indexed, and the
    /// position and velocity recorded for each.
    pub closed spec fn contents(self) -> Map<u64, (Vec2I, Vec2I)> {
        Map::new(
            |k: u64| self.by_entity@.contains_key(k),
            |k: u64| (self.by_entity@[k].position, self.by_entity@[k].velocity),
        )
    }

    /// `k` is indexed within squared distance `d * d` of `p`.
    pub open spec fn qualifies(self, k: u64, p: (int, int), d: int) -> bool {
        &&& self.contents().contains_key(k)
        &&& dist_sq(self.contents()[k].0@, p) <= d * d
    }

    /// Every indexed position is in range and inside the grid.
    pub proof fn lemma_contents_valid(self)
        requires
            self.wf(),
        ensures
            forall|k: u64| #[trigger]
                self.contents().contains_key(k) ==> self.contents()[k].0.valid()
                    && self.contents()[k].1.valid() && self.spec_in_grid(self.contents()[k].0@),
    {
    }

    /// Creates an empty index whose grid covers `min..max` with square cells
    /// of side `cell_size`.
    pub fn new(min: Vec2I, max: Vec2I, cell_size: i64) -> (r: Self)
        requires
            min.valid(),
            max.valid(),
            1 <= cell_size <= COORD_LIMIT,
            min.x < max.x,
            min.y < max.y,
            ceil_div(max.x - min.x, cell_size as int) * ceil_div(max.y - min.y, cell_size as int)
                <= usize::MAX,
        ensures
            r.wf(),
            r.min == min,
            r.max == max,
            r.cell_size == cell_size,
            r.grid_x as int == ceil_div(max.x - min.x, cell_size as int),
            r.grid_y as int == ceil_div(max.y - min.y, cell_size as int),
            r.len as int == r.grid_x as int * r.grid_y as int,
            r.entities@.len() == r.len as int,
            forall|j: int| 0 <= j < r.entities@.len() ==> #[trigger] r.entities@[j]@.len() == 0,
            r.by_entity@ == Map::<u64, IndexEntry>::empty(),
            r.contents() == Map::<u64, (Vec2I, Vec2I)>::empty(),
    {
        proof {
            lemma_ceil_div_props(max.x - min.x, cell_size as int);
            lemma_ceil_div_props(max.y - min.y, cell_size as int);
            assert(ceil_div(max.x - min.x, cell_size as int) <= ceil_div(
                max.x - min.x,
                cell_size as int,
            ) * ceil_div(max.y - min.y, cell_size as int)) by (nonlinear_arith)
                requires
                    ceil_div(max.x - min.x, cell_size as int) >= 0,
                    ceil_div(max.y - min.y, cell_size as int) >= 1,
            ;
            assert(ceil_div(max.y - min.y, cell_size as int) <= ceil_div(
                max.x - min.x,
                cell_size as int,
            ) * ceil_div(max.y - min.y, cell_size as int)) by (nonlinear_arith)
                requires
                    ceil_div(max.y - min.y, cell_size as int) >= 0,
                    ceil_div(max.x - min.x, cell_size as int) >= 1,
            ;
        }
        let gx: i64 = div_floor_i64(max.x - min.x + cell_size - 1, cell_size);
        let gy: i64 = div_floor_i64(max.y - min.y + cell_size - 1, cell_size);
        let grid_x: usize = gx as usize;
        let grid_y: usize = gy as usize;
        let len: usize = grid_x * grid_y;
        let mut cells: Vec<Vec<u64>> = Vec::new();
        let mut i: usize = 0;
        while i < len
            invariant
                cells@.len() == i as int,
                i <= len,
                forall|j: int| 0 <= j < i as int ==> #[trigger] cells@[j]@.len() == 0,
            decreases len - i,
        {
            cells.push(Vec::new());
            i = i + 1;
        }
        let r = SpatialIndex {
            min,
            max,
            grid_x,
            grid_y,
            len,
            cell_size,
            entities: cells,
            by_entity: HashMapWithView::new(),
        };
        proof {
            assert(r.contents() =~= Map::<u64, (Vec2I, Vec2I)>::empty());
        }
        r
    }

    /// Removes an agent from the index entirely (no effect if absent).
    fn detach(&mut self, entity: u64)
        requires
            old(self).wf(),
        ensures
            final(self).wf(),
            final(self).same_grid(*old(self)),
            final(self).contents() == old(self).contents().remove(entity),
            final(self).by_entity@ == old(self).by_entity@.remove(entity),
    {
        let e_cell: usize;
        match self.by_entity.get(&entity) {
            None => {
                proof {
                    assert(self.by_entity@ =~= old(self).by_entity@.remove(entity));
                    assert(self.contents() =~= old(self).contents().remove(entity));
                }
                return ;
            },
            Some(e) => {
                e_cell = e.cell;
            },
        }
        let ghost s = self.entities@[e_cell as int]@;
        proof {
            assert(s.contains(entity));
        }
        let clen: usize = self.entities[e_cell].len();
        let mut i: usize = 0;
        while self.entities[e_cell][i] != entity
            invariant
                *self == *old(self),
                old(self).wf(),
                e_cell < self.entities@.len(),
                s == self.entities@[e_cell as int]@,
                clen == s.len(),
                0 <= i < clen,
                exists|t: int| i <= t < s.len() && s[t] == entity,
            decreases s.len() - i,
        {
            proof {
                let t = choose|t: int| i <= t < s.len() && s[t] == entity;
                assert(t >= i + 1);
            }
            i = i + 1;
        }
        // `i` is the position of `entity` in its cell.
        let cell: &mut Vec<u64> = &mut self.entities[e_cell];
        cell.remove(i);
        self.by_entity.remove(&entity);
        proof {
            let pre = *old(self);
            let ghost s2 = self.entities@[e_cell as int]@;
            assert(s2 == s.remove(i as int));
            // Membership in the shortened cell, both directions.
            assert forall|k: u64| #[trigger] self.by_entity@.contains_key(k) implies {
                let e = self.by_entity@[k];
                &&& e.position.valid()
                &&& e.velocity.valid()
                &&& self.spec_in_grid(e.position@)
                &&& e.cell as int == self.spec_cell_index(e.position@)
                &&& (e.cell as int) < self.entities@.len()
                &&& self.entities@[e.cell as int]@.contains(k)
            } by {
                assert(pre.by_entity@.contains_key(k) && k != entity);
                let e = pre.by_entity@[k];
                if e.cell == e_cell {
                    let t = choose|t: int| 0 <= t < s.len() && s[t] == k;
                    assert(s[t] == k && s[i as int] == entity);
                    if t < i as int {
                        assert(s2[t] == k);
                        assert(s2.contains(k));
                    } else {
                        assert(t > i as int);
                        assert(s2[t - 1] == k);
                        assert(s2.contains(k));
                    }
                }
            }
            assert forall|j: int, i2: int|
                0 <= j < self.entities@.len() && 0 <= i2 < self.entities@[j]@.len() implies {
                let k = #[trigger] self.entities@[j]@[i2];
                self.by_entity@.contains_key(k) && self.by_entity@[k].cell as int == j
            } by {
                if j == e_cell as int {
                    let k = self.entities@[j]@[i2];
                    if i2 < i as int {
                        assert(k == s[i2]);
                        assert(k != entity);
                    } else {
                        assert(k == s[i2 + 1]);
                        assert(k != entity);
                    }
                    assert(pre.by_entity@.contains_key(k) && pre.by_entity@[k].cell as int == j);
                } else {
                    let k = self.entities@[j]@[i2];
                    assert(pre.by_entity@.contains_key(k) && pre.by_entity@[k].cell as int == j);
                    assert(k != entity);
                }
            }
            assert forall|j: int, i1: int, i2: int|
                0 <= j < self.entities@.len() && 0 <= i1 < i2 < self.entities@[j]@.len() implies
                self.entities@[j]@[i1] != self.entities@[j]@[i2] by {
                if j == e_cell as int {
                    let a1 = if i1 < i as int { i1 } else { i1 + 1 };
                    let a2 = if i2 < i as int { i2 } else { i2 + 1 };
                    assert(self.entities@[j]@[i1] == s[a1]);
                    assert(self.entities@[j]@[i2] == s[a2]);
                    assert(a1 < a2);
                }
            }
            assert(self.contents() =~= old(self).contents().remove(entity));
        }
    }

    /// Inserts or updates an agent. A repeated insert with the same position
    /// and velocity leaves the index unchanged; a position outside the grid
    /// unindexes the agent.
    pub fn insert(&mut self, entity: u64, position: Vec2I, velocity: Vec2I)
        requires
            old(self).wf(),
            position.valid(),
            velocity.valid(),
        ensures
            final(self).wf(),
            final(self).same_grid(*old(self)),
            old(self).spec_in_grid(position@) ==> final(self).contents() == old(
                self,
            ).contents().insert(entity, (position, velocity)),
            !old(self).spec_in_grid(position@) ==> final(self).contents() == old(
                self,
            ).contents().remove(entity),
    {
        let cx: i64 = div_floor_i64(position.x - self.min.x, self.cell_size);
        let cy: i64 = div_floor_i64(position.y - self.min.y, self.cell_size);
        if cx < 0 || cy < 0 || cx >= self.grid_x as i64 || cy >= self.grid_y as i64 {
            self.detach(entity);
            return ;
        }
        proof {
            lemma_row_major(cx as int, cy as int, self.grid_x as int, self.grid_y as int);
        }
        let idx: usize = (cy as usize) * self.grid_x + (cx as usize);
        let mut unchanged = false;
        match self.by_entity.get(&entity) {
            Some(e) => {
                if e.position == position && e.velocity == velocity {
                    unchanged = true;
                }
            },
            None => {},
        }
        if unchanged {
            proof {
                assert(self.contents() =~= old(self).contents().insert(
                    entity,
                    (position, velocity),
                ));
            }
            return ;
        }
        self.detach(entity);
        let ghost mid = *self;
        let cell: &mut Vec<u64> = &mut self.entities[idx];
        cell.push(entity);
        self.by_entity.insert(entity, IndexEntry { cell: idx, position, velocity });
        proof {
            let ghost s = mid.entities@[idx as int]@;
            assert(self.entities@[idx as int]@ == s.push(entity));
            // The pushed identity was not in any cell before.
            assert forall|k: u64| #[trigger] self.by_entity@.contains_key(k) implies {
                let e = self.by_entity@[k];
                &&& e.position.valid()
                &&& e.velocity.valid()
                &&& self.spec_in_grid(e.position@)
                &&& e.cell as int == self.spec_cell_index(e.position@)
                &&& (e.cell as int) < self.entities@.len()
                &&& self.entities@[e.cell as int]@.contains(k)
            } by {
                if k == entity {
                    assert(self.by_entity@[k].cell == idx);
                    assert(self.entities@[idx as int]@[s.len() as int] == entity);
                    assert(self.entities@[idx as int]@.contains(entity));
                } else {
                    assert(mid.by_entity@.contains_key(k));
                    let e = mid.by_entity@[k];
                    if e.cell == idx {
                        let t = choose|t: int| 0 <= t < s.len() && s[t] == k;
                        assert(self.entities@[idx as int]@[t] == k);
                        assert(self.entities@[e.cell as int]@.contains(k));
                    }
                }
            }
            assert forall|j: int, i2: int|
                0 <= j < self.entities@.len() && 0 <= i2 < self.entities@[j]@.len() implies {
                let k = #[trigger] self.entities@[j]@[i2];
                self.by_entity@.contains_key(k) && self.by_entity@[k].cell as int == j
            } by {
                if j == idx as int && i2 == s.len() as int {
                    assert(self.entities@[j]@[i2] == entity);
                } else {
                    let k = self.entities@[j]@[i2];
                    assert(k == mid.entities@[j]@[i2]);
                    assert(mid.by_entity@.contains_key(k) && mid.by_entity@[k].cell as int == j);
                    assert(k != entity);
                }
            }
            assert forall|j: int, i1: int, i2: int|
                0 <= j < self.entities@.len() && 0 <= i1 < i2 < self.entities@[j]@.len() implies
                self.entities@[j]@[i1] != self.entities@[j]@[i2] by {
                if j == idx as int && i2 == s.len() as int {
                    let k1 = self.entities@[j]@[i1];
                    assert(k1 == s[i1]);
                    assert(mid.by_entity@.contains_key(k1));
                    assert(k1 != entity);
                }
            }
            assert(self.contents() =~= old(self).contents().insert(entity, (position, velocity)));
        }
    }
}


/// `k` occurs among the keys of a triple list.
pub open spec fn key_in_triples(res: Seq<(u64, Vec2I, Vec2I)>, k: u64) -> bool {
    exists|i: int| 0 <= i < res.len() && #[trigger] res[i].0 == k
}

/// No key occurs twice in a triple list.
pub open spec fn triple_keys_distinct(res: Seq<(u64, Vec2I, Vec2I)>) -> bool {
    forall|i1: int, i2: int| 0 <= i1 < i2 < res.len() ==> res[i1].0 != res[i2].0
}

/// `k` occurs among the keys of a result list.
pub open spec fn key_in_results(res: Seq<SpatialQueryResult>, k: u64) -> bool {
    exists|i: int| 0 <= i < res.len() && #[trigger] res[i].key == k
}

/// No key occurs twice in a result list.
pub open spec fn result_keys_distinct(res: Seq<SpatialQueryResult>) -> bool {
    forall|i1: int, i2: int| 0 <= i1 < i2 < res.len() ==> res[i1].key != res[i2].key
}

impl SpatialIndex {
    /// Grid column of an indexed agent's recorded position.
    pub open spec fn ecx(self, k: u64) -> int {
        self.spec_cell_x(self.contents()[k].0@)
    }

    /// Grid row of an indexed agent's recorded position.
    pub open spec fn ecy(self, k: u64) -> int {
        self.spec_cell_y(self.contents()[k].0@)
    }

    /// Every triple in the list is a recorded agent of this index.
    pub open spec fn triples_sound(self, res: Seq<(u64, Vec2I, Vec2I)>) -> bool {
        forall|i: int|
            0 <= i < res.len() ==> {
                let h = #[trigger] res[i];
                self.contents().contains_key(h.0) && self.contents()[h.0] == (h.1, h.2)
            }
    }

    /// An agent within radius `d` of `p` lies in the clamped cell block
    /// around `p`'s cell.
    proof fn lemma_qualifier_in_block(self, k: u64, p: (int, int), d: int)
        requires
            self.wf(),
            0 <= d,
            self.qualifies(k, p, d),
        ensures
            self.ecx(k) >= self.spec_cell_x(p) - ceil_div(d, self.cell_size as int),
            self.ecx(k) <= self.spec_cell_x(p) + ceil_div(d, self.cell_size as int),
            self.ecy(k) >= self.spec_cell_y(p) - ceil_div(d, self.cell_size as int),
            self.ecy(k) <= self.spec_cell_y(p) + ceil_div(d, self.cell_size as int),
            0 <= self.ecx(k) < self.grid_x as int,
            0 <= self.ecy(k) < self.grid_y as int,
    {
        let cs = self.cell_size as int;
        let g = ceil_div(d, cs);
        let q = self.contents()[k].0@;
        lemma_ceil_div_props(d, cs);
        assert((q.0 - p.0) * (q.0 - p.0) + (q.1 - p.1) * (q.1 - p.1) <= d * d);
        assert(-d <= q.0 - p.0 <= d && -d <= q.1 - p.1 <= d) by (nonlinear_arith)
            requires
                (q.0 - p.0) * (q.0 - p.0) + (q.1 - p.1) * (q.1 - p.1) <= d * d,
                d >= 0,
        ;
        vstd::arithmetic::div_mod::lemma_hoist_over_denominator(p.0 - self.min.x, g, cs as nat);
        vstd::arithmetic::div_mod::lemma_hoist_over_denominator(p.0 - self.min.x, -g, cs as nat);
        vstd::arithmetic::div_mod::lemma_hoist_over_denominator(p.1 - self.min.y, g, cs as nat);
        vstd::arithmetic::div_mod::lemma_hoist_over_denominator(p.1 - self.min.y, -g, cs as nat);
        assert(-g * cs == -(g * cs)) by (nonlinear_arith);
        vstd::arithmetic::div_mod::lemma_div_is_ordered(
            q.0 - self.min.x,
            p.0 - self.min.x + g * cs,
            cs,
        );
        vstd::arithmetic::div_mod::lemma_div_is_ordered(
            p.0 - self.min.x - g * cs,
            q.0 - self.min.x,
            cs,
        );
        vstd::arithmetic::div_mod::lemma_div_is_ordered(
            q.1 - self.min.y,
            p.1 - self.min.y + g * cs,
            cs,
        );
        vstd::arithmetic::div_mod::lemma_div_is_ordered(
            p.1 - self.min.y - g * cs,
            q.1 - self.min.y,
            cs,
        );
    }

    /// All agents recorded in the block of cells that covers `distance` in
    /// every direction around `position`: a superset of the exact radius
    /// query, with no distance filtering.
    pub fn simple_query(&self, position: Vec2I, distance: i64) -> (res: Vec<(u64, Vec2I, Vec2I)>)
        requires
            self.wf(),
            position.valid(),
            0 <= distance <= COORD_LIMIT,
        ensures
            self.triples_sound(res@),
            triple_keys_distinct(res@),
            forall|k: u64| #[trigger]
                self.qualifies(k, position@, distance as int) ==> key_in_triples(res@, k),
    {
        let cs: i64 = self.cell_size;
        let gd: i64 = div_floor_i64(distance + cs - 1, cs);
        let cx: i64 = div_floor_i64(position.x - self.min.x, cs);
        let cy: i64 = div_floor_i64(position.y - self.min.y, cs);
        proof {
            lemma_ceil_div_props(distance as int, cs as int);
        }
        let gxi: i64 = self.grid_x as i64;
        let gyi: i64 = self.grid_y as i64;
        let xlo: i64 = if cx - gd > 0 {
            cx - gd
        } else {
            0
        };
        let xhi: i64 = if cx + gd < gxi - 1 {
            cx + gd
        } else {
            gxi - 1
        };
        let ylo: i64 = if cy - gd > 0 {
            cy - gd
        } else {
            0
        };
        let yhi: i64 = if cy + gd < gyi - 1 {
            cy + gd
        } else {
            gyi - 1
        };
        let mut res: Vec<(u64, Vec2I, Vec2I)> = Vec::new();
        if xlo > xhi || ylo > yhi {
            proof {
                assert forall|k: u64| #[trigger]
                    self.qualifies(k, position@, distance as int) implies key_in_triples(
                    res@,
                    k,
                ) by {
                    self.lemma_qualifier_in_block(k, position@, distance as int);
                }
            }
            return res;
        }
        proof {
            assert forall|k: u64| #[trigger]
                self.qualifies(k, position@, distance as int) && self.ecy(k) < ylo implies
                key_in_triples(res@, k) by {
                self.lemma_qualifier_in_block(k, position@, distance as int);
            }
        }
        let mut row: i64 = ylo;
        while row <= yhi
            invariant
                self.wf(),
                position.valid(),
                0 <= distance <= COORD_LIMIT,
                cs == self.cell_size,
                gd == ceil_div(distance as int, cs as int),
                0 <= gd,
                cx == self.spec_cell_x(position@),
                cy == self.spec_cell_y(position@),
                gxi == self.grid_x as i64,
                gyi == self.grid_y as i64,
                xlo == if cx - gd > 0 { cx - gd } else { 0 },
                xhi == if cx + gd < gxi - 1 { cx + gd } else { gxi - 1 },
                ylo == if cy - gd > 0 { cy - gd } else { 0 },
                yhi == if cy + gd < gyi - 1 { cy + gd } else { gyi - 1 },
                0 <= xlo <= xhi < gxi,
                0 <= ylo,
                yhi < gyi,
                ylo <= row <= yhi + 1,
                self.triples_sound(res@),
                triple_keys_distinct(res@),
                forall|i: int|
                    0 <= i < res@.len() ==> self.contents().contains_key(#[trigger] res@[i].0)
                        && self.ecy(res@[i].0) < row,
                forall|k: u64| #[trigger]
                    self.qualifies(k, position@, distance as int) && self.ecy(k) < row
                        ==> key_in_triples(res@, k),
            decreases yhi + 1 - row,
        {
            let rowu: usize = row as usize;
            proof {
                assert forall|k: u64| #[trigger]
                    self.qualifies(k, position@, distance as int) && (self.ecy(k) < row || (
                    self.ecy(k) == row && self.ecx(k) < xlo)) implies key_in_triples(res@, k) by {
                    if !(self.ecy(k) < row) {
                        self.lemma_qualifier_in_block(k, position@, distance as int);
                    }
                }
            }
            let mut col: i64 = xlo;
            while col <= xhi
                invariant
                    self.wf(),
                    position.valid(),
                    0 <= distance <= COORD_LIMIT,
                    cs == self.cell_size,
                    gd == ceil_div(distance as int, cs as int),
                    0 <= gd,
                    cx == self.spec_cell_x(position@),
                    cy == self.spec_cell_y(position@),
                    gxi == self.grid_x as i64,
                    gyi == self.grid_y as i64,
                    xlo == if cx - gd > 0 { cx - gd } else { 0 },
                    xhi == if cx + gd < gxi - 1 { cx + gd } else { gxi - 1 },
                    ylo == if cy - gd > 0 { cy - gd } else { 0 },
                    yhi == if cy + gd < gyi - 1 { cy + gd } else { gyi - 1 },
                    0 <= xlo <= xhi < gxi,
                    0 <= ylo,
                    yhi < gyi,
                    ylo <= row <= yhi,
                    rowu as int == row as int,
                    xlo <= col <= xhi + 1,
                    self.triples_sound(res@),
                    triple_keys_distinct(res@),
                    forall|i: int|
                        0 <= i < res@.len() ==> self.contents().contains_key(#[trigger] res@[i].0)
                            && (self.ecy(res@[i].0) < row || (self.ecy(res@[i].0) == row
                            && self.ecx(res@[i].0) < col)),
                    forall|k: u64| #[trigger]
                        self.qualifies(k, position@, distance as int) && (self.ecy(k) < row || (
                        self.ecy(k) == row && self.ecx(k) < col)) ==> key_in_triples(res@, k),
                decreases xhi + 1 - col,
            {
                let colu: usize = col as usize;
                proof {
                    lemma_row_major(col as int, row as int, self.grid_x as int, self.grid_y as int);
                }
                let cell_idx: usize = rowu * self.grid_x + colu;
                let clen: usize = self.entities[cell_idx].len();
                let ghost cellseq = self.entities@[cell_idx as int]@;
                let mut t: usize = 0;
                while t < clen
                    invariant
                        self.wf(),
                        position.valid(),
                        0 <= distance <= COORD_LIMIT,
                        cs == self.cell_size,
                        gd == ceil_div(distance as int, cs as int),
                        0 <= gd,
                        cx == self.spec_cell_x(position@),
                        cy == self.spec_cell_y(position@),
                        gxi == self.grid_x as i64,
                        gyi == self.grid_y as i64,
                        0 <= xlo <= xhi < gxi,
                        0 <= ylo,
                        yhi < gyi,
                        ylo <= row <= yhi,
                        xlo <= col <= xhi,
                        rowu as int == row as int,
                        colu as int == col as int,
                        cell_idx as int == row * self.grid_x as int + col,
                        cell_idx < self.entities@.len(),
                        cellseq == self.entities@[cell_idx as int]@,
                        clen == cellseq.len(),
                        t <= clen,
                        self.triples_sound(res@),
                        triple_keys_distinct(res@),
                        forall|i: int|
                            0 <= i < res@.len() ==> self.contents().contains_key(
                                #[trigger] res@[i].0,
                            ) && (self.ecy(res@[i].0) < row || (self.ecy(res@[i].0) == row
                                && self.ecx(res@[i].0) < col) || (self.ecy(res@[i].0) == row
                                && self.ecx(res@[i].0) == col && exists|u: int|
                                0 <= u < t && cellseq[u] == res@[i].0)),
                        forall|k: u64| #[trigger]
                            self.qualifies(k, position@, distance as int) && (self.ecy(k) < row || (
                            self.ecy(k) == row && self.ecx(k) < col)) ==> key_in_triples(res@, k),
                        forall|u: int| 0 <= u < t ==> key_in_triples(res@, #[trigger] cellseq[u]),
                    decreases clen - t,
                {
                    let id: u64 = self.entities[cell_idx][t];
                    proof {
                        assert(self.by_entity@.contains_key(id) && self.by_entity@[id].cell as int
                            == cell_idx as int);
                        let q = self.by_entity@[id].position@;
                        assert(self.spec_cell_index(q) == cell_idx as int);
                        lemma_row_major_inj(
                            self.spec_cell_x(q),
                            self.spec_cell_y(q),
                            col as int,
                            row as int,
                            self.grid_x as int,
                        );
                        assert(self.ecx(id) == col && self.ecy(id) == row);
                        // the pushed key is new
                        assert forall|i: int| 0 <= i < res@.len() implies res@[i].0 != id by {
                            if res@[i].0 == id {
                                let u = choose|u: int| 0 <= u < t && cellseq[u] == id;
                                assert(cellseq[u] == cellseq[t as int]);
                            }
                        }
                    }
                    match self.by_entity.get(&id) {
                        Some(e) => {
                            let ghost oldres = res@;
                            res.push((id, e.position, e.velocity));
                            proof {
                                assert(res@[oldres.len() as int].0 == id);
                                assert forall|u: int| 0 <= u < t + 1 implies key_in_triples(
                                    res@,
                                    #[trigger] cellseq[u],
                                ) by {
                                    if u < t {
                                        let i = choose|i: int|
                                            0 <= i < oldres.len() && oldres[i].0 == cellseq[u];
                                        assert(res@[i].0 == cellseq[u]);
                                    } else {
                                        assert(res@[oldres.len() as int].0 == cellseq[u]);
                                    }
                                }
                                assert forall|k: u64| #[trigger]
                                    self.qualifies(k, position@, distance as int) && (self.ecy(k)
                                        < row || (self.ecy(k) == row && self.ecx(k) < col)) implies
                                    key_in_triples(res@, k) by {
                                    let i = choose|i: int|
                                        0 <= i < oldres.len() && oldres[i].0 == k;
                                    assert(res@[i].0 == k);
                                }
                            }
                        },
                        None => {
                            proof {
                                assert(false);
                            }
                        },
                    }
                    t = t + 1;
                }
                proof {
                    // every qualifying agent of this cell has been listed
                    assert forall|k: u64| #[trigger]
                        self.qualifies(k, position@, distance as int) && (self.ecy(k) < row || (
                        self.ecy(k) == row && self.ecx(k) < col + 1)) implies key_in_triples(
                        res@,
                        k,
                    ) by {
                        if !(self.ecy(k) < row || (self.ecy(k) == row && self.ecx(k) < col)) {
                            assert(self.ecy(k) == row && self.ecx(k) == col);
                            assert(self.by_entity@.contains_key(k));
                            let q = self.by_entity@[k].position@;
                            assert(self.by_entity@[k].cell as int == self.spec_cell_index(q));
                            assert(self.spec_cell_index(q) == cell_idx as int);
                            assert(cellseq.contains(k));
                            let u = choose|u: int| 0 <= u < cellseq.len() && cellseq[u] == k;
                            assert(key_in_triples(res@, cellseq[u]));
                        }
                    }
                }
                col = col + 1;
            }
            proof {
                assert forall|k: u64| #[trigger]
                    self.qualifies(k, position@, distance as int) && self.ecy(k) < row + 1 implies
                    key_in_triples(res@, k) by {
                    if self.ecy(k) == row {
                        self.lemma_qualifier_in_block(k, position@, distance as int);
                    }
                }
            }
            row = row + 1;
        }
        proof {
            assert forall|k: u64| #[trigger]
                self.qualifies(k, position@, distance as int) implies key_in_triples(res@, k) by {
                self.lemma_qualifier_in_block(k, position@, distance as int);
            }
        }
        res
    }

    /// What `query` guarantees of its result for radius `d`: every hit is a
    /// recorded agent within `d` with the floor of its true distance, keys
    /// are distinct, and (for a positive radius) every recorded agent within
    /// `d` is among the hits.
    pub open spec fn results_valid(self, p: (int, int), d: int, res: Seq<SpatialQueryResult>) -> bool {
        &&& forall|i: int|
            0 <= i < res.len() ==> {
                let h = #[trigger] res[i];
                &&& self.contents().contains_key(h.key)
                &&& self.contents()[h.key].0 == h.position
                &&& self.contents()[h.key].1 == h.velocity
                &&& dist_sq(h.position@, p) <= d * d
                &&& h.distance == sqrt_floor(dist_sq(h.position@, p))
                &&& 0 <= h.distance
            }
        &&& result_keys_distinct(res)
        &&& (d > 0 ==> forall|k: u64| #[trigger] self.qualifies(k, p, d) ==> key_in_results(res, k))
    }

    /// Exact radius query: all indexed agents whose Euclidean distance to
    /// `position` is at most `distance`, each with its recorded position and
    /// velocity and the floor of its distance. A nonpositive radius returns
    /// nothing; ordering is arbitrary.
    pub fn query(&self, position: Vec2I, distance: i64) -> (res: Vec<SpatialQueryResult>)
        requires
            self.wf(),
            position.valid(),
            distance <= COORD_LIMIT,
        ensures
            distance <= 0 ==> res@.len() == 0,
            forall|i: int|
                0 <= i < res@.len() ==> {
                    let h = #[trigger] res@[i];
                    &&& self.contents().contains_key(h.key)
                    &&& self.contents()[h.key].0 == h.position
                    &&& self.contents()[h.key].1 == h.velocity
                    &&& dist_sq(h.position@, position@) <= distance * distance
                    &&& h.distance == sqrt_floor(dist_sq(h.position@, position@))
                    &&& 0 <= h.distance
                },
            result_keys_distinct(res@),
            distance > 0 ==> forall|k: u64| #[trigger]
                self.qualifies(k, position@, distance as int) ==> key_in_results(res@, k),
            self.results_valid(position@, distance as int, res@),
    {
        let mut res: Vec<SpatialQueryResult> = Vec::new();
        if distance <= 0 {
            return res;
        }
        let cand: Vec<(u64, Vec2I, Vec2I)> = self.simple_query(position, distance);
        proof {
            self.lemma_contents_valid();
        }
        let mut i: usize = 0;
        while i < cand.len()
            invariant
                self.wf(),
                position.valid(),
                0 < distance <= COORD_LIMIT,
                self.triples_sound(cand@),
                triple_keys_distinct(cand@),
                forall|k: u64| #[trigger]
                    self.qualifies(k, position@, distance as int) ==> key_in_triples(cand@, k),
                i <= cand@.len(),
                forall|j: int|
                    0 <= j < res@.len() ==> {
                        let h = #[trigger] res@[j];
                        &&& self.contents().contains_key(h.key)
                        &&& self.contents()[h.key].0 == h.position
                        &&& self.contents()[h.key].1 == h.velocity
                        &&& dist_sq(h.position@, position@) <= distance * distance
                        &&& h.distance == sqrt_floor(dist_sq(h.position@, position@))
                        &&& 0 <= h.distance
                    },
                forall|j: int|
                    0 <= j < res@.len() ==> exists|u: int|
                        0 <= u < i && cand@[u].0 == #[trigger] res@[j].key,
                result_keys_distinct(res@),
                forall|u: int|
                    0 <= u < i && dist_sq(#[trigger] cand@[u].1@, position@) <= distance * distance
                        ==> key_in_results(res@, cand@[u].0),
            decreases cand@.len() - i,
        {
            let (k, pos, vel) = cand[i];
            proof {
                assert(cand@[i as int].0 == k && cand@[i as int].1 == pos && cand@[i as int].2
                    == vel);
                assert(self.contents().contains_key(k));
                assert(pos.valid());
            }
            let d2: i64 = pos.dist_sq(position);
            proof {
                crate::vec2::lemma_square_range(distance as int, COORD_LIMIT as int);
            }
            if d2 <= distance * distance {
                let dist: u64 = isqrt_u64(d2 as u64);
                proof {
                    assert(dist <= 0x1_0000_0000u64) by (nonlinear_arith)
                        requires
                            (dist as int) * (dist as int) <= d2 as int,
                            d2 <= 0x2000_0000_0000_0000i64,
                    ;
                }
                let ghost oldres = res@;
                res.push(
                    SpatialQueryResult { key: k, position: pos, velocity: vel, distance: dist as i64 },
                );
                proof {
                    assert forall|j: int| 0 <= j < oldres.len() implies oldres[j].key != k by {
                        if oldres[j].key == k {
                            let u = choose|u: int| 0 <= u < i && cand@[u].0 == oldres[j].key;
                            assert(cand@[u].0 == cand@[i as int].0);
                        }
                    }
                    assert forall|u: int|
                        0 <= u < i + 1 && dist_sq(#[trigger] cand@[u].1@, position@) <= distance
                            * distance implies key_in_results(res@, cand@[u].0) by {
                        if u < i {
                            let j = choose|j: int|
                                0 <= j < oldres.len() && oldres[j].key == cand@[u].0;
                            assert(res@[j].key == cand@[u].0);
                        } else {
                            assert(res@[oldres.len() as int].key == cand@[u].0);
                        }
                    }
                }
            } else {
                proof {
                    assert forall|u: int|
                        0 <= u < i + 1 && dist_sq(#[trigger] cand@[u].1@, position@) <= distance
                            * distance implies key_in_results(res@, cand@[u].0) by {
                        if u == i {
                            assert(dist_sq(cand@[u].1@, position@) > distance * distance);
                        }
                    }
                }
            }
            i = i + 1;
        }
        proof {
            assert forall|k: u64| #[trigger]
                self.qualifies(k, position@, distance as int) implies key_in_results(res@, k) by {
                let u = choose|u: int| 0 <= u < cand@.len() && cand@[u].0 == k;
                assert(self.contents()[k].0 == cand@[u].1);
                assert(key_in_results(res@, cand@[u].0));
            }
        }
        res
    }
}

/// Re-inserting an agent with an unchanged record leaves the index contents
/// unchanged: insertion is idempotent on the contents map.
pub proof fn lemma_insert_idempotent(m: Map<u64, (Vec2I, Vec2I)>, k: u64, v: (Vec2I, Vec2I))
    ensures
        m.insert(k, v).insert(k, v) == m.insert(k, v),
{
    assert(m.insert(k, v).insert(k, v) =~= m.insert(k, v));
}

/// For any two indexed agents, a radius that covers their separation
/// qualifies each for a query at the other's position, so `query`'s
/// completeness clause returns it.
pub proof fn lemma_query_covers_pair(s: SpatialIndex, a: u64, b: u64, d: int)
    requires
        s.contents().contains_key(a),
        s.contents().contains_key(b),
        dist_sq(s.contents()[b].0@, s.contents()[a].0@) <= d * d,
    ensures
        s.qualifies(b, s.contents()[a].0@, d),
        s.qualifies(a, s.contents()[b].0@, d),
{
    let pa = s.contents()[a].0@;
    let pb = s.contents()[b].0@;
    assert(dist_sq(pa, pb) == dist_sq(pb, pa)) by (nonlinear_arith);
}


} // verus!
