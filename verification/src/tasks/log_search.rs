//! Finding the nearest tree by an expanding ring scan, at any height that the bot can walk
//! to: up to `SCAN_VERT` blocks above and below it.

use crate::memory::Pos;
use crate::text::ends_with;
use crate::world::{block_state, is_log_name, state_of, States};
use std::collections::HashSet;
use vstd::prelude::*;

verus! {

broadcast use vstd::std_specs::hash::group_hash_axioms;

/// How far out (blocks) the ring scan expands before declaring that nothing is in
/// view. Kept modest: trees farther away are reached by exploring toward them.
pub const MAX_RADIUS: i32 = 64;

/// Vertical half-band around the bot that the column scan checks.
pub const SCAN_VERT: i32 = 48;

/// A block of the registry: its name and the states that belong to it.
#[derive(Debug, Clone, PartialEq, Eq)]
pub struct BlockKind {
    pub name: String,
    pub min_state_id: u32,
    pub max_state_id: u32,
}

/// State `s` belongs to a log.
pub open spec fn is_log_state(kinds: Seq<BlockKind>, s: u32) -> bool {
    exists|i: int|
        0 <= i < kinds.len() && is_log_name((#[trigger] kinds[i]).name@) && kinds[i].min_state_id <= s
            <= kinds[i].max_state_id
}

/// Every block state id belonging to a log block (all species and axes).
pub fn log_state_ids(kinds: &Vec<BlockKind>) -> (r: HashSet<u32>)
    ensures
        forall|s: u32| #[trigger] r@.contains(s) <==> is_log_state(kinds@, s),
{
    let mut ids: HashSet<u32> = HashSet::new();
    let mut i: usize = 0;
    while i < kinds.len()
        invariant
            i <= kinds@.len(),
            forall|s: u32| #[trigger] ids@.contains(s) <==> is_log_state(kinds@.take(i as int), s),
        decreases kinds@.len() - i,
    {
        let kind = &kinds[i];
        let ghost before = ids@;
        let is_log: bool = ends_with(kind.name.as_str(), "_log");
        if is_log && kind.min_state_id <= kind.max_state_id {
            let mut s: u32 = kind.min_state_id;
            ids.insert(s);
            while s < kind.max_state_id
                invariant
                    kind.min_state_id <= s <= kind.max_state_id,
                    forall|t: u32| #[trigger]
                        ids@.contains(t) <==> before.contains(t) || kind.min_state_id <= t <= s,
                decreases kind.max_state_id - s,
            {
                s += 1;
                ids.insert(s);
            }
        }
        proof {
            let seen = kinds@.take(i as int);
            let next = kinds@.take(i + 1);
            assert forall|s: u32| #[trigger] ids@.contains(s) <==> is_log_state(next, s) by {
                if is_log_state(seen, s) {
                    let j = choose|j: int|
                        0 <= j < seen.len() && is_log_name((#[trigger] seen[j]).name@)
                            && seen[j].min_state_id <= s <= seen[j].max_state_id;
                    assert(next[j] == seen[j]);
                }
                if is_log_state(next, s) {
                    let j = choose|j: int|
                        0 <= j < next.len() && is_log_name((#[trigger] next[j]).name@)
                            && next[j].min_state_id <= s <= next[j].max_state_id;
                    if j < i {
                        assert(seen[j] == next[j]);
                    }
                }
                if is_log && kind.min_state_id <= s <= kind.max_state_id {
                    assert(next[i as int] == *kind);
                }
            }
        }
        i += 1;
    }
    assert(kinds@.take(kinds@.len() as int) =~= kinds@);
    ids
}

/// The levels at which a column is scanned for a bot at height `by`: within the
/// half-band and within the world.
pub open spec fn scan_bottom(by: int, min_y: int) -> int {
    if by - SCAN_VERT > min_y {
        by - SCAN_VERT
    } else {
        min_y
    }
}

pub open spec fn scan_top(by: int, min_y: int, height: int) -> int {
    if by + SCAN_VERT < min_y + height {
        by + SCAN_VERT
    } else {
        min_y + height
    }
}

/// `y` is the lowest level of the column at or above `y0` and below `y1` that
/// holds a log.
pub open spec fn is_trunk_base(
    states: States,
    logs: Set<u32>,
    x: int,
    z: int,
    y0: int,
    y1: int,
    y: int,
) -> bool {
    &&& y0 <= y < y1
    &&& logs.contains(block_state(states, x, y, z))
    &&& forall|lower: int|
        y0 <= lower < y ==> !logs.contains(#[trigger] block_state(states, x, lower, z))
}

/// Where the bot looks from and what it knows.
pub struct Outlook {
    pub at: Pos,
    pub min_y: i32,
    pub height: i32,
    pub states: States,
    pub logs: HashSet<u32>,
    pub unreachable: Vec<Pos>,
}

impl Outlook {
    /// The scan stays within the coordinates.
    pub open spec fn in_range(self) -> bool {
        &&& i32::MIN + MAX_RADIUS <= self.at.0 <= i32::MAX - MAX_RADIUS
        &&& i32::MIN + SCAN_VERT <= self.at.1 <= i32::MAX - SCAN_VERT
        &&& i32::MIN + MAX_RADIUS <= self.at.2 <= i32::MAX - MAX_RADIUS
        &&& self.min_y + self.height <= i32::MAX
        &&& self.min_y + self.height >= i32::MIN
    }

    pub open spec fn trunk_base(self, x: int, z: int, y: int) -> bool {
        is_trunk_base(
            self.states,
            self.logs@,
            x,
            z,
            scan_bottom(self.at.1 as int, self.min_y as int),
            scan_top(self.at.1 as int, self.min_y as int, self.height as int),
            y,
        )
    }

    /// The column has a tree at `y` that is not known to be unreachable.
    pub open spec fn tree_at(self, x: int, z: int, y: int) -> bool {
        self.trunk_base(x, z, y) && !self.unreachable@.contains((x as i32, y as i32, z as i32))
    }

    pub open spec fn has_tree(self, x: int, z: int) -> bool {
        exists|y: int| self.tree_at(x, z, y)
    }
}

/// A column has one trunk base at most.
proof fn lemma_one_base(o: Outlook, x: int, z: int, a: int, b: int)
    requires
        o.trunk_base(x, z, a),
        o.trunk_base(x, z, b),
    ensures
        a == b,
{
    if a < b {
        assert(!o.logs@.contains(block_state(o.states, x, a, z)));
    } else if b < a {
        assert(!o.logs@.contains(block_state(o.states, x, b, z)));
    }
}

pub(crate) fn contains_pos(list: &Vec<Pos>, pos: Pos) -> (r: bool)
    ensures
        r == list@.contains(pos),
{
    let mut i: usize = 0;
    while i < list.len()
        invariant
            i <= list@.len(),
            forall|j: int| 0 <= j < i ==> list@[j] != pos,
        decreases list@.len() - i,
    {
        let p = list[i];
        if p.0 == pos.0 && p.1 == pos.1 && p.2 == pos.2 {
            assert(list@[i as int] == pos);
            return true;
        }
        i += 1;
    }
    false
}

/// Lowest log y (trunk base) in the column at (x, z). None if the column has no
/// log, or its trunk is remembered as unreachable.
pub fn log_in_column(o: &Outlook, x: i32, z: i32) -> (r: Option<i32>)
    requires
        o.in_range(),
    ensures
        r matches Some(y) ==> o.tree_at(x as int, z as int, y as int),
        r is None ==> !o.has_tree(x as int, z as int),
{
    let mut y: i32 = o.at.1 - SCAN_VERT;
    if y < o.min_y {
        y = o.min_y;
    }
    let mut top: i32 = o.at.1 + SCAN_VERT;
    if o.min_y + o.height < top {
        top = o.min_y + o.height;
    }
    let ghost bottom = y;
    while y < top
        invariant
            bottom <= y,
            bottom == scan_bottom(o.at.1 as int, o.min_y as int),
            top == scan_top(o.at.1 as int, o.min_y as int, o.height as int),
            forall|lower: int|
                bottom <= lower < y ==> !o.logs@.contains(
                    #[trigger] block_state(o.states, x as int, lower, z as int),
                ),
        decreases top - y,
    {
        let s: u32 = state_of(&o.states, x, y, z);
        if o.logs.contains(&s) {
            assert(o.trunk_base(x as int, z as int, y as int));
            if contains_pos(&o.unreachable, (x, y, z)) {
                proof {
                    assert forall|other: int| !o.tree_at(x as int, z as int, other) by {
                        if o.trunk_base(x as int, z as int, other) {
                            lemma_one_base(*o, x as int, z as int, y as int, other);
                        }
                    }
                }
                return None;
            }
            return Some(y);
        }
        y += 1;
    }
    None
}

// ── the ring scan ───────────────────────────────────────────────────────────

/// How many rings out from the bot's own column an offset lies.
pub open spec fn ring_of(dx: int, dz: int) -> int {
    let ax = if dx < 0 {
        -dx
    } else {
        dx
    };
    let az = if dz < 0 {
        -dz
    } else {
        dz
    };
    if ax > az {
        ax
    } else {
        az
    }
}

/// The offset that comes `i`-th when ring `r` is scanned: first the two edges of
/// full width, then the two edges without their corners.
pub open spec fn ring_cell(r: int, i: int) -> (int, int) {
    if i < 4 * r + 2 {
        (
            -r + i / 2,
            if i % 2 == 0 {
                -r
            } else {
                r
            },
        )
    } else {
        (
            if i % 2 == 0 {
                -r
            } else {
                r
            },
            -(r - 1) + (i - (4 * r + 2)) / 2,
        )
    }
}

/// The place of an offset in the scan of its ring.
pub open spec fn ring_index(r: int, dx: int, dz: int) -> int {
    if dz == -r {
        2 * (dx + r)
    } else if dz == r {
        2 * (dx + r) + 1
    } else if dx == -r {
        4 * r + 2 + 2 * (dz + r - 1)
    } else {
        4 * r + 2 + 2 * (dz + r - 1) + 1
    }
}

/// The scan of a ring visits every cell of the ring once, and no other.
pub proof fn law_ring_is_scanned_once(r: int, i: int, dx: int, dz: int)
    requires
        r >= 1,
        0 <= i < 8 * r,
    ensures
        ring_of(ring_cell(r, i).0, ring_cell(r, i).1) == r,
        ring_index(r, ring_cell(r, i).0, ring_cell(r, i).1) == i,
        ring_of(dx, dz) == r ==> 0 <= ring_index(r, dx, dz) < 8 * r && ring_cell(
            r,
            ring_index(r, dx, dz),
        ) == (dx, dz),
{
}

/// The offsets of ring `r` in the order of the scan.
pub fn ring_cells(r: i32) -> (cells: Vec<(i32, i32)>)
    requires
        1 <= r <= MAX_RADIUS,
    ensures
        cells@.len() == 8 * r,
        forall|i: int|
            0 <= i < cells@.len() ==> ((#[trigger] cells@[i]).0 as int, cells@[i].1 as int)
                == ring_cell(r as int, i),
{
    let mut cells: Vec<(i32, i32)> = Vec::new();
    let mut dx: i32 = -r;
    while dx <= r
        invariant
            1 <= r <= MAX_RADIUS,
            -r <= dx <= r + 1,
            cells@.len() == 2 * (dx + r),
            forall|i: int|
                0 <= i < cells@.len() ==> ((#[trigger] cells@[i]).0 as int, cells@[i].1 as int)
                    == ring_cell(r as int, i),
        decreases r + 1 - dx,
    {
        cells.push((dx, -r));
        cells.push((dx, r));
        dx += 1;
    }
    let mut dz: i32 = -(r - 1);
    while dz <= r - 1
        invariant
            1 <= r <= MAX_RADIUS,
            -(r - 1) <= dz <= r,
            cells@.len() == 4 * r + 2 + 2 * (dz + r - 1),
            forall|i: int|
                0 <= i < cells@.len() ==> ((#[trigger] cells@[i]).0 as int, cells@[i].1 as int)
                    == ring_cell(r as int, i),
        decreases r - dz,
    {
        cells.push((-r, dz));
        cells.push((r, dz));
        dz += 1;
    }
    cells
}

/// The square of the length of an offset.
pub open spec fn span2(dx: int, dz: int) -> int {
    dx * dx + dz * dz
}

fn span(dx: i32, dz: i32) -> (r: i64)
    requires
        -MAX_RADIUS <= dx <= MAX_RADIUS,
        -MAX_RADIUS <= dz <= MAX_RADIUS,
    ensures
        r == span2(dx as int, dz as int),
        0 <= r <= 8192,
{
    assert(0 <= dx * dx <= 4096) by (nonlinear_arith)
        requires
            -64 <= dx <= 64,
    ;
    assert(0 <= dz * dz <= 4096) by (nonlinear_arith)
        requires
            -64 <= dz <= 64,
    ;
    (dx as i64) * (dx as i64) + (dz as i64) * (dz as i64)
}

/// `tree` is the first tree of its ring, in the order of the scan, that no other
/// tree of the ring is closer than.
pub open spec fn nearest_in_ring(o: Outlook, r: int, tree: Pos) -> bool {
    let dx = tree.0 - o.at.0;
    let dz = tree.2 - o.at.2;
    &&& ring_of(dx, dz) == r
    &&& o.tree_at(tree.0 as int, tree.2 as int, tree.1 as int)
    &&& forall|ex: int, ez: int|
        ring_of(ex, ez) == r && #[trigger] o.has_tree(o.at.0 + ex, o.at.2 + ez) ==> span2(dx, dz)
            <= span2(ex, ez)
    &&& forall|ex: int, ez: int|
        ring_of(ex, ez) == r && #[trigger] o.has_tree(o.at.0 + ex, o.at.2 + ez) && ring_index(
            r,
            ex,
            ez,
        ) < ring_index(r, dx, dz) ==> span2(dx, dz) < span2(ex, ez)
}

/// Ring `r` has no tree.
pub open spec fn bare_ring(o: Outlook, r: int) -> bool {
    forall|ex: int, ez: int|
        ring_of(ex, ez) == r ==> !(#[trigger] o.has_tree(o.at.0 + ex, o.at.2 + ez))
}

/// The nearest tree of one ring.
fn scan_ring(o: &Outlook, r: i32) -> (found: Option<Pos>)
    requires
        o.in_range(),
        1 <= r <= MAX_RADIUS,
    ensures
        found matches Some(tree) ==> nearest_in_ring(*o, r as int, tree),
        found is None ==> bare_ring(*o, r as int),
{
    let cells = ring_cells(r);
    let mut best: Option<Pos> = None;
    let mut best_d: i64 = i64::MAX;
    let mut i: usize = 0;
    while i < cells.len()
        invariant
            i <= cells@.len(),
            o.in_range(),
            1 <= r <= MAX_RADIUS,
            cells@.len() == 8 * r,
            forall|j: int|
                0 <= j < cells@.len() ==> ((#[trigger] cells@[j]).0 as int, cells@[j].1 as int)
                    == ring_cell(r as int, j),
            best is None ==> best_d == i64::MAX && forall|j: int|
                0 <= j < i ==> !o.has_tree(
                    o.at.0 + (#[trigger] ring_cell(r as int, j)).0,
                    o.at.2 + ring_cell(r as int, j).1,
                ),
            best matches Some(tree) ==> {
                let dx = tree.0 - o.at.0;
                let dz = tree.2 - o.at.2;
                &&& ring_of(dx, dz) == r
                &&& 0 <= ring_index(r as int, dx, dz) < i
                &&& best_d == span2(dx, dz)
                &&& o.tree_at(tree.0 as int, tree.2 as int, tree.1 as int)
                &&& forall|j: int|
                    0 <= j < i && o.has_tree(
                        o.at.0 + (#[trigger] ring_cell(r as int, j)).0,
                        o.at.2 + ring_cell(r as int, j).1,
                    ) ==> best_d <= span2(ring_cell(r as int, j).0, ring_cell(r as int, j).1)
                &&& forall|j: int|
                    0 <= j < ring_index(r as int, dx, dz) && o.has_tree(
                        o.at.0 + (#[trigger] ring_cell(r as int, j)).0,
                        o.at.2 + ring_cell(r as int, j).1,
                    ) ==> best_d < span2(ring_cell(r as int, j).0, ring_cell(r as int, j).1)
            },
        decreases cells@.len() - i,
    {
        let (dx, dz) = cells[i];
        proof {
            assert((cells@[i as int].0 as int, cells@[i as int].1 as int) == ring_cell(
                r as int,
                i as int,
            ));
            law_ring_is_scanned_once(r as int, i as int, dx as int, dz as int);
        }
        let found = log_in_column(o, o.at.0 + dx, o.at.2 + dz);
        if let Some(y) = found {
            let d: i64 = span(dx, dz);
            assert(o.has_tree((o.at.0 + dx) as int, (o.at.2 + dz) as int));
            if d < best_d {
                best_d = d;
                best = Some((o.at.0 + dx, y, o.at.2 + dz));
            }
        }
        i += 1;
    }
    proof {
        match best {
            Some(tree) => {
                let dx = tree.0 - o.at.0;
                let dz = tree.2 - o.at.2;
                assert forall|ex: int, ez: int|
                    ring_of(ex, ez) == r && #[trigger] o.has_tree(
                        o.at.0 + ex,
                        o.at.2 + ez,
                    ) implies span2(dx, dz) <= span2(ex, ez) && (ring_index(r as int, ex, ez)
                    < ring_index(r as int, dx, dz) ==> span2(dx, dz) < span2(ex, ez)) by {
                    law_ring_is_scanned_once(r as int, 0, ex, ez);
                    let j = ring_index(r as int, ex, ez);
                    assert(ring_cell(r as int, j) == (ex, ez));
                }
            },
            None => {
                assert forall|ex: int, ez: int| ring_of(ex, ez) == r implies !(#[trigger] o.has_tree(
                    o.at.0 + ex,
                    o.at.2 + ez,
                )) by {
                    law_ring_is_scanned_once(r as int, 0, ex, ez);
                    let j = ring_index(r as int, ex, ez);
                    assert(ring_cell(r as int, j) == (ex, ez));
                }
            },
        }
    }
    best
}

/// `tree` is the nearest tree in view: the nearest of the first ring that has
/// one.
pub open spec fn is_nearest_tree(o: Outlook, tree: Pos) -> bool {
    let r = ring_of(tree.0 - o.at.0, tree.2 - o.at.2);
    &&& 0 <= r <= MAX_RADIUS
    &&& nearest_in_ring(o, r, tree)
    &&& forall|inner: int| 0 <= inner < r ==> #[trigger] bare_ring(o, inner)
}

/// Expanding-ring search for the nearest log column. Grows the radius one block
/// at a time and scans only the cells added that round, out to `MAX_RADIUS`.
/// Returns the closest log in the first ring that contains one, at whatever height
/// it sits within `SCAN_VERT` blocks above and below the bot.
pub fn find_nearest_log(o: &Outlook) -> (found: Option<Pos>)
    requires
        o.in_range(),
    ensures
        found matches Some(tree) ==> is_nearest_tree(*o, tree),
        found is None ==> forall|r: int| 0 <= r <= MAX_RADIUS ==> #[trigger] bare_ring(*o, r),
{
    find_nearest_log_within(o, MAX_RADIUS)
}

/// How far out the copies of the world reach in which a tree is looked for, one after the
/// other: close by before the wider, slower looks.
pub const LOOKS: [i32; 3] = [16, 32, MAX_RADIUS];

/// The search for the nearest log column, out to `reach` only.
pub fn find_nearest_log_within(o: &Outlook, reach: i32) -> (found: Option<Pos>)
    requires
        o.in_range(),
        0 <= reach <= MAX_RADIUS,
    ensures
        found matches Some(tree) ==> is_nearest_tree(*o, tree) && ring_of(
            tree.0 - o.at.0,
            tree.2 - o.at.2,
        ) <= reach,
        found is None ==> forall|r: int| 0 <= r <= reach ==> #[trigger] bare_ring(*o, r),
{
    if let Some(y) = log_in_column(o, o.at.0, o.at.2) {
        proof {
            assert(ring_of(0, 0) == 0);
        }
        return Some((o.at.0, y, o.at.2));
    }
    let mut r: i32 = 1;
    while r <= reach
        invariant
            o.in_range(),
            0 <= reach <= MAX_RADIUS,
            1 <= r <= reach + 1,
            forall|inner: int| 0 <= inner < r ==> #[trigger] bare_ring(*o, inner),
        decreases reach + 1 - r,
    {
        let found = scan_ring(o, r);
        if found.is_some() {
            return found;
        }
        r += 1;
    }
    None
}

/// The two outlooks see the same out to `reach`, and know the same.
pub open spec fn agree_within(a: Outlook, b: Outlook, reach: int) -> bool {
    &&& a.at == b.at
    &&& a.min_y == b.min_y
    &&& a.height == b.height
    &&& a.logs@ == b.logs@
    &&& a.unreachable@ == b.unreachable@
    &&& forall|x: int, y: int, z: int|
        ring_of(x - a.at.0, z - a.at.2) <= reach ==> #[trigger] block_state(a.states, x, y, z)
            == block_state(b.states, x, y, z)
}

proof fn lemma_same_trees(a: Outlook, b: Outlook, reach: int, x: int, z: int, y: int)
    requires
        agree_within(a, b, reach),
        ring_of(x - a.at.0, z - a.at.2) <= reach,
    ensures
        a.trunk_base(x, z, y) == b.trunk_base(x, z, y),
        a.tree_at(x, z, y) == b.tree_at(x, z, y),
{
    assert forall|lower: int|
        block_state(a.states, x, lower, z) == #[trigger] block_state(b.states, x, lower, z) by {
        assert(block_state(a.states, x, lower, z) == block_state(b.states, x, lower, z));
    }
}

proof fn lemma_same_columns(a: Outlook, b: Outlook, reach: int, x: int, z: int)
    requires
        agree_within(a, b, reach),
        ring_of(x - a.at.0, z - a.at.2) <= reach,
    ensures
        a.has_tree(x, z) == b.has_tree(x, z),
{
    assert forall|y: int| #[trigger] a.tree_at(x, z, y) == b.tree_at(x, z, y) by {
        lemma_same_trees(a, b, reach, x, z, y);
    }
    if b.has_tree(x, z) {
        let y = choose|y: int| b.tree_at(x, z, y);
        lemma_same_trees(a, b, reach, x, z, y);
    }
}

/// A look at the cells close by is enough where it finds a tree in them: it is the nearest
/// tree of the wide view too.
pub proof fn law_a_narrow_look_is_enough(near: Outlook, wide: Outlook, reach: int, tree: Pos)
    requires
        agree_within(near, wide, reach),
        is_nearest_tree(near, tree),
        ring_of(tree.0 - near.at.0, tree.2 - near.at.2) <= reach,
    ensures
        is_nearest_tree(wide, tree),
{
    let r = ring_of(tree.0 - near.at.0, tree.2 - near.at.2);
    assert forall|inner: int| 0 <= inner < r implies #[trigger] bare_ring(wide, inner) by {
        assert(bare_ring(near, inner));
        assert forall|ex: int, ez: int| ring_of(ex, ez) == inner implies !(#[trigger] wide.has_tree(
            wide.at.0 + ex,
            wide.at.2 + ez,
        )) by {
            assert(!near.has_tree(near.at.0 + ex, near.at.2 + ez));
            lemma_same_columns(near, wide, reach, near.at.0 + ex, near.at.2 + ez);
        }
    }
    lemma_same_trees(near, wide, reach, tree.0 as int, tree.2 as int, tree.1 as int);
    assert(nearest_in_ring(wide, r, tree)) by {
        assert forall|ex: int, ez: int|
            ring_of(ex, ez) == r && #[trigger] wide.has_tree(
                wide.at.0 + ex,
                wide.at.2 + ez,
            ) implies near.has_tree(near.at.0 + ex, near.at.2 + ez) by {
            lemma_same_columns(near, wide, reach, near.at.0 + ex, near.at.2 + ez);
        }
    }
}

/// No tree lies in a ring closer to the bot than the one that is found.
pub proof fn law_no_tree_in_an_inner_ring(o: Outlook, tree: Pos, x: int, z: int)
    requires
        is_nearest_tree(o, tree),
        o.has_tree(x, z),
    ensures
        ring_of(tree.0 - o.at.0, tree.2 - o.at.2) <= ring_of(x - o.at.0, z - o.at.2),
{
    let r = ring_of(x - o.at.0, z - o.at.2);
    if r < ring_of(tree.0 - o.at.0, tree.2 - o.at.2) {
        assert(bare_ring(o, r));
        assert(!o.has_tree(o.at.0 + (x - o.at.0), o.at.2 + (z - o.at.2)));
    }
}

/// A tree that is remembered as unreachable is never picked.
pub proof fn law_unreachable_trees_are_skipped(o: Outlook, tree: Pos)
    requires
        is_nearest_tree(o, tree),
    ensures
        !o.unreachable@.contains(tree),
{
}

/// The scan reaches 64 blocks out and 48 up and down, in three looks.
pub proof fn law_the_scan_reaches_so_far()
    ensures
        MAX_RADIUS == 64,
        SCAN_VERT == 48,
        LOOKS[0] == 16,
        LOOKS[1] == 32,
        LOOKS[2] == 64,
{
}

/// A level is scanned exactly if it lies in the world and within 48 blocks below the bot, or
/// fewer than 48 above.
pub proof fn law_levels_near_the_bot_are_scanned(by: int, min_y: int, height: int, y: int)
    ensures
        scan_bottom(by, min_y) <= y < scan_top(by, min_y, height) <==> -48 <= y - by < 48 && min_y <= y < min_y
            + height,
{
}

/// A tree stands where the lowest log of its column is, among the levels that are scanned, and
/// is not known to be unreachable.
pub proof fn law_trees_stand_on_their_lowest_log(o: Outlook, x: int, y: int, z: int)
    ensures
        o.tree_at(x, z, y) <==> {
            &&& -48 <= y - o.at.1 < 48
            &&& o.min_y <= y < o.min_y + o.height
            &&& o.logs@.contains(block_state(o.states, x, y, z))
            &&& forall|lower: int|
                -48 <= lower - o.at.1 && o.min_y <= lower < y ==> !o.logs@.contains(
                    #[trigger] block_state(o.states, x, lower, z),
                )
            &&& !o.unreachable@.contains((x as i32, y as i32, z as i32))
        },
        o.tree_at(x, z, y) ==> o.has_tree(x, z),
{
    if o.tree_at(x, z, y) {
        assert forall|lower: int|
            -48 <= lower - o.at.1 && o.min_y <= lower < y implies !o.logs@.contains(
            #[trigger] block_state(o.states, x, lower, z),
        ) by {
            assert(scan_bottom(o.at.1 as int, o.min_y as int) <= lower);
        }
    }
}

/// A ring is a square around the bot: its cells are those whose larger offset is its number.
pub proof fn law_rings_are_square(dx: int, dz: int, r: int)
    ensures
        ring_of(dx, dz) == r <==> -r <= dx <= r && -r <= dz <= r && (dx == r || dx == -r || dz == r || dz
            == -r),
{
}

/// In a ring the two edges of full width are scanned first, cell by cell across, and then the
/// two others; of two opposite cells the one on the low side comes first.
pub proof fn law_the_scan_has_its_order(r: int, ax: int, az: int, bx: int, bz: int)
    requires
        r >= 1,
        ring_of(ax, az) == r,
        ring_of(bx, bz) == r,
    ensures
        ({
            let wide_a = az == r || az == -r;
            let wide_b = bz == r || bz == -r;
            let first = ring_index(r, ax, az) < ring_index(r, bx, bz);
            &&& wide_a && !wide_b ==> first
            &&& wide_a && wide_b ==> (first <==> ax < bx || (ax == bx && az < bz))
            &&& !wide_a && !wide_b ==> (first <==> az < bz || (az == bz && ax < bx))
        }),
{
}

/// The tree that is found is no farther, in a straight line, than any other tree of its ring.
pub proof fn law_no_tree_of_the_ring_is_closer(o: Outlook, tree: Pos, x: int, z: int)
    requires
        is_nearest_tree(o, tree),
        o.has_tree(x, z),
        ring_of(x - o.at.0, z - o.at.2) == ring_of(tree.0 - o.at.0, tree.2 - o.at.2),
    ensures
        (tree.0 - o.at.0) * (tree.0 - o.at.0) + (tree.2 - o.at.2) * (tree.2 - o.at.2) <= (x - o.at.0) * (x
            - o.at.0) + (z - o.at.2) * (z - o.at.2),
        o.tree_at(tree.0 as int, tree.2 as int, tree.1 as int),
{
    assert(o.has_tree(o.at.0 + (x - o.at.0), o.at.2 + (z - o.at.2)));
}

/// A bare ring has no tree, and a tree within reach is found in its ring.
pub proof fn law_bare_rings_have_no_tree(o: Outlook, r: int, x: int, z: int)
    requires
        bare_ring(o, r),
        ring_of(x - o.at.0, z - o.at.2) == r,
    ensures
        !o.has_tree(x, z),
{
    assert(!o.has_tree(o.at.0 + (x - o.at.0), o.at.2 + (z - o.at.2)));
}

/// A state is a log's exactly if some block of that name has it among its states.
pub proof fn law_log_states_are_those_of_logs(kinds: Seq<BlockKind>, kind: BlockKind, s: u32)
    ensures
        is_log_name(kind.name@) && kind.min_state_id <= s <= kind.max_state_id ==> is_log_state(
            kinds.push(kind),
            s,
        ),
        !(is_log_name(kind.name@) && kind.min_state_id <= s <= kind.max_state_id) ==> (is_log_state(
            kinds.push(kind),
            s,
        ) <==> is_log_state(kinds, s)),
        !is_log_state(Seq::empty(), s),
{
    let all = kinds.push(kind);
    assert(all[kinds.len() as int] == kind);
    if is_log_state(kinds, s) {
        let i = choose|i: int|
            0 <= i < kinds.len() && is_log_name((#[trigger] kinds[i]).name@) && kinds[i].min_state_id <= s
                <= kinds[i].max_state_id;
        assert(all[i] == kinds[i]);
    }
    if is_log_state(all, s) {
        let i = choose|i: int|
            0 <= i < all.len() && is_log_name((#[trigger] all[i]).name@) && all[i].min_state_id <= s
                <= all[i].max_state_id;
        if i < kinds.len() {
            assert(kinds[i] == all[i]);
        }
    }
}

} // verus!
