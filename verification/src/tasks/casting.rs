//! Building and clearing by hand: what counts as solid, where a block is placed
//! against, foundations, pillars and fluids.

use crate::items::{count_items, named, tally, tally_fits, Stack};
use crate::memory::Pos;
use crate::text::{contains, occurs_in, same};
use crate::world::{block_name, has_room, name_of, Blocks};
use vstd::prelude::*;

verus! {

// ── block classification ────────────────────────────────────────────────────

/// The name of the block at a position; "air" where there is none.
pub open spec fn shown_name(blocks: Blocks, x: int, y: int, z: int) -> Seq<char> {
    match block_name(blocks, x, y, z) {
        Some(n) => n,
        None => "air"@,
    }
}

/// Block name at (x, y, z), or "air" where there is none.
pub fn name_at(blocks: &Blocks, x: i32, y: i32, z: i32) -> (r: &str)
    ensures
        r@ == shown_name(*blocks, x as int, y as int, z as int),
{
    match name_of(blocks, x, y, z) {
        Some(n) => n,
        None => "air",
    }
}

pub open spec fn is_air_name(n: Seq<char>) -> bool {
    n == "air"@ || n == "cave_air"@ || n == "void_air"@
}

pub fn is_air(n: &str) -> (r: bool)
    ensures
        r == is_air_name(n@),
{
    same(n, "air") || same(n, "cave_air") || same(n, "void_air")
}

/// Plants and snow that a block can be placed into.
pub open spec fn is_soft_name(n: Seq<char>) -> bool {
    ||| n == "short_grass"@
    ||| n == "tall_grass"@
    ||| n == "fern"@
    ||| n == "snow"@
    ||| n == "snow_layer"@
    ||| n == "dead_bush"@
}

pub open spec fn is_replaceable_name(n: Seq<char>) -> bool {
    is_air_name(n) || is_soft_name(n)
}

pub fn is_replaceable(n: &str) -> (r: bool)
    ensures
        r == is_replaceable_name(n@),
{
    is_air(n) || same(n, "short_grass") || same(n, "tall_grass") || same(n, "fern")
        || same(n, "snow")
        || same(n, "snow_layer") || same(n, "dead_bush")
}

pub open spec fn is_solid_name(n: Seq<char>) -> bool {
    !is_replaceable_name(n) && !occurs_in("water"@, n) && !occurs_in("lava"@, n)
}

pub fn is_solid(n: &str) -> (r: bool)
    ensures
        r == is_solid_name(n@),
{
    !is_replaceable(n) && !contains(n, "water") && !contains(n, "lava")
}

pub open spec fn is_lava_block(n: Seq<char>) -> bool {
    n == "lava"@ || n == "flowing_lava"@
}

pub fn is_lava(n: &str) -> (r: bool)
    ensures
        r == is_lava_block(n@),
{
    same(n, "lava") || same(n, "flowing_lava")
}

pub open spec fn is_solid_cell(blocks: Blocks, x: int, y: int, z: int) -> bool {
    is_solid_name(shown_name(blocks, x, y, z))
}

pub open spec fn is_air_cell(blocks: Blocks, x: int, y: int, z: int) -> bool {
    is_air_name(shown_name(blocks, x, y, z))
}

pub fn solid_at(blocks: &Blocks, x: i32, y: i32, z: i32) -> (r: bool)
    ensures
        r == is_solid_cell(*blocks, x as int, y as int, z as int),
{
    is_solid(name_at(blocks, x, y, z))
}

pub fn air_at(blocks: &Blocks, x: i32, y: i32, z: i32) -> (r: bool)
    ensures
        r == is_air_cell(*blocks, x as int, y as int, z as int),
{
    is_air(name_at(blocks, x, y, z))
}

/// The cheap throwaway block to scaffold and mould with (cobble preferred, then
/// dirt).
pub fn build_block(slots: &Vec<Option<Stack>>) -> (r: &'static str)
    requires
        tally_fits(slots@, named("cobblestone"@)),
    ensures
        r@ == (if tally(slots@, named("cobblestone"@)) > 0 {
            "cobblestone"@
        } else {
            "dirt"@
        }),
{
    if count_items(slots, "cobblestone") > 0 {
        "cobblestone"
    } else {
        "dirt"
    }
}

/// A face of a block.
#[derive(Debug, Clone, Copy, PartialEq, Eq, Structural)]
pub enum Face {
    Bottom,
    Top,
    North,
    South,
    West,
    East,
}

impl Face {
    /// Where the cell in front of the face lies.
    pub open spec fn offset(self) -> (int, int, int) {
        match self {
            Face::Bottom => (0, -1, 0),
            Face::Top => (0, 1, 0),
            Face::North => (0, 0, -1),
            Face::South => (0, 0, 1),
            Face::West => (-1, 0, 0),
            Face::East => (1, 0, 0),
        }
    }
}

/// The offset is one step along one axis.
pub open spec fn is_step(d: (i32, i32, i32)) -> bool {
    ||| d.1 == 0 && d.2 == 0 && (d.0 == 1 || d.0 == -1)
    ||| d.0 == 0 && d.2 == 0 && (d.1 == 1 || d.1 == -1)
    ||| d.0 == 0 && d.1 == 0 && (d.2 == 1 || d.2 == -1)
}

/// The face of the reference block at `pos + d` that points back toward `pos`, so
/// that placing against that face lands at `pos`. Where `d` is not one step along
/// one axis, it is the top.
pub fn face_back(d: (i32, i32, i32)) -> (r: Face)
    ensures
        is_step(d) ==> r.offset() == (-d.0, -d.1, -d.2),
        !is_step(d) ==> r == Face::Top,
{
    if d.0 == 0 && d.1 == 1 && d.2 == 0 {
        Face::Bottom
    } else if d.0 == 0 && d.1 == -1 && d.2 == 0 {
        Face::Top
    } else if d.0 == 0 && d.1 == 0 && d.2 == 1 {
        Face::North
    } else if d.0 == 0 && d.1 == 0 && d.2 == -1 {
        Face::South
    } else if d.0 == 1 && d.1 == 0 && d.2 == 0 {
        Face::West
    } else if d.0 == -1 && d.1 == 0 && d.2 == 0 {
        Face::East
    } else {
        Face::Top
    }
}

// ── digging and placing ─────────────────────────────────────────────────────

pub open spec fn may_dig_name(n: Seq<char>) -> bool {
    !is_air_name(n) && n != "obsidian"@ && !occurs_in("lava"@, n)
}

/// Whether a block is dug at all: not air, not obsidian (an iron pick cannot break
/// it and the dig would hang), not lava.
pub fn may_dig(n: &str) -> (r: bool)
    ensures
        r == may_dig_name(n@),
{
    !is_air(n) && !same(n, "obsidian") && !contains(n, "lava")
}

/// Whether the block at a position is dug at all.
pub fn dig_at(blocks: &Blocks, x: i32, y: i32, z: i32) -> (r: bool)
    ensures
        r == may_dig_name(shown_name(*blocks, x as int, y as int, z as int)),
{
    may_dig(name_at(blocks, x, y, z))
}

pub open spec fn may_clear_name(n: Seq<char>) -> bool {
    is_solid_name(n) && n != "obsidian"@
}

/// Whether a block in the way is cleared: solid and not obsidian.
pub fn may_clear(n: &str) -> (r: bool)
    ensures
        r == may_clear_name(n@),
{
    is_solid(n) && !same(n, "obsidian")
}

/// What is cleared may be dug: neither lava nor obsidian is ever cleared.
pub proof fn law_cleared_blocks_may_be_dug(n: Seq<char>)
    requires
        may_clear_name(n),
    ensures
        may_dig_name(n),
        n != "obsidian"@,
        !occurs_in("lava"@, n),
{
}

/// The ways from a cell to the block it is placed against: below, the sides, and
/// above last.
pub open spec fn place_way(k: int) -> (i32, i32, i32) {
    if k == 0 {
        (0, -1i32, 0)
    } else if k == 1 {
        (1, 0, 0)
    } else if k == 2 {
        (-1i32, 0, 0)
    } else if k == 3 {
        (0, 0, 1)
    } else if k == 4 {
        (0, 0, -1i32)
    } else {
        (0, 1, 0)
    }
}

/// The way from a cell to a block it is placed against.
pub fn way_to_place(k: u32) -> (r: (i32, i32, i32))
    ensures
        r == place_way(k as int),
        is_step(r),
{
    if k == 0 {
        (0, -1, 0)
    } else if k == 1 {
        (1, 0, 0)
    } else if k == 2 {
        (-1, 0, 0)
    } else if k == 3 {
        (0, 0, 1)
    } else if k == 4 {
        (0, 0, -1)
    } else {
        (0, 1, 0)
    }
}

/// The block on that side of a cell is solid.
pub open spec fn backed(blocks: Blocks, pos: Pos, k: int) -> bool {
    is_solid_cell(
        blocks,
        pos.0 + place_way(k).0,
        pos.1 + place_way(k).1,
        pos.2 + place_way(k).2,
    )
}

/// The first way at or after `from` on which there is a solid block to place
/// against.
pub open spec fn first_backing(blocks: &Blocks, pos: Pos, from: u32) -> Option<u32>
    decreases 6 - from,
{
    if from >= 6 {
        None
    } else if backed(*blocks, pos, from as int) {
        Some(from)
    } else {
        first_backing(blocks, pos, (from + 1) as u32)
    }
}

/// The first way at or after `from` on which there is a solid block to place
/// against.
pub fn next_backing(blocks: &Blocks, pos: Pos, from: u32) -> (r: Option<u32>)
    requires
        has_room(pos, 1),
    ensures
        r == first_backing(blocks, pos, from),
    decreases 6 - from,
{
    if from >= 6 {
        return None;
    }
    let d = way_to_place(from);
    if solid_at(blocks, pos.0 + d.0, pos.1 + d.1, pos.2 + d.2) {
        Some(from)
    } else {
        next_backing(blocks, pos, from + 1)
    }
}

proof fn lemma_first_backing(blocks: &Blocks, pos: Pos, from: u32)
    ensures
        first_backing(blocks, pos, from) matches Some(k) ==> from <= k < 6 && backed(
            *blocks,
            pos,
            k as int,
        ),
    decreases 6 - from,
{
    if from < 6 {
        lemma_first_backing(blocks, pos, (from + 1) as u32);
    }
}

#[derive(Debug, Clone, Copy, PartialEq, Eq, Structural)]
pub enum PlacePhase {
    Start,
    /// Has taken the build block in hand.
    Selected,
    /// Has placed against the block on this way.
    Placed(u32),
    Over,
}

#[derive(Debug, Clone, Copy, PartialEq, Eq)]
pub enum PlaceAction {
    /// Take the build block in hand.
    Select,
    /// Place against this face of the block there.
    PlaceAgainst(Pos, Face),
    Done(bool),
}

/// The face of the block on way `k` that looks back at the cell.
pub open spec fn backing_face(k: u32) -> Face {
    if k == 0 {
        Face::Top
    } else if k == 1 {
        Face::West
    } else if k == 2 {
        Face::East
    } else if k == 3 {
        Face::North
    } else if k == 4 {
        Face::South
    } else {
        Face::Bottom
    }
}

/// The block on way `k` from a cell.
pub open spec fn backing_at(pos: Pos, k: u32) -> Pos {
    (
        (pos.0 + place_way(k as int).0) as i32,
        (pos.1 + place_way(k as int).1) as i32,
        (pos.2 + place_way(k as int).2) as i32,
    )
}

/// Places against the next solid neighbour from way `from` on, or gives up.
pub open spec fn place_against_next(blocks: &Blocks, pos: Pos, from: u32) -> (PlacePhase, PlaceAction) {
    match first_backing(blocks, pos, from) {
        Some(k) => (
            PlacePhase::Placed(k),
            PlaceAction::PlaceAgainst(backing_at(pos, k), backing_face(k)),
        ),
        None => (PlacePhase::Over, PlaceAction::Done(false)),
    }
}

/// Places against the next solid neighbour from way `from` on, or gives up.
fn place_against(blocks: &Blocks, pos: Pos, from: u32) -> (r: (PlacePhase, PlaceAction))
    requires
        has_room(pos, 1),
    ensures
        r == place_against_next(blocks, pos, from),
{
    match next_backing(blocks, pos, from) {
        Some(k) => {
            let d = way_to_place(k);
            let at: Pos = (pos.0 + d.0, pos.1 + d.1, pos.2 + d.2);
            (PlacePhase::Placed(k), PlaceAction::PlaceAgainst(at, face_back(d)))
        },
        None => (PlacePhase::Over, PlaceAction::Done(false)),
    }
}

pub open spec fn is_solid_pos(blocks: Blocks, pos: Pos) -> bool {
    is_solid_cell(blocks, pos.0 as int, pos.1 as int, pos.2 as int)
}

/// What `place_cobble` does next.
pub open spec fn place_cobble_next(phase: PlacePhase, blocks: &Blocks, pos: Pos, armed: bool) -> (
    PlacePhase,
    PlaceAction,
) {
    match phase {
        PlacePhase::Start => {
            if is_solid_pos(*blocks, pos) {
                (PlacePhase::Over, PlaceAction::Done(true))
            } else {
                (PlacePhase::Selected, PlaceAction::Select)
            }
        },
        PlacePhase::Selected => {
            if armed {
                place_against_next(blocks, pos, 0)
            } else {
                (PlacePhase::Over, PlaceAction::Done(false))
            }
        },
        PlacePhase::Placed(k) => {
            if is_solid_pos(*blocks, pos) {
                (PlacePhase::Over, PlaceAction::Done(true))
            } else if k < 6 {
                place_against_next(blocks, pos, (k + 1) as u32)
            } else {
                (PlacePhase::Over, PlaceAction::Done(false))
            }
        },
        PlacePhase::Over => (phase, PlaceAction::Done(is_solid_pos(*blocks, pos))),
    }
}

/// Places a build block at a cell against any solid neighbour, one after the other
/// until the cell is solid. `armed` says whether the build block is in hand.
pub fn place_cobble(phase: PlacePhase, blocks: &Blocks, pos: Pos, armed: bool) -> (r: (
    PlacePhase,
    PlaceAction,
))
    requires
        has_room(pos, 1),
    ensures
        r == place_cobble_next(phase, blocks, pos, armed),
{
    let solid: bool = solid_at(blocks, pos.0, pos.1, pos.2);
    match phase {
        PlacePhase::Start => {
            if solid {
                (PlacePhase::Over, PlaceAction::Done(true))
            } else {
                (PlacePhase::Selected, PlaceAction::Select)
            }
        },
        PlacePhase::Selected => {
            if armed {
                place_against(blocks, pos, 0)
            } else {
                (PlacePhase::Over, PlaceAction::Done(false))
            }
        },
        PlacePhase::Placed(k) => {
            if solid {
                (PlacePhase::Over, PlaceAction::Done(true))
            } else if k < 6 {
                place_against(blocks, pos, k + 1)
            } else {
                (PlacePhase::Over, PlaceAction::Done(false))
            }
        },
        PlacePhase::Over => (phase, PlaceAction::Done(solid)),
    }
}

/// Success is reported only of a cell that is solid.
pub proof fn law_placed_means_solid(phase: PlacePhase, blocks: &Blocks, pos: Pos, armed: bool)
    requires
        place_cobble_next(phase, blocks, pos, armed).1 == PlaceAction::Done(true),
    ensures
        is_solid_pos(*blocks, pos),
{
}

/// A block is placed against a solid one, on the face that looks at the cell: it lands
/// in that cell and in no other.
pub proof fn law_placing_lands_where_meant(
    phase: PlacePhase,
    blocks: &Blocks,
    pos: Pos,
    armed: bool,
    at: Pos,
    face: Face,
)
    requires
        has_room(pos, 1),
        place_cobble_next(phase, blocks, pos, armed).1 == PlaceAction::PlaceAgainst(at, face),
    ensures
        is_solid_pos(*blocks, at),
        at.0 + face.offset().0 == pos.0,
        at.1 + face.offset().1 == pos.1,
        at.2 + face.offset().2 == pos.2,
{
    let from: u32 = match phase {
        PlacePhase::Placed(k) => (k + 1) as u32,
        _ => 0u32,
    };
    lemma_first_backing(blocks, pos, from);
}

/// Every way is tried once at most.
pub proof fn law_placing_ends(phase: PlacePhase, blocks: &Blocks, pos: Pos, armed: bool, k: u32)
    requires
        phase == PlacePhase::Placed(k),
        k < 6,
    ensures
        ({
            let next = place_cobble_next(phase, blocks, pos, armed).0;
            next == PlacePhase::Over || (next matches PlacePhase::Placed(j) && k < j < 6)
        }),
{
    lemma_first_backing(blocks, pos, (k + 1) as u32);
}

/// How deep a foundation is built at most.
pub const FOUNDATION: u32 = 4;

#[derive(Debug, Clone, Copy, PartialEq, Eq, Structural)]
pub enum SolidPhase {
    Start,
    /// Has tried to place this far down, on the way down.
    Tried(u32),
    /// Has tried to place there, on the way back up.
    Raised(u32),
    Over,
}

#[derive(Debug, Clone, Copy, PartialEq, Eq)]
pub enum SolidAction {
    /// Place a block there.
    Place(Pos),
    Done(bool),
}

/// The cell this far below another.
pub open spec fn below(pos: Pos, k: u32) -> Pos {
    (pos.0, (pos.1 - k) as i32, pos.2)
}

/// The cell `k` below is solid: goes on with the one above it.
pub open spec fn raise_from_next(pos: Pos, k: u32) -> (SolidPhase, SolidAction) {
    if k == 0 {
        (SolidPhase::Over, SolidAction::Done(true))
    } else {
        (SolidPhase::Raised((k - 1) as u32), SolidAction::Place(below(pos, (k - 1) as u32)))
    }
}

/// The cell `k` below is solid: goes on with the one above it.
fn raise_from(pos: Pos, k: u32) -> (r: (SolidPhase, SolidAction))
    requires
        has_room(pos, FOUNDATION as int),
        k <= FOUNDATION,
    ensures
        r == raise_from_next(pos, k),
{
    if k == 0 {
        (SolidPhase::Over, SolidAction::Done(true))
    } else {
        (SolidPhase::Raised(k - 1), SolidAction::Place((pos.0, pos.1 - (k - 1) as i32, pos.2)))
    }
}

/// Comes to the cell `k` below: places there where it is not solid.
pub open spec fn sink_to_next(blocks: &Blocks, pos: Pos, k: u32) -> (SolidPhase, SolidAction) {
    if is_solid_pos(*blocks, below(pos, k)) {
        raise_from_next(pos, k)
    } else {
        (SolidPhase::Tried(k), SolidAction::Place(below(pos, k)))
    }
}

/// Comes to the cell `k` below: places there where it is not solid.
fn sink_to(blocks: &Blocks, pos: Pos, k: u32) -> (r: (SolidPhase, SolidAction))
    requires
        has_room(pos, FOUNDATION as int),
        k <= FOUNDATION,
    ensures
        r == sink_to_next(blocks, pos, k),
{
    let at: Pos = (pos.0, pos.1 - k as i32, pos.2);
    if solid_at(blocks, at.0, at.1, at.2) {
        raise_from(pos, k)
    } else {
        (SolidPhase::Tried(k), SolidAction::Place(at))
    }
}

/// What `ensure_solid` does next.
pub open spec fn ensure_solid_next(phase: SolidPhase, blocks: &Blocks, pos: Pos, placed: bool) -> (
    SolidPhase,
    SolidAction,
) {
    match phase {
        SolidPhase::Start => sink_to_next(blocks, pos, 0),
        SolidPhase::Tried(k) => {
            if placed {
                raise_from_next(pos, k)
            } else if k >= FOUNDATION {
                (SolidPhase::Over, SolidAction::Done(false))
            } else {
                sink_to_next(blocks, pos, (k + 1) as u32)
            }
        },
        SolidPhase::Raised(k) => {
            if placed {
                raise_from_next(pos, k)
            } else {
                (SolidPhase::Over, SolidAction::Done(false))
            }
        },
        SolidPhase::Over => (phase, SolidAction::Done(is_solid_pos(*blocks, pos))),
    }
}

/// Places a block at a cell, building a foundation straight down where the cell
/// floats in air with no neighbour to place against. `placed` says whether the last
/// placement worked.
pub fn ensure_solid(phase: SolidPhase, blocks: &Blocks, pos: Pos, placed: bool) -> (r: (
    SolidPhase,
    SolidAction,
))
    requires
        has_room(pos, FOUNDATION as int),
        solid_wf(phase),
    ensures
        r == ensure_solid_next(phase, blocks, pos, placed),
{
    match phase {
        SolidPhase::Start => sink_to(blocks, pos, 0),
        SolidPhase::Tried(k) => {
            if placed {
                raise_from(pos, k)
            } else if k >= FOUNDATION {
                (SolidPhase::Over, SolidAction::Done(false))
            } else {
                sink_to(blocks, pos, k + 1)
            }
        },
        SolidPhase::Raised(k) => {
            if placed {
                raise_from(pos, k)
            } else {
                (SolidPhase::Over, SolidAction::Done(false))
            }
        },
        SolidPhase::Over => (phase, SolidAction::Done(solid_at(blocks, pos.0, pos.1, pos.2))),
    }
}

/// How many steps of `ensure_solid` are left at most.
pub open spec fn solid_budget(phase: SolidPhase) -> int {
    match phase {
        SolidPhase::Start => 11,
        SolidPhase::Tried(k) => 10 - k,
        SolidPhase::Raised(k) => k + 1,
        SolidPhase::Over => 0,
    }
}

/// The foundation is no deeper than it may be.
pub open spec fn solid_wf(phase: SolidPhase) -> bool {
    match phase {
        SolidPhase::Tried(k) => k <= FOUNDATION,
        SolidPhase::Raised(k) => k < FOUNDATION,
        _ => true,
    }
}

/// A foundation goes down four blocks at most, straight below the cell, and the work
/// ends. It is built up again cell by cell, so that success means that the topmost
/// cell was found solid or placed.
pub proof fn law_foundations_are_bounded(phase: SolidPhase, blocks: &Blocks, pos: Pos, placed: bool)
    requires
        has_room(pos, FOUNDATION as int),
        solid_wf(phase),
        phase != SolidPhase::Over,
    ensures
        solid_wf(ensure_solid_next(phase, blocks, pos, placed).0),
        0 <= solid_budget(ensure_solid_next(phase, blocks, pos, placed).0) < solid_budget(phase),
        ensure_solid_next(phase, blocks, pos, placed).1 == SolidAction::Done(true) ==> {
            ||| phase == SolidPhase::Start && is_solid_pos(*blocks, pos)
            ||| phase == SolidPhase::Tried(0) && placed
            ||| phase == SolidPhase::Raised(0) && placed
        },
        ensure_solid_next(phase, blocks, pos, placed).1 matches SolidAction::Place(c) ==> c.0 == pos.0
            && c.2 == pos.2 && pos.1 - FOUNDATION <= c.1 <= pos.1,
{
}

/// The phase after a run of observations.
pub open spec fn ensure_solid_run(pos: Pos, phase: SolidPhase, seen: Seq<(&Blocks, bool)>) -> SolidPhase
    decreases seen.len(),
{
    if seen.len() == 0 {
        phase
    } else {
        ensure_solid_next(
            ensure_solid_run(pos, phase, seen.drop_last()),
            seen.last().0,
            pos,
            seen.last().1,
        ).0
    }
}

proof fn lemma_ensure_solid_run(pos: Pos, phase: SolidPhase, seen: Seq<(&Blocks, bool)>)
    requires
        has_room(pos, FOUNDATION as int),
        solid_wf(phase),
    ensures
        solid_wf(ensure_solid_run(pos, phase, seen)),
        ensure_solid_run(pos, phase, seen) == SolidPhase::Over || solid_budget(
            ensure_solid_run(pos, phase, seen),
        ) + seen.len() <= solid_budget(phase),
    decreases seen.len(),
{
    if seen.len() > 0 {
        lemma_ensure_solid_run(pos, phase, seen.drop_last());
        let before = ensure_solid_run(pos, phase, seen.drop_last());
        if before != SolidPhase::Over {
            law_foundations_are_bounded(before, seen.last().0, pos, seen.last().1);
        }
    }
}

/// Whatever comes of the placements, the work is over after 11 steps.
pub proof fn law_foundations_take_a_bounded_time(pos: Pos, seen: Seq<(&Blocks, bool)>)
    requires
        has_room(pos, FOUNDATION as int),
        seen.len() >= 11,
    ensures
        ensure_solid_run(pos, SolidPhase::Start, seen) == SolidPhase::Over,
{
    lemma_ensure_solid_run(pos, SolidPhase::Start, seen);
}

// ── moving by hand ──────────────────────────────────────────────────────────

#[derive(Debug, Clone, Copy, PartialEq, Eq, Structural)]
pub struct WalkSeen {
    /// The bot is near enough.
    pub near: bool,
    /// The last tick brought it no nearer.
    pub stuck: bool,
    /// The connection was lost on the last tick.
    pub lost: bool,
}

#[derive(Debug, Clone, Copy, PartialEq, Eq, Structural)]
pub enum WalkAction {
    /// Walk for a tick, jumping if so told.
    Step(bool),
    Stop,
}

/// There is water at the feet or above them.
pub open spec fn wades(blocks: Blocks, feet: Pos) -> bool {
    occurs_in("water"@, shown_name(blocks, feet.0 as int, feet.1 as int, feet.2 as int)) || occurs_in(
        "water"@,
        shown_name(blocks, feet.0 as int, feet.1 + 1, feet.2 as int),
    )
}

/// What `walk_to_xz` does next.
pub open spec fn walk_to_xz_next(left: u32, blocks: &Blocks, feet: Pos, seen: WalkSeen) -> (
    u32,
    WalkAction,
) {
    if left == 0 || seen.near || seen.lost {
        (left, WalkAction::Stop)
    } else {
        ((left - 1) as u32, WalkAction::Step(seen.stuck || wades(*blocks, feet)))
    }
}

/// Walks to a column under manual control (precise centering that the pathfinder
/// does not give). Jumps when stuck or in water. `left` is how many ticks are left.
pub fn walk_to_xz(left: u32, blocks: &Blocks, feet: Pos, seen: WalkSeen) -> (r: (u32, WalkAction))
    requires
        has_room(feet, 1),
    ensures
        r == walk_to_xz_next(left, blocks, feet, seen),
{
    if left == 0 || seen.near || seen.lost {
        (left, WalkAction::Stop)
    } else {
        let wet: bool = contains(name_at(blocks, feet.0, feet.1, feet.2), "water") || contains(
            name_at(blocks, feet.0, feet.1 + 1, feet.2),
            "water",
        );
        (left - 1, WalkAction::Step(seen.stuck || wet))
    }
}

/// The columns under the four corners of the bot, each once, in order.
pub open spec fn once_each(corners: Seq<(i32, i32)>) -> Seq<(i32, i32)>
    decreases corners.len(),
{
    if corners.len() == 0 {
        corners
    } else {
        let rest = once_each(corners.drop_last());
        if rest.contains(corners.last()) {
            rest
        } else {
            rest.push(corners.last())
        }
    }
}

/// The columns that the bot stands on, each once.
pub fn footprint(corners: &Vec<(i32, i32)>) -> (r: Vec<(i32, i32)>)
    ensures
        r@ == once_each(corners@),
{
    let mut cells: Vec<(i32, i32)> = Vec::new();
    assert(corners@.take(0) =~= Seq::empty());
    let mut i: usize = 0;
    while i < corners.len()
        invariant
            i <= corners@.len(),
            cells@ == once_each(corners@.take(i as int)),
        decreases corners@.len() - i,
    {
        assert(corners@.take(i + 1).drop_last() =~= corners@.take(i as int));
        let c = corners[i];
        let mut known: bool = false;
        let mut j: usize = 0;
        while j < cells.len()
            invariant
                j <= cells@.len(),
                known == exists|k: int| 0 <= k < j && #[trigger] cells@[k] == c,
            decreases cells@.len() - j,
        {
            if cells[j].0 == c.0 && cells[j].1 == c.1 {
                known = true;
            }
            j += 1;
        }
        if !known {
            cells.push(c);
        }
        i += 1;
    }
    assert(corners@.take(corners@.len() as int) =~= corners@);
    cells
}

/// No column is dug twice, and none is left out.
pub proof fn law_footprint_is_complete(corners: Seq<(i32, i32)>)
    ensures
        once_each(corners).no_duplicates(),
        forall|c: (i32, i32)| #[trigger] once_each(corners).contains(c) <==> corners.contains(c),
    decreases corners.len(),
{
    if corners.len() > 0 {
        let rest = corners.drop_last();
        law_footprint_is_complete(rest);
        assert forall|c: (i32, i32)| #[trigger]
            once_each(corners).contains(c) <==> corners.contains(c) by {
            let known = once_each(rest);
            assert(corners =~= rest.push(corners.last()));
            if corners.contains(c) && c != corners.last() {
                let i = choose|i: int| 0 <= i < corners.len() && corners[i] == c;
                assert(rest[i] == c);
            }
            if rest.contains(c) {
                let i = choose|i: int| 0 <= i < rest.len() && rest[i] == c;
                assert(corners[i] == c);
            }
            if !known.contains(corners.last()) {
                let all = once_each(corners);
                assert(all == known.push(corners.last()));
                if known.contains(c) {
                    let i = choose|i: int| 0 <= i < known.len() && known[i] == c;
                    assert(all[i] == c);
                }
                if c == corners.last() {
                    assert(all[known.len() as int] == c);
                }
                if all.contains(c) && c != corners.last() {
                    let i = choose|i: int| 0 <= i < all.len() && all[i] == c;
                    assert(known[i] == c);
                }
            }
        }
    }
}

#[derive(Debug, Clone, Copy, PartialEq, Eq, Structural)]
pub enum SinkAction {
    /// Clear every cell under the footprint, at the level below the feet, and
    /// wait for the fall.
    ClearBelow,
    Stop,
}

/// How many times the bot clears the ground under itself to come down.
pub const SINK_TURNS: u32 = 24;

/// What `descend_to_y` does next.
pub open spec fn descend_to_y_next(left: u32, feet: i32, target: i32) -> (u32, SinkAction) {
    if left == 0 || feet <= target {
        (left, SinkAction::Stop)
    } else {
        ((left - 1) as u32, SinkAction::ClearBelow)
    }
}

/// Digs straight down (every cell under the footprint) until the feet reach
/// `target`. `left` is how many more levels there may be.
pub fn descend_to_y(left: u32, feet: i32, target: i32) -> (r: (u32, SinkAction))
    ensures
        r == descend_to_y_next(left, feet, target),
{
    if left == 0 || feet <= target {
        (left, SinkAction::Stop)
    } else {
        ((left - 1) as u32, SinkAction::ClearBelow)
    }
}

#[derive(Debug, Clone, Copy, PartialEq, Eq, Structural)]
pub enum PillarPhase {
    Top,
    /// Has centred itself over the pillar.
    Centred,
    /// Has cleared the way up from this level and taken the build block in hand.
    Armed(i32),
    /// Is in the air above this level.
    Jumped(i32),
    Over,
}

#[derive(Debug, Clone, Copy, PartialEq, Eq, Structural)]
pub struct Pillar {
    /// The column that the pillar stands in.
    pub x: i32,
    pub z: i32,
    pub target: i32,
    pub left: u32,
    pub phase: PillarPhase,
}

#[derive(Debug, Clone, Copy, PartialEq, Eq)]
pub enum PillarAction {
    /// Walk to the middle of the pillar, sneaking.
    Centre,
    /// Clear these two cells above the head and take the build block in hand.
    Prepare(Pos, Pos),
    /// Look down below this level and jump.
    Jump(i32),
    /// Place a block on top of that one, if there is one, and land.
    Land(Option<Pos>),
    /// The feet have reached the target, or not.
    Done(bool),
}

pub open spec fn pillar_start(x: i32, z: i32, target: i32) -> Pillar {
    Pillar { x, z, target, left: 24, phase: PillarPhase::Top }
}

pub fn start_pillar(x: i32, z: i32, target: i32) -> (r: Pillar)
    ensures
        r == pillar_start(x, z, target),
{
    Pillar { x, z, target, left: 24, phase: PillarPhase::Top }
}

/// What `pillar_up` does next.
pub open spec fn pillar_up_next(state: Pillar, blocks: &Blocks, feet: i32, armed: bool) -> (
    Pillar,
    PillarAction,
) {
    match state.phase {
        PillarPhase::Top => {
            if state.left == 0 || feet >= state.target {
                (
                    Pillar { phase: PillarPhase::Over, ..state },
                    PillarAction::Done(feet >= state.target),
                )
            } else {
                (
                    Pillar { left: (state.left - 1) as u32, phase: PillarPhase::Centred, ..state },
                    PillarAction::Centre,
                )
            }
        },
        PillarPhase::Centred => (
            Pillar { phase: PillarPhase::Armed(feet), ..state },
            PillarAction::Prepare(
                (state.x, (feet + 2) as i32, state.z),
                (state.x, (feet + 3) as i32, state.z),
            ),
        ),
        PillarPhase::Armed(f) => {
            if armed {
                (Pillar { phase: PillarPhase::Jumped(f), ..state }, PillarAction::Jump(f))
            } else {
                (
                    Pillar { phase: PillarPhase::Over, ..state },
                    PillarAction::Done(feet >= state.target),
                )
            }
        },
        PillarPhase::Jumped(f) => (
            Pillar { phase: PillarPhase::Top, ..state },
            PillarAction::Land(
                if is_solid_cell(*blocks, state.x as int, f - 1, state.z as int) {
                    Some((state.x, (f - 1) as i32, state.z))
                } else {
                    None
                },
            ),
        ),
        PillarPhase::Over => (state, PillarAction::Done(feet >= state.target)),
    }
}

/// Raises the feet to `target` by sneaking, looking down and placing a block
/// underneath each jump. The bot goes on sneaking: the caller stops that once the
/// block is poured. `armed` says whether the build block is in hand.
pub fn pillar_up(state: Pillar, blocks: &Blocks, feet: i32, armed: bool) -> (r: (Pillar, PillarAction))
    requires
        feet <= i32::MAX - 3,
        state.phase matches PillarPhase::Jumped(f) ==> f > i32::MIN,
    ensures
        r == pillar_up_next(state, blocks, feet, armed),
{
    match state.phase {
        PillarPhase::Top => {
            if state.left == 0 || feet >= state.target {
                (
                    Pillar { phase: PillarPhase::Over, ..state },
                    PillarAction::Done(feet >= state.target),
                )
            } else {
                (
                    Pillar { left: (state.left - 1) as u32, phase: PillarPhase::Centred, ..state },
                    PillarAction::Centre,
                )
            }
        },
        PillarPhase::Centred => (
            Pillar { phase: PillarPhase::Armed(feet), ..state },
            PillarAction::Prepare((state.x, feet + 2, state.z), (state.x, feet + 3, state.z)),
        ),
        PillarPhase::Armed(f) => {
            if armed {
                (Pillar { phase: PillarPhase::Jumped(f), ..state }, PillarAction::Jump(f))
            } else {
                (
                    Pillar { phase: PillarPhase::Over, ..state },
                    PillarAction::Done(feet >= state.target),
                )
            }
        },
        PillarPhase::Jumped(f) => {
            let footing: Option<Pos> = if solid_at(blocks, state.x, f - 1, state.z) {
                Some((state.x, f - 1, state.z))
            } else {
                None
            };
            (Pillar { phase: PillarPhase::Top, ..state }, PillarAction::Land(footing))
        },
        PillarPhase::Over => (state, PillarAction::Done(feet >= state.target)),
    }
}

/// How many steps of `pillar_up` are left at most.
pub open spec fn pillar_budget(state: Pillar) -> int {
    4 * state.left + (match state.phase {
        PillarPhase::Top => 1int,
        PillarPhase::Centred => 4,
        PillarPhase::Armed(_) => 3,
        PillarPhase::Jumped(_) => 2,
        PillarPhase::Over => 0,
    })
}

/// A pillar ends, with success exactly if the feet have reached the target. It stays
/// in its column, and is raised on solid blocks only.
pub proof fn law_pillars_end(state: Pillar, blocks: &Blocks, feet: i32, armed: bool)
    requires
        state.phase != PillarPhase::Over,
        state.phase matches PillarPhase::Jumped(f) ==> f > i32::MIN,
    ensures
        ({
            let (next, action) = pillar_up_next(state, blocks, feet, armed);
            &&& 0 <= pillar_budget(next) < pillar_budget(state)
            &&& next.x == state.x && next.z == state.z && next.target == state.target
            &&& action matches PillarAction::Done(ok) ==> ok == (feet >= state.target)
            &&& action is Done <==> next.phase == PillarPhase::Over
            &&& action matches PillarAction::Land(Some(p)) ==> is_solid_pos(*blocks, p) && p.0 == state.x
                && p.2 == state.z
        }),
{
}

/// The state after a run of observations.
pub open spec fn pillar_up_run(state: Pillar, seen: Seq<(&Blocks, i32, bool)>) -> Pillar
    decreases seen.len(),
{
    if seen.len() == 0 {
        state
    } else {
        let (blocks, feet, armed) = seen.last();
        pillar_up_next(pillar_up_run(state, seen.drop_last()), blocks, feet, armed).0
    }
}

proof fn lemma_pillar_up_run(state: Pillar, seen: Seq<(&Blocks, i32, bool)>)
    ensures
        pillar_up_run(state, seen).phase == PillarPhase::Over || pillar_budget(
            pillar_up_run(state, seen),
        ) + seen.len() <= pillar_budget(state),
    decreases seen.len(),
{
    if seen.len() > 0 {
        lemma_pillar_up_run(state, seen.drop_last());
    }
}

/// Whatever the bot sees, a pillar is over after 97 steps.
pub proof fn law_pillars_take_a_bounded_time(x: i32, z: i32, target: i32, seen: Seq<(&Blocks, i32, bool)>)
    requires
        seen.len() >= 97,
    ensures
        pillar_up_run(pillar_start(x, z, target), seen).phase == PillarPhase::Over,
{
    lemma_pillar_up_run(pillar_start(x, z, target), seen);
}

// ── fluids ──────────────────────────────────────────────────────────────────

/// A source that stands in the running: one with air above it, or any where none
/// has.
pub open spec fn in_running(blocks: Blocks, sources: Seq<Pos>, i: int) -> bool {
    is_open_source(blocks, sources[i]) || forall|j: int|
        0 <= j < sources.len() ==> !is_open_source(blocks, #[trigger] sources[j])
}

/// There is air directly above the source.
pub open spec fn is_open_source(blocks: Blocks, p: Pos) -> bool {
    is_air_cell(blocks, p.0 as int, p.1 + 1, p.2 as int)
}

/// Number `i` is the nearest of the sources in the running, and the first of those as
/// near. `keys` orders the sources by how far away they are.
pub open spec fn is_fluid_pick(blocks: Blocks, sources: Seq<Pos>, keys: Seq<u64>, i: int) -> bool {
    &&& 0 <= i < sources.len()
    &&& in_running(blocks, sources, i)
    &&& forall|j: int|
        0 <= j < sources.len() && #[trigger] in_running(blocks, sources, j) ==> keys[i] <= keys[j]
    &&& forall|j: int| 0 <= j < i && #[trigger] in_running(blocks, sources, j) ==> keys[i] < keys[j]
}

/// The nearest source is one and the same, however it is found.
pub proof fn law_fluid_pick_is_one(blocks: Blocks, sources: Seq<Pos>, keys: Seq<u64>, i: int, j: int)
    requires
        is_fluid_pick(blocks, sources, keys, i),
        is_fluid_pick(blocks, sources, keys, j),
    ensures
        i == j,
{
}

/// The nearest of the sources in the running.
pub open spec fn fluid_pick(blocks: Blocks, sources: Seq<Pos>, keys: Seq<u64>) -> Pos {
    sources[choose|i: int| is_fluid_pick(blocks, sources, keys, i)]
}

/// Nearest visible fluid source, preferring one with air directly above. `keys`
/// orders the sources by how far away they are.
pub fn find_fluid(blocks: &Blocks, sources: &Vec<Pos>, keys: &Vec<u64>) -> (r: Option<usize>)
    requires
        sources@.len() == keys@.len(),
        forall|i: int| 0 <= i < sources@.len() ==> (#[trigger] sources@[i]).1 < i32::MAX,
    ensures
        r is None <==> sources@.len() == 0,
        r matches Some(i) ==> is_fluid_pick(*blocks, sources@, keys@, i as int),
{
    let mut any_open: bool = false;
    let mut i: usize = 0;
    while i < sources.len()
        invariant
            i <= sources@.len(),
            forall|j: int| 0 <= j < sources@.len() ==> (#[trigger] sources@[j]).1 < i32::MAX,
            any_open == exists|j: int|
                0 <= j < i && is_open_source(*blocks, #[trigger] sources@[j]),
        decreases sources@.len() - i,
    {
        let p = sources[i];
        if air_at(blocks, p.0, p.1 + 1, p.2) {
            assert(is_open_source(*blocks, sources@[i as int]));
            any_open = true;
        }
        i += 1;
    }
    let mut best: Option<usize> = None;
    let mut i: usize = 0;
    while i < sources.len()
        invariant
            i <= sources@.len(),
            sources@.len() == keys@.len(),
            forall|j: int| 0 <= j < sources@.len() ==> (#[trigger] sources@[j]).1 < i32::MAX,
            any_open == exists|j: int|
                0 <= j < sources@.len() && is_open_source(*blocks, #[trigger] sources@[j]),
            best is None ==> forall|j: int|
                0 <= j < i ==> !(#[trigger] in_running(*blocks, sources@, j)),
            best matches Some(b) ==> {
                &&& b < i
                &&& in_running(*blocks, sources@, b as int)
                &&& forall|j: int|
                    0 <= j < i && #[trigger] in_running(*blocks, sources@, j) ==> keys@[b as int]
                        <= keys@[j]
                &&& forall|j: int|
                    0 <= j < b && #[trigger] in_running(*blocks, sources@, j) ==> keys@[b as int]
                        < keys@[j]
            },
        decreases sources@.len() - i,
    {
        let p = sources[i];
        let open: bool = air_at(blocks, p.0, p.1 + 1, p.2);
        assert((open || !any_open) == in_running(*blocks, sources@, i as int));
        if open || !any_open {
            match best {
                Some(b) => {
                    if keys[i] < keys[b] {
                        best = Some(i);
                    }
                },
                None => {
                    best = Some(i);
                },
            }
        }
        i += 1;
    }
    proof {
        if sources@.len() > 0 && best is None {
            assert(!in_running(*blocks, sources@, 0));
            let j = choose|j: int|
                0 <= j < sources@.len() && is_open_source(*blocks, #[trigger] sources@[j]);
            assert(in_running(*blocks, sources@, j));
        }
    }
    best
}

/// The eight ways round a source, the straight ones first.
pub open spec fn round_way(k: int) -> (i32, i32) {
    if k == 0 {
        (1, 0)
    } else if k == 1 {
        (-1i32, 0)
    } else if k == 2 {
        (0, 1)
    } else if k == 3 {
        (0, -1i32)
    } else if k == 4 {
        (1, 1)
    } else if k == 5 {
        (1, -1i32)
    } else if k == 6 {
        (-1i32, 1)
    } else {
        (-1i32, -1i32)
    }
}

fn way_round(k: u32) -> (r: (i32, i32))
    ensures
        r == round_way(k as int),
        -1 <= r.0 <= 1,
        -1 <= r.1 <= 1,
{
    if k == 0 {
        (1, 0)
    } else if k == 1 {
        (-1, 0)
    } else if k == 2 {
        (0, 1)
    } else if k == 3 {
        (0, -1)
    } else if k == 4 {
        (1, 1)
    } else if k == 5 {
        (1, -1)
    } else if k == 6 {
        (-1, 1)
    } else {
        (-1, -1)
    }
}

/// The block number `n` beside a source: each way at the source's own level (fluid
/// flush with the floor) and one level up (a recessed pit).
pub open spec fn brink(src: Pos, n: int) -> (int, int, int) {
    (src.0 + round_way(n / 2).0, src.1 + n % 2, src.2 + round_way(n / 2).1)
}

/// The block can be stood on: solid, with two cells of air above.
pub open spec fn is_stand(blocks: Blocks, c: (int, int, int)) -> bool {
    &&& is_solid_cell(blocks, c.0, c.1, c.2)
    &&& is_air_cell(blocks, c.0, c.1 + 1, c.2)
    &&& is_air_cell(blocks, c.0, c.1 + 2, c.2)
}

/// The source has an open surface and a block beside it to stand on.
pub open spec fn is_edge_source(blocks: Blocks, src: Pos) -> bool {
    is_open_source(blocks, src) && exists|n: int| 0 <= n < 16 && #[trigger] is_stand(blocks, brink(src, n))
}

/// The first block beside a source that can be stood on.
fn first_stand(blocks: &Blocks, src: Pos) -> (r: Option<Pos>)
    requires
        has_room(src, 3),
    ensures
        r matches Some(c) ==> exists|n: int|
            0 <= n < 16 && is_first_stand(*blocks, src, n) && (c.0 as int, c.1 as int, c.2 as int)
                == #[trigger] brink(src, n),
        r is None ==> forall|n: int| 0 <= n < 16 ==> !(#[trigger] is_stand(*blocks, brink(src, n))),
{
    let mut n: u32 = 0;
    while n < 16
        invariant
            n <= 16,
            has_room(src, 3),
            forall|m: int| 0 <= m < n ==> !(#[trigger] is_stand(*blocks, brink(src, m))),
        decreases 16 - n,
    {
        let d = way_round(n / 2);
        let (x, y, z) = (src.0 + d.0, src.1 + (n % 2) as i32, src.2 + d.1);
        assert(brink(src, n as int) == (x as int, y as int, z as int));
        if solid_at(blocks, x, y, z) && air_at(blocks, x, y + 1, z) && air_at(blocks, x, y + 2, z) {
            assert(is_stand(*blocks, brink(src, n as int)));
            return Some((x, y, z));
        }
        n += 1;
    }
    None
}

/// Number `n` is the first block beside the source that can be stood on.
pub open spec fn is_first_stand(blocks: Blocks, src: Pos, n: int) -> bool {
    &&& is_stand(blocks, brink(src, n))
    &&& forall|m: int| 0 <= m < n ==> !(#[trigger] is_stand(blocks, brink(src, m)))
}

/// Number `i` is the first source with an open surface and a block beside it to stand
/// on, and `n` the first such block.
pub open spec fn is_edge_pick(blocks: Blocks, sources: Seq<Pos>, i: int, n: int) -> bool {
    &&& 0 <= i < sources.len()
    &&& 0 <= n < 16
    &&& is_open_source(blocks, sources[i])
    &&& is_first_stand(blocks, sources[i], n)
    &&& forall|j: int| 0 <= j < i ==> !is_edge_source(blocks, #[trigger] sources[j])
}

/// The edge source is one and the same, however it is found, and so is the block.
pub proof fn law_edge_pick_is_one(blocks: Blocks, sources: Seq<Pos>, i: int, n: int, j: int, m: int)
    requires
        is_edge_pick(blocks, sources, i, n),
        is_edge_pick(blocks, sources, j, m),
    ensures
        i == j,
        n == m,
{
    assert(is_stand(blocks, brink(sources[i], n)));
    assert(is_stand(blocks, brink(sources[j], m)));
    assert(is_edge_source(blocks, sources[i]));
    assert(is_edge_source(blocks, sources[j]));
}

pub open spec fn to_pos(c: (int, int, int)) -> Pos {
    (c.0 as i32, c.1 as i32, c.2 as i32)
}

/// The edge source with its block, where there is one.
pub open spec fn edge_pick(blocks: Blocks, sources: Seq<Pos>) -> Option<(Pos, Pos)> {
    if exists|i: int, n: int| is_edge_pick(blocks, sources, i, n) {
        let (i, n) = choose|i: int, n: int| is_edge_pick(blocks, sources, i, n);
        Some((sources[i], to_pos(brink(sources[i], n))))
    } else {
        None
    }
}

/// An edge source (open surface and a block to stand on beside it), not just the
/// nearest: the centre of a pool has only fluid neighbours. The first of the
/// sources that has one, with that block.
pub fn edge_source(blocks: &Blocks, sources: &Vec<Pos>) -> (r: Option<(Pos, Pos)>)
    requires
        forall|i: int| 0 <= i < sources@.len() ==> has_room(#[trigger] sources@[i], 3),
    ensures
        r == edge_pick(*blocks, sources@),
        r is None <==> forall|j: int|
            0 <= j < sources@.len() ==> !is_edge_source(*blocks, #[trigger] sources@[j]),
{
    let mut i: usize = 0;
    while i < sources.len()
        invariant
            i <= sources@.len(),
            forall|j: int| 0 <= j < sources@.len() ==> has_room(#[trigger] sources@[j], 3),
            forall|j: int| 0 <= j < i ==> !is_edge_source(*blocks, #[trigger] sources@[j]),
        decreases sources@.len() - i,
    {
        let src = sources[i];
        assert(has_room(sources@[i as int], 3));
        if air_at(blocks, src.0, src.1 + 1, src.2) {
            match first_stand(blocks, src) {
                Some(c) => {
                    proof {
                        let n = choose|n: int|
                            0 <= n < 16 && is_first_stand(*blocks, src, n) && (
                                c.0 as int,
                                c.1 as int,
                                c.2 as int,
                            ) == #[trigger] brink(src, n);
                        assert(is_edge_pick(*blocks, sources@, i as int, n));
                        let (j, m) = choose|j: int, m: int| is_edge_pick(*blocks, sources@, j, m);
                        law_edge_pick_is_one(*blocks, sources@, i as int, n, j, m);
                        assert(is_stand(*blocks, brink(sources@[i as int], n)));
                        assert(is_edge_source(*blocks, sources@[i as int]));
                    }
                    return Some((src, c));
                },
                None => {},
            }
        }
        i += 1;
    }
    proof {
        if exists|j: int, m: int| is_edge_pick(*blocks, sources@, j, m) {
            let (j, m) = choose|j: int, m: int| is_edge_pick(*blocks, sources@, j, m);
            assert(is_stand(*blocks, brink(sources@[j], m)));
            assert(is_edge_source(*blocks, sources@[j]));
        }
    }
    None
}

#[derive(Debug, Clone, Copy, PartialEq, Eq)]
pub enum FillPhase {
    Start,
    /// Has looked for a place to fill from, for the second time or not.
    Looked(bool),
    /// Stands where this source is in reach.
    Walked(Pos),
    /// Has the empty bucket in hand; so many uses on this source are done.
    Used(Pos, u32),
    Over,
}

#[derive(Debug, Clone, Copy, PartialEq, Eq, Structural)]
pub struct FillSeen {
    /// Empty buckets.
    pub buckets: i32,
    /// Buckets full of the fluid.
    pub filled: i32,
    /// The empty bucket is in hand.
    pub armed: bool,
}

#[derive(Debug, Clone, Copy, PartialEq, Eq)]
pub enum FillAction {
    /// Look for sources.
    Look,
    /// Let block updates settle and look once more.
    LookAgain,
    /// Walk to this cell.
    WalkTo(Pos),
    /// Take the empty bucket in hand.
    Select,
    /// Use it on this source, aiming at the middle or at the bottom.
    Use(Pos, bool),
    Done(bool),
}

/// The cell on top of another.
pub open spec fn on_top(c: Pos) -> Pos {
    (c.0, (c.1 + 1) as i32, c.2)
}

/// Goes to a source that was seen: beside an edge source, or onto the nearest, which
/// is never done for lava.
pub open spec fn fill_from_next(
    lava: bool,
    blocks: &Blocks,
    sources: Seq<Pos>,
    keys: Seq<u64>,
) -> (FillPhase, FillAction) {
    match edge_pick(*blocks, sources) {
        Some((src, c)) => (FillPhase::Walked(src), FillAction::WalkTo(on_top(c))),
        None => {
            if lava || sources.len() == 0 {
                (FillPhase::Over, FillAction::Done(false))
            } else {
                let src = fluid_pick(*blocks, sources, keys);
                (FillPhase::Walked(src), FillAction::WalkTo(on_top(src)))
            }
        },
    }
}

/// Goes to a source that was seen: beside an edge source, or onto the nearest, which
/// is never done for lava.
fn fill_from(lava: bool, blocks: &Blocks, sources: &Vec<Pos>, keys: &Vec<u64>) -> (r: (
    FillPhase,
    FillAction,
))
    requires
        sources@.len() == keys@.len(),
        forall|i: int| 0 <= i < sources@.len() ==> has_room(#[trigger] sources@[i], 3),
    ensures
        r == fill_from_next(lava, blocks, sources@, keys@),
{
    match edge_source(blocks, sources) {
        Some((src, c)) => {
            proof {
                let (i, n) = choose|i: int, n: int| is_edge_pick(*blocks, sources@, i, n);
                assert(has_room(sources@[i], 3));
            }
            (FillPhase::Walked(src), FillAction::WalkTo((c.0, c.1 + 1, c.2)))
        },
        None => {
            if lava {
                return (FillPhase::Over, FillAction::Done(false));
            }
            match find_fluid(blocks, sources, keys) {
                Some(i) => {
                    let src = sources[i];
                    proof {
                        let j = choose|j: int| is_fluid_pick(*blocks, sources@, keys@, j);
                        law_fluid_pick_is_one(*blocks, sources@, keys@, i as int, j);
                        assert(has_room(sources@[i as int], 3));
                    }
                    (FillPhase::Walked(src), FillAction::WalkTo((src.0, src.1 + 1, src.2)))
                },
                None => (FillPhase::Over, FillAction::Done(false)),
            }
        },
    }
}

/// What `fill_bucket` does next.
pub open spec fn fill_bucket_next(
    phase: FillPhase,
    lava: bool,
    blocks: &Blocks,
    sources: Seq<Pos>,
    keys: Seq<u64>,
    seen: FillSeen,
) -> (FillPhase, FillAction) {
    match phase {
        FillPhase::Start => {
            if seen.buckets < 1 {
                (FillPhase::Over, FillAction::Done(false))
            } else {
                (FillPhase::Looked(false), FillAction::Look)
            }
        },
        FillPhase::Looked(again) => {
            if sources.len() == 0 && !again {
                (FillPhase::Looked(true), FillAction::LookAgain)
            } else {
                fill_from_next(lava, blocks, sources, keys)
            }
        },
        FillPhase::Walked(src) => (FillPhase::Used(src, 0), FillAction::Select),
        FillPhase::Used(src, n) => {
            if n == 0 && !seen.armed {
                (FillPhase::Over, FillAction::Done(false))
            } else if n > 0 && seen.filled > 0 {
                (FillPhase::Over, FillAction::Done(true))
            } else if n >= 6 {
                (FillPhase::Over, FillAction::Done(false))
            } else {
                (FillPhase::Used(src, (n + 1) as u32), FillAction::Use(src, n % 2 == 0))
            }
        },
        FillPhase::Over => (phase, FillAction::Done(false)),
    }
}

/// Stands beside a fluid source and fills an empty bucket from it, in up to six
/// tries. Water does not burn, so as a last resort it is scooped from directly above;
/// never lava. `sources` are the sources that were seen, nearest first, and `keys`
/// orders them by how far away they are.
pub fn fill_bucket(
    phase: FillPhase,
    lava: bool,
    blocks: &Blocks,
    sources: &Vec<Pos>,
    keys: &Vec<u64>,
    seen: FillSeen,
) -> (r: (FillPhase, FillAction))
    requires
        sources@.len() == keys@.len(),
        forall|i: int| 0 <= i < sources@.len() ==> has_room(#[trigger] sources@[i], 3),
    ensures
        r == fill_bucket_next(phase, lava, blocks, sources@, keys@, seen),
{
    match phase {
        FillPhase::Start => {
            if seen.buckets < 1 {
                (FillPhase::Over, FillAction::Done(false))
            } else {
                (FillPhase::Looked(false), FillAction::Look)
            }
        },
        FillPhase::Looked(again) => {
            if sources.len() == 0 && !again {
                (FillPhase::Looked(true), FillAction::LookAgain)
            } else {
                fill_from(lava, blocks, sources, keys)
            }
        },
        FillPhase::Walked(src) => (FillPhase::Used(src, 0), FillAction::Select),
        FillPhase::Used(src, n) => {
            if n == 0 && !seen.armed {
                (FillPhase::Over, FillAction::Done(false))
            } else if n > 0 && seen.filled > 0 {
                (FillPhase::Over, FillAction::Done(true))
            } else if n >= 6 {
                (FillPhase::Over, FillAction::Done(false))
            } else {
                (FillPhase::Used(src, n + 1), FillAction::Use(src, n % 2 == 0))
            }
        },
        FillPhase::Over => (phase, FillAction::Done(false)),
    }
}

/// Lava is never scooped from above: the bot walks only to where it stands on a solid
/// block beside a lava source, with its head and body in air.
pub proof fn law_lava_is_scooped_from_the_side(
    phase: FillPhase,
    blocks: &Blocks,
    sources: Seq<Pos>,
    keys: Seq<u64>,
    seen: FillSeen,
    p: Pos,
)
    requires
        forall|i: int| 0 <= i < sources.len() ==> has_room(#[trigger] sources[i], 3),
        fill_bucket_next(phase, true, blocks, sources, keys, seen).1 == FillAction::WalkTo(p),
    ensures
        is_solid_cell(*blocks, p.0 as int, p.1 - 1, p.2 as int),
        is_air_cell(*blocks, p.0 as int, p.1 as int, p.2 as int),
        is_air_cell(*blocks, p.0 as int, p.1 + 1, p.2 as int),
        exists|i: int|
            0 <= i < sources.len() && (#[trigger] sources[i]).0 - 1 <= p.0 <= sources[i].0 + 1
                && sources[i].2 - 1 <= p.2 <= sources[i].2 + 1 && !(p.0 == sources[i].0 && p.2
                == sources[i].2),
{
    let (i, n) = choose|i: int, n: int| is_edge_pick(*blocks, sources, i, n);
    assert(has_room(sources[i], 3));
    assert(is_stand(*blocks, brink(sources[i], n)));
    assert(sources[i].0 - 1 <= p.0 <= sources[i].0 + 1);
}

/// Success means that there is a full bucket, after at most six uses.
pub proof fn law_filling_is_bounded(
    phase: FillPhase,
    lava: bool,
    blocks: &Blocks,
    sources: Seq<Pos>,
    keys: Seq<u64>,
    seen: FillSeen,
)
    requires
        phase matches FillPhase::Used(_, n) ==> n <= 6,
    ensures
        ({
            let (next, action) = fill_bucket_next(phase, lava, blocks, sources, keys, seen);
            &&& next matches FillPhase::Used(_, n) ==> n <= 6
            &&& action == FillAction::Done(true) ==> seen.filled > 0
            &&& phase matches FillPhase::Used(src, n) ==> next == FillPhase::Over || next
                == FillPhase::Used(src, (n + 1) as u32)
        }),
{
}

// ── what holds of every step ────────────────────────────────────────────────

/// A missing block reads as air, and a known one by its own name.
pub proof fn law_names_are_shown(blocks: Blocks, x: int, y: int, z: int)
    ensures
        block_name(blocks, x, y, z) matches Some(n) ==> shown_name(blocks, x, y, z) == n,
        block_name(blocks, x, y, z) is None ==> shown_name(blocks, x, y, z) == "air"@,
{
}

/// The blocks that give way to one that is placed, by name; all others are solid unless they
/// are water or lava.
pub proof fn law_blocks_that_give_way(n: Seq<char>)
    ensures
        is_air_name(n) <==> seq!["air"@, "cave_air"@, "void_air"@].contains(n),
        is_replaceable_name(n) <==> seq![
            "air"@,
            "cave_air"@,
            "void_air"@,
            "short_grass"@,
            "tall_grass"@,
            "fern"@,
            "snow"@,
            "snow_layer"@,
            "dead_bush"@,
        ].contains(n),
        is_solid_name(n) || is_replaceable_name(n) || occurs_in("water"@, n) || occurs_in("lava"@, n),
        is_solid_name(n) ==> !is_replaceable_name(n),
        is_solid_name(n) ==> !occurs_in("water"@, n),
        is_solid_name(n) ==> !occurs_in("lava"@, n),
        is_lava_block(n) <==> seq!["lava"@, "flowing_lava"@].contains(n),
{
    let air = seq!["air"@, "cave_air"@, "void_air"@];
    let soft = seq![
        "air"@,
        "cave_air"@,
        "void_air"@,
        "short_grass"@,
        "tall_grass"@,
        "fern"@,
        "snow"@,
        "snow_layer"@,
        "dead_bush"@,
    ];
    let lava = seq!["lava"@, "flowing_lava"@];
    assert(air[0] == "air"@ && air[1] == "cave_air"@ && air[2] == "void_air"@);
    assert(soft[0] == "air"@ && soft[1] == "cave_air"@ && soft[2] == "void_air"@ && soft[3]
        == "short_grass"@ && soft[4] == "tall_grass"@ && soft[5] == "fern"@ && soft[6] == "snow"@ && soft[7]
        == "snow_layer"@ && soft[8] == "dead_bush"@);
    assert(lava[0] == "lava"@ && lava[1] == "flowing_lava"@);
}

/// Obsidian and lava are never dug, nor is air; whatever else there is may be dug, and cleared
/// if it is solid.
pub proof fn law_what_is_dug(n: Seq<char>)
    ensures
        may_dig_name(n) || is_air_name(n) || n == "obsidian"@ || occurs_in("lava"@, n),
        is_air_name(n) ==> !may_dig_name(n),
        !may_dig_name("obsidian"@),
        occurs_in("lava"@, n) ==> !may_dig_name(n),
        is_solid_name(n) && may_dig_name(n) <==> may_clear_name(n),
{
}

/// Every face looks one step along an axis: top and bottom up and down, south and north along
/// the last axis, east and west along the first.
pub proof fn law_faces_look_outward(f: Face)
    ensures
        f == Face::Top <==> f.offset() == (0int, 1int, 0int),
        f == Face::Bottom <==> f.offset() == (0int, -1int, 0int),
        f == Face::East <==> f.offset() == (1int, 0int, 0int),
        f == Face::West <==> f.offset() == (-1int, 0int, 0int),
        f == Face::South <==> f.offset() == (0int, 0int, 1int),
        f == Face::North <==> f.offset() == (0int, 0int, -1int),
{
}

/// A block may be placed against any of its six neighbours; the one below comes first and the
/// one above last.
pub proof fn law_all_sides_are_ways(d: (i32, i32, i32))
    ensures
        is_step(d) <==> exists|k: int| 0 <= k < 6 && #[trigger] place_way(k) == d,
        is_step(d) <==> ((d.0 == 0 && d.1 == 0) || (d.0 == 0 && d.2 == 0) || (d.1 == 0 && d.2 == 0)) && -1
            <= d.0 + d.1 + d.2 <= 1 && d.0 + d.1 + d.2 != 0,
        forall|j: int, k: int| 0 <= j < k < 6 ==> #[trigger] place_way(j) != #[trigger] place_way(k),
        forall|k: int|
            0 <= k < 6 ==> ((#[trigger] place_way(k)).1 == -1 <==> k == 0) && (place_way(k).1 == 1 <==> k == 5),
        forall|k: int|
            0 <= k < 6 ==> ((#[trigger] place_way(k)).0 == 1 <==> k == 1) && (place_way(k).0 == -1 <==> k == 2),
        forall|k: int|
            0 <= k < 6 ==> ((#[trigger] place_way(k)).2 == 1 <==> k == 3) && (place_way(k).2 == -1 <==> k == 4),
{
    if is_step(d) {
        assert(place_way(0) == d || place_way(1) == d || place_way(2) == d || place_way(3) == d || place_way(4)
            == d || place_way(5) == d);
    }
}

/// What is found is the first side with a solid block, from the given one on.
pub proof fn law_backing_is_the_first(blocks: &Blocks, pos: Pos, from: u32)
    ensures
        match first_backing(blocks, pos, from) {
            Some(k) => from <= k < 6 && backed(*blocks, pos, k as int) && forall|j: int|
                from <= j < k ==> !#[trigger] backed(*blocks, pos, j),
            None => forall|j: int| from <= j < 6 ==> !#[trigger] backed(*blocks, pos, j),
        },
    decreases 6 - from,
{
    if from < 6 {
        law_backing_is_the_first(blocks, pos, (from + 1) as u32);
    }
}

/// Placing succeeds exactly where the cell is seen solid. It fails only without a build block,
/// or with no side left that has a solid block to place against; before that every such side
/// is tried, in order.
pub proof fn law_every_side_is_tried(phase: PlacePhase, blocks: &Blocks, pos: Pos, armed: bool)
    requires
        has_room(pos, 1),
        phase matches PlacePhase::Placed(k) ==> k < 6,
    ensures
        ({
            let (next, action) = place_cobble_next(phase, blocks, pos, armed);
            let solid = is_solid_pos(*blocks, pos);
            let from = match phase {
                PlacePhase::Selected => if armed {
                    Some(0int)
                } else {
                    None
                },
                PlacePhase::Placed(k) => if solid {
                    None
                } else {
                    Some(k + 1)
                },
                _ => None,
            };
            &&& action == PlaceAction::Done(true) <==> solid && phase != PlacePhase::Selected
            &&& action == PlaceAction::Select <==> phase == PlacePhase::Start && !solid
            &&& action == PlaceAction::Select ==> next == PlacePhase::Selected
            &&& phase == PlacePhase::Selected && !armed ==> action == PlaceAction::Done(false)
            &&& action is Done <==> next == PlacePhase::Over
            &&& from matches Some(f) ==> {
                ||| action == PlaceAction::Done(false) && forall|j: int|
                    f <= j < 6 ==> !#[trigger] backed(*blocks, pos, j)
                ||| exists|k: u32|
                    f <= k < 6 && #[trigger] backed(*blocks, pos, k as int) && next == PlacePhase::Placed(k)
                        && action is PlaceAgainst && forall|j: int|
                        f <= j < k ==> !#[trigger] backed(*blocks, pos, j)
            }
        }),
{
    let from: u32 = match phase {
        PlacePhase::Placed(k) => (k + 1) as u32,
        _ => 0u32,
    };
    law_backing_is_the_first(blocks, pos, from);
}

/// A foundation is dug for down to the first cell that is solid or takes a block, four below
/// at most, and then built up again; the work fails only where nothing takes a block all the
/// way down or a block on the way up does not hold.
pub proof fn law_foundations_go_down_and_up(phase: SolidPhase, blocks: &Blocks, pos: Pos, placed: bool)
    requires
        has_room(pos, FOUNDATION as int),
        solid_wf(phase),
        phase != SolidPhase::Over,
    ensures
        ({
            let (next, action) = ensure_solid_next(phase, blocks, pos, placed);
            &&& action == SolidAction::Done(true) <==> {
                ||| phase == SolidPhase::Start && is_solid_pos(*blocks, pos)
                ||| phase == SolidPhase::Tried(0) && placed
                ||| phase == SolidPhase::Raised(0) && placed
            }
            &&& action == SolidAction::Done(false) <==> !placed && (phase is Raised || phase
                == SolidPhase::Tried(4))
            &&& action is Done <==> next == SolidPhase::Over
            &&& phase == SolidPhase::Start && !is_solid_pos(*blocks, pos) ==> action == SolidAction::Place(pos)
                && next == SolidPhase::Tried(0)
            &&& phase matches SolidPhase::Tried(k) ==> (!placed && k < 4 ==> {
                let solid = is_solid_cell(*blocks, pos.0 as int, pos.1 - k - 1, pos.2 as int);
                &&& solid ==> action == SolidAction::Place((pos.0, (pos.1 - k) as i32, pos.2)) && next
                    == SolidPhase::Raised(k)
                &&& !solid ==> action == SolidAction::Place((pos.0, (pos.1 - k - 1) as i32, pos.2)) && next
                    == SolidPhase::Tried((k + 1) as u32)
            })
            &&& (match phase {
                SolidPhase::Tried(k) | SolidPhase::Raised(k) => placed && k > 0 ==> action
                    == SolidAction::Place((pos.0, (pos.1 - k + 1) as i32, pos.2)) && next
                    == SolidPhase::Raised((k - 1) as u32),
                _ => true,
            })
        }),
{
}

/// Walking by hand stops exactly when the bot is near enough, the connection is lost or its
/// ticks are used up, and it jumps exactly when stuck or in water, up to the head.
pub proof fn law_walking_stops_for_a_reason(left: u32, blocks: &Blocks, feet: Pos, seen: WalkSeen)
    ensures
        ({
            let (next, action) = walk_to_xz_next(left, blocks, feet, seen);
            let wet = exists|dy: int|
                0 <= dy < 2 && occurs_in(
                    "water"@,
                    #[trigger] shown_name(*blocks, feet.0 as int, feet.1 + dy, feet.2 as int),
                );
            &&& action == WalkAction::Stop <==> seen.near || seen.lost || left == 0
            &&& action == WalkAction::Step(true) <==> !(seen.near || seen.lost || left == 0) && (seen.stuck
                || wet)
            &&& action is Step ==> next == left - 1
        }),
{
    assert(wades(*blocks, feet) <==> exists|dy: int|
        0 <= dy < 2 && occurs_in(
            "water"@,
            #[trigger] shown_name(*blocks, feet.0 as int, feet.1 + dy, feet.2 as int),
        )) by {
        let low = shown_name(*blocks, feet.0 as int, feet.1 + 0, feet.2 as int);
        let high = shown_name(*blocks, feet.0 as int, feet.1 + 1, feet.2 as int);
        assert(low == shown_name(*blocks, feet.0 as int, feet.1 as int, feet.2 as int));
        if exists|dy: int|
            0 <= dy < 2 && occurs_in(
                "water"@,
                #[trigger] shown_name(*blocks, feet.0 as int, feet.1 + dy, feet.2 as int),
            ) {
            let dy = choose|dy: int|
                0 <= dy < 2 && occurs_in(
                    "water"@,
                    #[trigger] shown_name(*blocks, feet.0 as int, feet.1 + dy, feet.2 as int),
                );
            assert(dy == 0 || dy == 1);
        }
    }
}

/// The ground is cleared until the feet are down at the target, 24 times at most.
pub proof fn law_sinking_stops_at_the_target(left: u32, feet: i32, target: i32)
    ensures
        descend_to_y_next(left, feet, target).1 == SinkAction::Stop <==> feet <= target || left == 0,
        descend_to_y_next(left, feet, target).1 == SinkAction::ClearBelow ==> descend_to_y_next(
            left,
            feet,
            target,
        ).0 == left - 1,
        SINK_TURNS == 24,
{
}

/// A pillar is given up only when its 24 jumps are used up or there is no block to build with;
/// until the feet are up it goes on: centre, clear two cells over the head, jump, and place a
/// block where the feet were, on a solid one.
pub proof fn law_pillars_rise(state: Pillar, blocks: &Blocks, feet: i32, armed: bool)
    requires
        state.phase != PillarPhase::Over,
        feet <= i32::MAX - 3,
        state.phase matches PillarPhase::Jumped(f) ==> f > i32::MIN,
    ensures
        ({
            let (next, action) = pillar_up_next(state, blocks, feet, armed);
            let (x, z) = (state.x, state.z);
            &&& action is Done <==> (state.phase == PillarPhase::Top && (feet >= state.target || state.left
                == 0)) || (state.phase is Armed && !armed)
            &&& action == PillarAction::Centre ==> next.left == state.left - 1
            &&& action != PillarAction::Centre ==> next.left == state.left
            &&& state.phase == PillarPhase::Top && feet < state.target && state.left > 0 ==> action
                == PillarAction::Centre && next.phase == PillarPhase::Centred
            &&& state.phase == PillarPhase::Centred ==> next.phase == PillarPhase::Armed(feet) && action
                == PillarAction::Prepare((x, (feet + 2) as i32, z), (x, (feet + 3) as i32, z))
            &&& state.phase matches PillarPhase::Armed(f) ==> (armed ==> action == PillarAction::Jump(f)
                && next.phase == PillarPhase::Jumped(f))
            &&& state.phase matches PillarPhase::Jumped(f) ==> next.phase == PillarPhase::Top && (match action {
                PillarAction::Land(Some(p)) => p == (x, (f - 1) as i32, z) && is_solid_pos(*blocks, p),
                PillarAction::Land(None) => !is_solid_cell(*blocks, x as int, f - 1, z as int),
                _ => false,
            })
        }),
        ({
            let start = pillar_start(state.x, state.z, state.target);
            start.x == state.x && start.z == state.z && start.target == state.target && start.left == 24
                && start.phase == PillarPhase::Top
        }),
{
}

/// The source that is picked has air above it wherever some source has, and no source of the
/// same sort is nearer.
pub proof fn law_open_sources_come_first(blocks: Blocks, sources: Seq<Pos>, keys: Seq<u64>, i: int, j: int)
    requires
        is_fluid_pick(blocks, sources, keys, i),
        0 <= j < sources.len(),
    ensures
        ({
            let open_i = is_air_cell(blocks, sources[i].0 as int, sources[i].1 + 1, sources[i].2 as int);
            let open_j = is_air_cell(blocks, sources[j].0 as int, sources[j].1 + 1, sources[j].2 as int);
            &&& open_j ==> open_i
            &&& open_i == open_j ==> keys[i] <= keys[j]
            &&& open_i == open_j && j < i ==> keys[i] < keys[j]
        }),
{
    assert(is_open_source(blocks, sources[j]) ==> in_running(blocks, sources, j));
    if !is_open_source(blocks, sources[i]) {
        assert(forall|k: int| 0 <= k < sources.len() ==> !is_open_source(blocks, #[trigger] sources[k]));
        assert(in_running(blocks, sources, j));
    }
}

/// The blocks beside a source are the eight around it, at its own level and one above; the
/// straight ones come first.
pub proof fn law_the_brink_is_all_around(src: Pos, x: int, y: int, z: int)
    ensures
        (exists|n: int| 0 <= n < 16 && #[trigger] brink(src, n) == (x, y, z)) <==> (-1 <= x - src.0 <= 1 && -1
            <= z - src.2 <= 1 && !(x == src.0 && z == src.2) && 0 <= y - src.1 <= 1),
        forall|n: int|
            0 <= n < 8 ==> (#[trigger] brink(src, n)).0 == src.0 || brink(src, n).2 == src.2,
        forall|n: int| 0 <= n < 16 ==> (#[trigger] brink(src, n)).1 == src.1 + n % 2,
{
    if -1 <= x - src.0 <= 1 && -1 <= z - src.2 <= 1 && !(x == src.0 && z == src.2) && 0 <= y - src.1 <= 1 {
        let (dx, dz) = (x - src.0, z - src.2);
        let k: int = if dx == 1 && dz == 0 {
            0
        } else if dx == -1 && dz == 0 {
            1
        } else if dx == 0 && dz == 1 {
            2
        } else if dx == 0 && dz == -1 {
            3
        } else if dx == 1 && dz == 1 {
            4
        } else if dx == 1 && dz == -1 {
            5
        } else if dx == -1 && dz == 1 {
            6
        } else {
            7
        };
        let n = 2 * k + (y - src.1);
        assert(n / 2 == k && n % 2 == y - src.1);
        assert(brink(src, n) == (x, y, z));
    }
}

/// Where some source has air above it and a solid block beside it with two cells of air on
/// top, such a source is found, the first of them, with such a block.
pub proof fn law_edges_are_found(blocks: Blocks, sources: Seq<Pos>, i: int, x: int, y: int, z: int)
    requires
        0 <= i < sources.len(),
        is_air_cell(blocks, sources[i].0 as int, sources[i].1 + 1, sources[i].2 as int),
        -1 <= x - sources[i].0 <= 1,
        -1 <= z - sources[i].2 <= 1,
        !(x == sources[i].0 && z == sources[i].2),
        0 <= y - sources[i].1 <= 1,
        is_solid_cell(blocks, x, y, z),
        is_air_cell(blocks, x, y + 1, z),
        is_air_cell(blocks, x, y + 2, z),
    ensures
        edge_pick(blocks, sources) matches Some((s, _)) && exists|j: int|
            0 <= j <= i && #[trigger] sources[j] == s,
{
    law_the_brink_is_all_around(sources[i], x, y, z);
    let n = choose|n: int| 0 <= n < 16 && #[trigger] brink(sources[i], n) == (x, y, z);
    assert(is_stand(blocks, brink(sources[i], n)));
    assert(is_edge_source(blocks, sources[i]));
    lemma_edge_pick(blocks, sources, i);
    let (j, m) = choose|j: int, m: int| is_edge_pick(blocks, sources, j, m);
    assert(sources[j] == sources[j]);
}

/// A source with an edge leads to a pick.
proof fn lemma_edge_pick(blocks: Blocks, sources: Seq<Pos>, i: int)
    requires
        0 <= i < sources.len(),
        is_edge_source(blocks, sources[i]),
    ensures
        exists|j: int, m: int| is_edge_pick(blocks, sources, j, m),
    decreases i,
{
    if exists|j: int| 0 <= j < i && is_edge_source(blocks, #[trigger] sources[j]) {
        let j = choose|j: int| 0 <= j < i && is_edge_source(blocks, #[trigger] sources[j]);
        lemma_edge_pick(blocks, sources, j);
    } else {
        let n = choose|n: int| 0 <= n < 16 && #[trigger] is_stand(blocks, brink(sources[i], n));
        let m = lemma_least_stand(blocks, sources[i], n);
        assert(is_edge_pick(blocks, sources, i, m));
    }
}

/// Where there is a block to stand on, there is a first one.
proof fn lemma_least_stand(blocks: Blocks, src: Pos, n: int) -> (m: int)
    requires
        0 <= n < 16,
        is_stand(blocks, brink(src, n)),
    ensures
        0 <= m <= n,
        is_first_stand(blocks, src, m),
    decreases n,
{
    if exists|k: int| 0 <= k < n && #[trigger] is_stand(blocks, brink(src, k)) {
        let k = choose|k: int| 0 <= k < n && #[trigger] is_stand(blocks, brink(src, k));
        lemma_least_stand(blocks, src, k)
    } else {
        n
    }
}

/// Filling fails only without an empty bucket (in the pack or in hand), with no source in
/// sight at the second look, with no safe place beside lava, or after six uses. It succeeds
/// exactly with a full bucket after a use.
pub proof fn law_filling_fails_for_a_reason(
    phase: FillPhase,
    lava: bool,
    blocks: &Blocks,
    sources: Seq<Pos>,
    keys: Seq<u64>,
    seen: FillSeen,
)
    requires
        phase != FillPhase::Over,
        phase matches FillPhase::Used(_, n) ==> n <= 6,
    ensures
        ({
            let (next, action) = fill_bucket_next(phase, lava, blocks, sources, keys, seen);
            let edge = edge_pick(*blocks, sources);
            let used = phase->Used_1;
            &&& action == FillAction::Done(true) <==> phase is Used && used > 0 && seen.filled > 0
            &&& action == FillAction::Done(false) <==> {
                ||| phase == FillPhase::Start && seen.buckets < 1
                ||| phase is Looked && sources.len() == 0 && phase == FillPhase::Looked(true) && edge is None
                ||| phase is Looked && sources.len() > 0 && lava && edge is None
                ||| phase is Used && used == 0 && !seen.armed
                ||| phase is Used && used == 6 && seen.filled <= 0
            }
            &&& action is Done <==> next == FillPhase::Over
        }),
{
    if sources.len() == 0 {
        assert(edge_pick(*blocks, sources) is None);
    }
}

/// Until then the bot looks, and looks once more where it saw nothing; walks onto the block
/// beside the source that it picked, or for water onto the nearest source; takes the bucket in
/// hand and uses it on that source, aiming at the middle and at the bottom in turn.
pub proof fn law_filling_goes_on(
    phase: FillPhase,
    lava: bool,
    blocks: &Blocks,
    sources: Seq<Pos>,
    keys: Seq<u64>,
    seen: FillSeen,
)
    requires
        forall|i: int| 0 <= i < sources.len() ==> has_room(#[trigger] sources[i], 3),
        phase matches FillPhase::Used(_, n) ==> n <= 6,
    ensures
        ({
            let (next, action) = fill_bucket_next(phase, lava, blocks, sources, keys, seen);
            &&& phase == FillPhase::Start && seen.buckets >= 1 ==> action == FillAction::Look && next
                == FillPhase::Looked(false)
            &&& phase == FillPhase::Looked(false) && sources.len() == 0 ==> action == FillAction::LookAgain
                && next == FillPhase::Looked(true)
            &&& phase is Looked && sources.len() > 0 ==> match edge_pick(*blocks, sources) {
                Some((s, c)) => next == FillPhase::Walked(s) && action == FillAction::WalkTo(
                    (c.0, (c.1 + 1) as i32, c.2),
                ),
                None => !lava ==> {
                    let s = fluid_pick(*blocks, sources, keys);
                    next == FillPhase::Walked(s) && action == FillAction::WalkTo((s.0, (s.1 + 1) as i32, s.2))
                },
            }
            &&& phase matches FillPhase::Walked(s) ==> next == FillPhase::Used(s, 0) && action
                == FillAction::Select
            &&& phase matches FillPhase::Used(s, n) ==> {
                &&& n == 0 && seen.armed ==> action == FillAction::Use(s, true) && next == FillPhase::Used(s, 1)
                &&& 0 < n < 6 && seen.filled <= 0 ==> next == FillPhase::Used(s, (n + 1) as u32) && (action
                    == FillAction::Use(s, true) <==> n % 2 == 0) && (action == FillAction::Use(s, false) <==> n
                    % 2 == 1)
            }
        }),
{
}

} // verus!
