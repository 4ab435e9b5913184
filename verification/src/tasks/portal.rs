//! Nether portal by obsidian casting (no diamond pickaxe), and portal entry.
//!
//! Each obsidian block is cast in place: a fully enclosed cup of one block holds a
//! lava source, then water poured into the block directly above flows down and
//! turns it to obsidian. The cup contains the lava so that it never reaches the
//! bot. The 4x5 frame (10 obsidian, no corners) is cast bottom-up, the 2x3 interior
//! is dug out, and it is lit with flint and steel.

use crate::memory::Pos;
use crate::tasks::casting::{
    is_lava, is_lava_block, is_solid_cell, may_clear, may_clear_name, name_at, shown_name, solid_at,
    to_pos,
};
use crate::tasks::report::word_message;
use crate::text::{contains, number, occurs_in, push_number, same};
use crate::types::{failure, success, StepResult};
use crate::world::{has_room, Blocks};
use vstd::prelude::*;

verus! {

// ── cast one obsidian block ─────────────────────────────────────────────────

/// The walls of the cup at `pos`: east, west, the pillar in front, behind, below.
pub open spec fn cup_wall(pos: Pos, k: int) -> (int, int, int) {
    if k == 0 {
        (pos.0 + 1, pos.1 as int, pos.2 as int)
    } else if k == 1 {
        (pos.0 - 1, pos.1 as int, pos.2 as int)
    } else if k == 2 {
        (pos.0 as int, pos.1 as int, pos.2 + 1)
    } else if k == 3 {
        (pos.0 as int, pos.1 as int, pos.2 - 1)
    } else {
        (pos.0 as int, pos.1 - 1, pos.2 as int)
    }
}

/// A wall of the cup at `pos`.
pub fn wall_of_cup(pos: Pos, k: u32) -> (r: Pos)
    requires
        has_room(pos, 1),
    ensures
        (r.0 as int, r.1 as int, r.2 as int) == cup_wall(pos, k as int),
{
    if k == 0 {
        (pos.0 + 1, pos.1, pos.2)
    } else if k == 1 {
        (pos.0 - 1, pos.1, pos.2)
    } else if k == 2 {
        (pos.0, pos.1, pos.2 + 1)
    } else if k == 3 {
        (pos.0, pos.1, pos.2 - 1)
    } else {
        (pos.0, pos.1 - 1, pos.2)
    }
}

/// The walls of the water bowl above the cup at `pos`: east, west, behind.
pub open spec fn bowl_wall(pos: Pos, k: int) -> (int, int, int) {
    if k == 0 {
        (pos.0 + 1, pos.1 + 1, pos.2 as int)
    } else if k == 1 {
        (pos.0 - 1, pos.1 + 1, pos.2 as int)
    } else {
        (pos.0 as int, pos.1 + 1, pos.2 - 1)
    }
}

/// A wall of the water bowl above the cup at `pos`. The water is aimed at the last.
pub fn wall_of_bowl(pos: Pos, k: u32) -> (r: Pos)
    requires
        has_room(pos, 1),
    ensures
        (r.0 as int, r.1 as int, r.2 as int) == bowl_wall(pos, k as int),
{
    if k == 0 {
        (pos.0 + 1, pos.1 + 1, pos.2)
    } else if k == 1 {
        (pos.0 - 1, pos.1 + 1, pos.2)
    } else {
        (pos.0, pos.1 + 1, pos.2 - 1)
    }
}

/// Wall number `k` of the cup stands.
pub open spec fn wall_stands(blocks: Blocks, pos: Pos, k: int) -> bool {
    is_solid_cell(blocks, cup_wall(pos, k).0, cup_wall(pos, k).1, cup_wall(pos, k).2)
}

/// Every wall of the cup stands.
pub open spec fn cup_is_tight(blocks: Blocks, pos: Pos) -> bool {
    forall|k: int| 0 <= k < 5 ==> #[trigger] wall_stands(blocks, pos, k)
}

/// The first wall of the cup at or after number `from` that does not stand. The
/// pillar in front counts only if so told.
pub open spec fn first_gap(blocks: &Blocks, pos: Pos, from: u32, front: bool) -> Option<u32>
    decreases 5 - from,
{
    if from >= 5 {
        None
    } else if (from != 2 || front) && !wall_stands(*blocks, pos, from as int) {
        Some(from)
    } else {
        first_gap(blocks, pos, (from + 1) as u32, front)
    }
}

/// The first wall of the cup at or after number `from` that does not stand. The
/// pillar in front counts only if so told.
pub fn next_gap(blocks: &Blocks, pos: Pos, from: u32, front: bool) -> (r: Option<u32>)
    requires
        has_room(pos, 1),
    ensures
        r == first_gap(blocks, pos, from, front),
    decreases 5 - from,
{
    if from >= 5 {
        return None;
    }
    if from != 2 || front {
        let w = wall_of_cup(pos, from);
        if !solid_at(blocks, w.0, w.1, w.2) {
            return Some(from);
        }
    }
    next_gap(blocks, pos, from + 1, front)
}

/// There is no gap, counting the pillar in front, exactly if the cup is tight.
pub proof fn law_no_gap_means_tight(blocks: &Blocks, pos: Pos)
    ensures
        first_gap(blocks, pos, 0, true) is None <==> cup_is_tight(*blocks, pos),
{
    reveal_with_fuel(first_gap, 6);
    if first_gap(blocks, pos, 0, true) is None {
        assert(wall_stands(*blocks, pos, 0) && wall_stands(*blocks, pos, 1) && wall_stands(*blocks, pos, 2)
            && wall_stands(*blocks, pos, 3) && wall_stands(*blocks, pos, 4));
    }
}

#[derive(Debug, Clone, Copy, PartialEq, Eq, Structural)]
pub enum CastPhase {
    Start,
    /// Has walked back to the lava pool.
    AtPool,
    /// Has tried to fill a lava bucket.
    FilledLava,
    /// Has tried to fill a water bucket.
    FilledWater,
    /// Has come down to the base.
    Descended,
    /// Has gone to the spot in front of the cup, after so many failures.
    Approached(u32),
    /// Has stepped back after a failure.
    Staged(u32),
    /// Has pillared up to the level of the cup.
    Levelled,
    /// Has tried to build this wall of the cup.
    Walled(u32),
    /// Has built so many walls of the water bowl.
    Bowl(u32),
    Centred,
    /// Has pillared up to where it pours from.
    Raised,
    ClearedCup,
    /// Has tried to mend this wall of the cup.
    Mended(u32),
    /// Stands ready to pour.
    Gate,
    PouredLava,
    Splashed,
    /// Has poured water and waited so many times.
    Waiting(u32),
    Reclaimed,
    Over,
}

#[derive(Debug, Clone, Copy, PartialEq, Eq)]
pub struct Cast {
    /// Attempts that are left.
    pub left: u32,
    /// The lava pool, where it is known.
    pub pool: Option<Pos>,
    /// The level that the bot works from.
    pub base: i32,
    /// The cup was seen to hold obsidian.
    pub made: bool,
    pub phase: CastPhase,
}

#[derive(Debug, Clone, Copy, PartialEq, Eq, Structural)]
pub struct CastSeen {
    pub lava_buckets: i32,
    pub water_buckets: i32,
    /// The last fill, pillar or wall worked.
    pub ok: bool,
    /// The bot is near enough to the spot in front of the cup.
    pub near: bool,
    /// The bot is too far from that spot to go on.
    pub astray: bool,
    pub feet: i32,
}

#[derive(Debug, Clone, Copy, PartialEq, Eq)]
pub enum CastAction {
    /// Walk back to the pool, to this cell above it.
    WalkToPool(Pos),
    FillLava,
    FillWater,
    /// Stop sneaking and dig down to this level.
    Descend(i32),
    /// Go to this spot in front of the cup, at the base.
    Approach(Pos),
    /// Step back to this spot behind the working line.
    Stage(Pos),
    /// Pillar up until the feet are at this level.
    PillarTo(i32),
    /// Make this wall of the cup solid.
    BuildWall(Pos),
    /// Make this wall of the water bowl solid.
    BuildBowl(Pos),
    /// Walk to within so many hundredths of a block of the middle of the spot.
    Centre(u32),
    /// Clear these two cells, the cup and the one above it, then centre.
    ClearCup(Pos, Pos),
    PourLava,
    /// Make the wall solid that the water is aimed at.
    BuildSplash(Pos),
    /// Pour water against this wall, so that it lands right above the lava.
    PourWater(Pos),
    /// Wait five ticks.
    Wait,
    /// Scoop the water up again.
    Reclaim,
    /// Whether the cell holds obsidian, and whether to stop sneaking.
    Done(bool, bool),
}

pub open spec fn cast_start(pool: Option<Pos>, base: i32) -> Cast {
    Cast { left: 3, pool, base, made: false, phase: CastPhase::Start }
}

pub fn start_cast(pool: Option<Pos>, base: i32) -> (r: Cast)
    ensures
        r == cast_start(pool, base),
{
    Cast { left: 3, pool, base, made: false, phase: CastPhase::Start }
}

/// The cell holds obsidian.
pub open spec fn is_obsidian(blocks: Blocks, pos: Pos) -> bool {
    shown_name(blocks, pos.0 as int, pos.1 as int, pos.2 as int) == "obsidian"@
}

/// The spot in front of the cup, at the base.
pub open spec fn cast_spot(state: Cast, pos: Pos) -> Pos {
    (pos.0, state.base, (pos.2 + 1) as i32)
}

/// A clear spot behind the working line, at the base.
pub open spec fn staging_spot(state: Cast, pos: Pos) -> Pos {
    (pos.0, state.base, (pos.2 + 4) as i32)
}

/// The bot stands at the spot in front of the cup, at the base.
pub open spec fn is_in_place(state: Cast, seen: CastSeen) -> bool {
    seen.near && seen.feet <= state.base + 1
}

/// Tops up the water bucket, then comes down to the base.
pub open spec fn cast_fill_water_next(state: Cast, seen: CastSeen) -> (Cast, CastAction) {
    if seen.water_buckets < 1 {
        (Cast { phase: CastPhase::FilledWater, ..state }, CastAction::FillWater)
    } else {
        (Cast { phase: CastPhase::Descended, ..state }, CastAction::Descend(state.base))
    }
}

/// Tops up the water bucket, then comes down to the base.
fn cast_fill_water(state: Cast, seen: CastSeen) -> (r: (Cast, CastAction))
    ensures
        r == cast_fill_water_next(state, seen),
{
    if seen.water_buckets < 1 {
        (Cast { phase: CastPhase::FilledWater, ..state }, CastAction::FillWater)
    } else {
        (Cast { phase: CastPhase::Descended, ..state }, CastAction::Descend(state.base))
    }
}

/// Tops up the lava bucket, then the water bucket.
pub open spec fn cast_fill_lava_next(state: Cast, seen: CastSeen) -> (Cast, CastAction) {
    if seen.lava_buckets < 1 {
        (Cast { phase: CastPhase::FilledLava, ..state }, CastAction::FillLava)
    } else {
        cast_fill_water_next(state, seen)
    }
}

/// Tops up the lava bucket, then the water bucket.
fn cast_fill_lava(state: Cast, seen: CastSeen) -> (r: (Cast, CastAction))
    ensures
        r == cast_fill_lava_next(state, seen),
{
    if seen.lava_buckets < 1 {
        (Cast { phase: CastPhase::FilledLava, ..state }, CastAction::FillLava)
    } else {
        cast_fill_water(state, seen)
    }
}

/// Starts an attempt where one is left. Lava is fetched from the known pool.
pub open spec fn cast_attempt_next(state: Cast, seen: CastSeen) -> (Cast, CastAction) {
    if state.left == 0 {
        (Cast { phase: CastPhase::Over, ..state }, CastAction::Done(false, true))
    } else {
        let next = Cast { left: (state.left - 1) as u32, made: false, ..state };
        match state.pool {
            Some(p) if seen.lava_buckets < 1 => (
                Cast { phase: CastPhase::AtPool, ..next },
                CastAction::WalkToPool((p.0, (p.1 + 1) as i32, p.2)),
            ),
            _ => cast_fill_lava_next(next, seen),
        }
    }
}

/// Starts an attempt where one is left. Lava is fetched from the known pool.
fn cast_attempt(state: Cast, seen: CastSeen) -> (r: (Cast, CastAction))
    requires
        state.pool matches Some(p) ==> has_room(p, 1),
    ensures
        r == cast_attempt_next(state, seen),
{
    if state.left == 0 {
        (Cast { phase: CastPhase::Over, ..state }, CastAction::Done(false, true))
    } else {
        let next = Cast { left: (state.left - 1) as u32, made: false, ..state };
        match state.pool {
            Some(p) if seen.lava_buckets < 1 => (
                Cast { phase: CastPhase::AtPool, ..next },
                CastAction::WalkToPool((p.0, p.1 + 1, p.2)),
            ),
            _ => cast_fill_lava(next, seen),
        }
    }
}

/// Builds the walls of the cup from number `from` on, except the pillar in
/// front, then those of the water bowl.
pub open spec fn cast_walls_next(state: Cast, blocks: &Blocks, pos: Pos, from: u32) -> (Cast, CastAction) {
    match first_gap(blocks, pos, from, false) {
        Some(k) => (
            Cast { phase: CastPhase::Walled(k), ..state },
            CastAction::BuildWall(to_pos(cup_wall(pos, k as int))),
        ),
        None => (
            Cast { phase: CastPhase::Bowl(1), ..state },
            CastAction::BuildBowl(to_pos(bowl_wall(pos, 0))),
        ),
    }
}

/// Builds the walls of the cup from number `from` on, except the pillar
/// in front, then those of the water bowl.
fn cast_walls(state: Cast, blocks: &Blocks, pos: Pos, from: u32) -> (r: (Cast, CastAction))
    requires
        has_room(pos, 1),
    ensures
        r == cast_walls_next(state, blocks, pos, from),
{
    match next_gap(blocks, pos, from, false) {
        Some(k) => (
            Cast { phase: CastPhase::Walled(k), ..state },
            CastAction::BuildWall(wall_of_cup(pos, k)),
        ),
        None => (
            Cast { phase: CastPhase::Bowl(1), ..state },
            CastAction::BuildBowl(wall_of_bowl(pos, 0)),
        ),
    }
}

/// Mends the walls of the cup from number `from` on, then centres.
pub open spec fn cast_mend_next(state: Cast, blocks: &Blocks, pos: Pos, from: u32) -> (Cast, CastAction) {
    match first_gap(blocks, pos, from, true) {
        Some(k) => (
            Cast { phase: CastPhase::Mended(k), ..state },
            CastAction::BuildWall(to_pos(cup_wall(pos, k as int))),
        ),
        None => (Cast { phase: CastPhase::Gate, ..state }, CastAction::Centre(30)),
    }
}

/// Mends the walls of the cup from number `from` on, then centres.
fn cast_mend(state: Cast, blocks: &Blocks, pos: Pos, from: u32) -> (r: (Cast, CastAction))
    requires
        has_room(pos, 1),
    ensures
        r == cast_mend_next(state, blocks, pos, from),
{
    match next_gap(blocks, pos, from, true) {
        Some(k) => (
            Cast { phase: CastPhase::Mended(k), ..state },
            CastAction::BuildWall(wall_of_cup(pos, k)),
        ),
        None => (Cast { phase: CastPhase::Gate, ..state }, CastAction::Centre(30)),
    }
}

/// Goes on once the bot stands before the cup.
pub open spec fn cast_positioned_next(
    state: Cast,
    blocks: &Blocks,
    pos: Pos,
    seen: CastSeen,
) -> (Cast, CastAction) {
    if seen.astray {
        (Cast { phase: CastPhase::Over, ..state }, CastAction::Done(false, true))
    } else if seen.feet < pos.1 {
        (Cast { phase: CastPhase::Levelled, ..state }, CastAction::PillarTo(pos.1))
    } else {
        cast_walls_next(state, blocks, pos, 0)
    }
}

/// Goes on once the bot stands before the cup.
fn cast_positioned(state: Cast, blocks: &Blocks, pos: Pos, seen: CastSeen) -> (r: (Cast, CastAction))
    requires
        has_room(pos, 1),
    ensures
        r == cast_positioned_next(state, blocks, pos, seen),
{
    if seen.astray {
        (Cast { phase: CastPhase::Over, ..state }, CastAction::Done(false, true))
    } else if seen.feet < pos.1 {
        (Cast { phase: CastPhase::Levelled, ..state }, CastAction::PillarTo(pos.1))
    } else {
        cast_walls(state, blocks, pos, 0)
    }
}

pub open spec fn above_cup(pos: Pos) -> Pos {
    (pos.0, (pos.1 + 1) as i32, pos.2)
}

/// What `cast_obsidian_at` does next.
pub open spec fn cast_obsidian_at_next(
    state: Cast,
    blocks: &Blocks,
    pos: Pos,
    seen: CastSeen,
) -> (Cast, CastAction) {
    match state.phase {
        CastPhase::Start => {
            if is_obsidian(*blocks, pos) {
                (Cast { phase: CastPhase::Over, ..state }, CastAction::Done(true, false))
            } else {
                cast_attempt_next(state, seen)
            }
        },
        CastPhase::AtPool => cast_fill_lava_next(state, seen),
        CastPhase::FilledLava => {
            if seen.ok {
                cast_fill_water_next(state, seen)
            } else {
                (Cast { phase: CastPhase::Over, ..state }, CastAction::Done(false, false))
            }
        },
        CastPhase::FilledWater => {
            if seen.ok {
                (Cast { phase: CastPhase::Descended, ..state }, CastAction::Descend(state.base))
            } else {
                (Cast { phase: CastPhase::Over, ..state }, CastAction::Done(false, false))
            }
        },
        CastPhase::Descended => (
            Cast { phase: CastPhase::Approached(0), ..state },
            CastAction::Approach(cast_spot(state, pos)),
        ),
        CastPhase::Approached(t) => {
            if is_in_place(state, seen) {
                cast_positioned_next(state, blocks, pos, seen)
            } else {
                (
                    Cast { phase: CastPhase::Staged(t), ..state },
                    CastAction::Stage(staging_spot(state, pos)),
                )
            }
        },
        CastPhase::Staged(t) => {
            if t < 2 {
                (
                    Cast { phase: CastPhase::Approached((t + 1) as u32), ..state },
                    CastAction::Approach(cast_spot(state, pos)),
                )
            } else {
                cast_positioned_next(state, blocks, pos, seen)
            }
        },
        CastPhase::Levelled => {
            if seen.ok {
                cast_walls_next(state, blocks, pos, 0)
            } else {
                cast_attempt_next(state, seen)
            }
        },
        CastPhase::Walled(k) => {
            if seen.ok && k < 5 {
                cast_walls_next(state, blocks, pos, (k + 1) as u32)
            } else {
                cast_attempt_next(state, seen)
            }
        },
        CastPhase::Bowl(n) => {
            if n < 3 {
                (
                    Cast { phase: CastPhase::Bowl((n + 1) as u32), ..state },
                    CastAction::BuildBowl(to_pos(bowl_wall(pos, n as int))),
                )
            } else {
                (Cast { phase: CastPhase::Centred, ..state }, CastAction::Centre(25))
            }
        },
        CastPhase::Centred => {
            if seen.feet < pos.1 + 1 {
                (
                    Cast { phase: CastPhase::Raised, ..state },
                    CastAction::PillarTo((pos.1 + 1) as i32),
                )
            } else {
                (Cast { phase: CastPhase::ClearedCup, ..state }, CastAction::ClearCup(pos, above_cup(pos)))
            }
        },
        CastPhase::Raised => {
            if seen.ok {
                (Cast { phase: CastPhase::ClearedCup, ..state }, CastAction::ClearCup(pos, above_cup(pos)))
            } else {
                cast_attempt_next(state, seen)
            }
        },
        CastPhase::ClearedCup => cast_mend_next(state, blocks, pos, 0),
        CastPhase::Mended(k) => {
            if k < 5 {
                cast_mend_next(state, blocks, pos, (k + 1) as u32)
            } else {
                cast_attempt_next(state, seen)
            }
        },
        CastPhase::Gate => match first_gap(blocks, pos, 0, true) {
            Some(_) => cast_attempt_next(state, seen),
            None => (Cast { phase: CastPhase::PouredLava, ..state }, CastAction::PourLava),
        },
        CastPhase::PouredLava => (
            Cast { phase: CastPhase::Splashed, ..state },
            CastAction::BuildSplash(to_pos(bowl_wall(pos, 2))),
        ),
        CastPhase::Splashed => (
            Cast { phase: CastPhase::Waiting(0), ..state },
            CastAction::PourWater(to_pos(bowl_wall(pos, 2))),
        ),
        CastPhase::Waiting(n) => {
            if is_obsidian(*blocks, pos) || n >= 10 {
                (
                    Cast { made: is_obsidian(*blocks, pos), phase: CastPhase::Reclaimed, ..state },
                    CastAction::Reclaim,
                )
            } else {
                (Cast { phase: CastPhase::Waiting((n + 1) as u32), ..state }, CastAction::Wait)
            }
        },
        CastPhase::Reclaimed => {
            if state.made || is_obsidian(*blocks, pos) {
                (Cast { phase: CastPhase::Over, ..state }, CastAction::Done(true, true))
            } else {
                cast_attempt_next(state, seen)
            }
        },
        CastPhase::Over => (state, CastAction::Done(is_obsidian(*blocks, pos), false)),
    }
}

/// Casts one obsidian block at `pos`: enclosed cup and lava, sealed bowl and water
/// above, in up to three attempts.
pub fn cast_obsidian_at(state: Cast, blocks: &Blocks, pos: Pos, seen: CastSeen) -> (r: (Cast, CastAction))
    requires
        has_room(pos, 4),
        state.pool matches Some(p) ==> has_room(p, 1),
    ensures
        r == cast_obsidian_at_next(state, blocks, pos, seen),
{
    let obsidian: bool = same(name_at(blocks, pos.0, pos.1, pos.2), "obsidian");
    match state.phase {
        CastPhase::Start => {
            if obsidian {
                (Cast { phase: CastPhase::Over, ..state }, CastAction::Done(true, false))
            } else {
                cast_attempt(state, seen)
            }
        },
        CastPhase::AtPool => cast_fill_lava(state, seen),
        CastPhase::FilledLava => {
            if seen.ok {
                cast_fill_water(state, seen)
            } else {
                (Cast { phase: CastPhase::Over, ..state }, CastAction::Done(false, false))
            }
        },
        CastPhase::FilledWater => {
            if seen.ok {
                (Cast { phase: CastPhase::Descended, ..state }, CastAction::Descend(state.base))
            } else {
                (Cast { phase: CastPhase::Over, ..state }, CastAction::Done(false, false))
            }
        },
        CastPhase::Descended => (
            Cast { phase: CastPhase::Approached(0), ..state },
            CastAction::Approach((pos.0, state.base, pos.2 + 1)),
        ),
        CastPhase::Approached(t) => {
            if seen.near && seen.feet as i64 <= state.base as i64 + 1 {
                cast_positioned(state, blocks, pos, seen)
            } else {
                (
                    Cast { phase: CastPhase::Staged(t), ..state },
                    CastAction::Stage((pos.0, state.base, pos.2 + 4)),
                )
            }
        },
        CastPhase::Staged(t) => {
            if t < 2 {
                (
                    Cast { phase: CastPhase::Approached((t + 1) as u32), ..state },
                    CastAction::Approach((pos.0, state.base, pos.2 + 1)),
                )
            } else {
                cast_positioned(state, blocks, pos, seen)
            }
        },
        CastPhase::Levelled => {
            if seen.ok {
                cast_walls(state, blocks, pos, 0)
            } else {
                cast_attempt(state, seen)
            }
        },
        CastPhase::Walled(k) => {
            if seen.ok && k < 5 {
                cast_walls(state, blocks, pos, (k + 1) as u32)
            } else {
                cast_attempt(state, seen)
            }
        },
        CastPhase::Bowl(n) => {
            if n < 3 {
                (
                    Cast { phase: CastPhase::Bowl((n + 1) as u32), ..state },
                    CastAction::BuildBowl(wall_of_bowl(pos, n)),
                )
            } else {
                (Cast { phase: CastPhase::Centred, ..state }, CastAction::Centre(25))
            }
        },
        CastPhase::Centred => {
            if seen.feet < pos.1 + 1 {
                (
                    Cast { phase: CastPhase::Raised, ..state },
                    CastAction::PillarTo((pos.1 + 1) as i32),
                )
            } else {
                (Cast { phase: CastPhase::ClearedCup, ..state }, CastAction::ClearCup(pos, (pos.0, pos.1 + 1, pos.2)))
            }
        },
        CastPhase::Raised => {
            if seen.ok {
                (Cast { phase: CastPhase::ClearedCup, ..state }, CastAction::ClearCup(pos, (pos.0, pos.1 + 1, pos.2)))
            } else {
                cast_attempt(state, seen)
            }
        },
        CastPhase::ClearedCup => cast_mend(state, blocks, pos, 0),
        CastPhase::Mended(k) => {
            if k < 5 {
                cast_mend(state, blocks, pos, (k + 1) as u32)
            } else {
                cast_attempt(state, seen)
            }
        },
        CastPhase::Gate => match next_gap(blocks, pos, 0, true) {
            Some(_) => cast_attempt(state, seen),
            None => (Cast { phase: CastPhase::PouredLava, ..state }, CastAction::PourLava),
        },
        CastPhase::PouredLava => (
            Cast { phase: CastPhase::Splashed, ..state },
            CastAction::BuildSplash(wall_of_bowl(pos, 2)),
        ),
        CastPhase::Splashed => (
            Cast { phase: CastPhase::Waiting(0), ..state },
            CastAction::PourWater(wall_of_bowl(pos, 2)),
        ),
        CastPhase::Waiting(n) => {
            if obsidian || n >= 10 {
                (
                    Cast { made: obsidian, phase: CastPhase::Reclaimed, ..state },
                    CastAction::Reclaim,
                )
            } else {
                (Cast { phase: CastPhase::Waiting((n + 1) as u32), ..state }, CastAction::Wait)
            }
        },
        CastPhase::Reclaimed => {
            if state.made || obsidian {
                (Cast { phase: CastPhase::Over, ..state }, CastAction::Done(true, true))
            } else {
                cast_attempt(state, seen)
            }
        },
        CastPhase::Over => (state, CastAction::Done(obsidian, false)),
    }
}

/// Lava is never poured into a leaky cup: all five walls stand.
pub proof fn law_lava_needs_a_tight_cup(state: Cast, blocks: &Blocks, pos: Pos, seen: CastSeen)
    requires
        cast_obsidian_at_next(state, blocks, pos, seen).1 == CastAction::PourLava,
    ensures
        cup_is_tight(*blocks, pos),
        state.phase == CastPhase::Gate,
{
    law_no_gap_means_tight(blocks, pos);
}

/// Water is poured only after lava in the same attempt.
pub proof fn law_water_follows_lava(state: Cast, blocks: &Blocks, pos: Pos, seen: CastSeen)
    ensures
        cast_obsidian_at_next(state, blocks, pos, seen).1 is PourWater ==> state.phase
            == CastPhase::Splashed,
        cast_obsidian_at_next(state, blocks, pos, seen).0.phase == CastPhase::Splashed ==> state.phase
            == CastPhase::PouredLava,
        cast_obsidian_at_next(state, blocks, pos, seen).0.phase == CastPhase::PouredLava
            ==> cast_obsidian_at_next(state, blocks, pos, seen).1 == CastAction::PourLava,
{
}

/// The counters of a cast stay within their bounds, and `made` says what was seen.
pub open spec fn cast_wf(state: Cast) -> bool {
    &&& state.left <= 3
    &&& match state.phase {
        CastPhase::Approached(t) => t <= 2,
        CastPhase::Staged(t) => t <= 2,
        CastPhase::Walled(k) => k < 5,
        CastPhase::Mended(k) => k < 5,
        CastPhase::Bowl(n) => 1 <= n <= 3,
        CastPhase::Waiting(n) => n <= 10,
        CastPhase::Start => !state.made,
        _ => true,
    }
    &&& state.made ==> state.phase == CastPhase::Reclaimed || state.phase == CastPhase::Over
}

/// How many steps of an attempt are left at most.
pub open spec fn cast_phase_budget(phase: CastPhase) -> int {
    match phase {
        CastPhase::Start => 60,
        CastPhase::AtPool => 59,
        CastPhase::FilledLava => 58,
        CastPhase::FilledWater => 57,
        CastPhase::Descended => 56,
        CastPhase::Approached(t) => 55 - 2 * t,
        CastPhase::Staged(t) => 54 - 2 * t,
        CastPhase::Levelled => 49,
        CastPhase::Walled(k) => 48 - k,
        CastPhase::Bowl(n) => 43 - n,
        CastPhase::Centred => 39,
        CastPhase::Raised => 38,
        CastPhase::ClearedCup => 37,
        CastPhase::Mended(k) => 36 - k,
        CastPhase::Gate => 31,
        CastPhase::PouredLava => 30,
        CastPhase::Splashed => 29,
        CastPhase::Waiting(n) => 28 - n,
        CastPhase::Reclaimed => 17,
        CastPhase::Over => 0,
    }
}

pub open spec fn cast_budget(state: Cast) -> int {
    60 * state.left + cast_phase_budget(state.phase)
}

proof fn lemma_gap(blocks: &Blocks, pos: Pos, from: u32, front: bool)
    ensures
        first_gap(blocks, pos, from, front) matches Some(k) ==> from <= k < 5,
    decreases 5 - from,
{
    if from < 5 {
        lemma_gap(blocks, pos, (from + 1) as u32, front);
    }
}

/// A cast ends after at most three attempts, and reports obsidian only if it has seen
/// some in the cup. It keeps to its pool and to its base.
pub proof fn law_casting_ends(state: Cast, blocks: &Blocks, pos: Pos, seen: CastSeen)
    requires
        cast_wf(state),
        state.phase != CastPhase::Over,
    ensures
        cast_wf(cast_obsidian_at_next(state, blocks, pos, seen).0),
        0 <= cast_budget(cast_obsidian_at_next(state, blocks, pos, seen).0) < cast_budget(state),
        cast_obsidian_at_next(state, blocks, pos, seen).0.phase == CastPhase::Over
            <==> cast_obsidian_at_next(state, blocks, pos, seen).1 is Done,
        cast_obsidian_at_next(state, blocks, pos, seen).1 matches CastAction::Done(ok, _) ==> (ok
            ==> is_obsidian(*blocks, pos) || state.made),
        cast_obsidian_at_next(state, blocks, pos, seen).0.made ==> is_obsidian(*blocks, pos) || state.made,
        cast_obsidian_at_next(state, blocks, pos, seen).0.pool == state.pool,
        cast_obsidian_at_next(state, blocks, pos, seen).0.base == state.base,
{
    lemma_gap(blocks, pos, 0, false);
    lemma_gap(blocks, pos, 0, true);
    match state.phase {
        CastPhase::Walled(k) => lemma_gap(blocks, pos, (k + 1) as u32, false),
        CastPhase::Mended(k) => lemma_gap(blocks, pos, (k + 1) as u32, true),
        _ => {},
    }
}

/// The state after a run of observations.
pub open spec fn cast_obsidian_at_run(pos: Pos, state: Cast, seen: Seq<(&Blocks, CastSeen)>) -> Cast
    decreases seen.len(),
{
    if seen.len() == 0 {
        state
    } else {
        let before = cast_obsidian_at_run(pos, state, seen.drop_last());
        cast_obsidian_at_next(before, seen.last().0, pos, seen.last().1).0
    }
}

proof fn lemma_cast_obsidian_at_run(pos: Pos, state: Cast, seen: Seq<(&Blocks, CastSeen)>)
    requires
        cast_wf(state),
    ensures
        cast_wf(cast_obsidian_at_run(pos, state, seen)),
        cast_obsidian_at_run(pos, state, seen).phase == CastPhase::Over
            || cast_budget(cast_obsidian_at_run(pos, state, seen)) + seen.len() <= cast_budget(state),
    decreases seen.len(),
{
    if seen.len() > 0 {
        lemma_cast_obsidian_at_run(pos, state, seen.drop_last());
        let before = cast_obsidian_at_run(pos, state, seen.drop_last());
        if !(before.phase == CastPhase::Over) {
            law_casting_ends(before, seen.last().0, pos, seen.last().1);
        }
    }
}

/// Whatever the bot sees, a cast is over after 240 steps.
pub proof fn law_a_cast_takes_a_bounded_time(
    pos: Pos,
    pool: Option<Pos>,
    base: i32,
    seen: Seq<(&Blocks, CastSeen)>,
)
    requires
        seen.len() >= 240,
    ensures
        cast_obsidian_at_run(pos, cast_start(pool, base), seen).phase == CastPhase::Over,
{
    lemma_cast_obsidian_at_run(pos, cast_start(pool, base), seen);
}

// ── scooping the water up again ─────────────────────────────────────────────

/// Cell number `n` of those in which the poured water is looked for: one level
/// above the cup, then two, then its own, each 5 by 5.
pub open spec fn splash_cell(pos: Pos, n: int) -> (int, int, int) {
    let level = if n / 25 == 0 {
        1
    } else if n / 25 == 1 {
        2
    } else {
        0int
    };
    (pos.0 + n / 5 % 5 - 2, pos.1 + level, pos.2 + n % 5 - 2)
}

pub open spec fn holds_water(blocks: Blocks, c: (int, int, int)) -> bool {
    occurs_in("water"@, shown_name(blocks, c.0, c.1, c.2))
}

/// The first `n` cells around the cup that hold water, in the order of the search.
pub open spec fn waters_among(blocks: Blocks, pos: Pos, n: int) -> Seq<Pos>
    decreases n,
{
    if n <= 0 {
        Seq::empty()
    } else {
        let rest = waters_among(blocks, pos, n - 1);
        let c = splash_cell(pos, n - 1);
        if holds_water(blocks, c) {
            rest.push((c.0 as i32, c.1 as i32, c.2 as i32))
        } else {
            rest
        }
    }
}

/// Every water block near the cup. Only the source fills a bucket (flowing water
/// cannot be scooped), so each of them is tried.
pub fn waters_near(blocks: &Blocks, pos: Pos) -> (r: Vec<Pos>)
    requires
        has_room(pos, 2),
    ensures
        r@ == waters_among(*blocks, pos, 75),
{
    let mut waters: Vec<Pos> = Vec::new();
    let mut n: i32 = 0;
    while n < 75
        invariant
            0 <= n <= 75,
            has_room(pos, 2),
            waters@ == waters_among(*blocks, pos, n as int),
        decreases 75 - n,
    {
        let layer: i32 = n / 25;
        let level: i32 = if layer == 0 {
            1
        } else if layer == 1 {
            2
        } else {
            0
        };
        let dx: i32 = n / 5 % 5 - 2;
        let dz: i32 = n % 5 - 2;
        let w: Pos = (pos.0 + dx, pos.1 + level, pos.2 + dz);
        assert(splash_cell(pos, n as int) == (w.0 as int, w.1 as int, w.2 as int));
        if contains(name_at(blocks, w.0, w.1, w.2), "water") {
            waters.push(w);
        }
        n += 1;
    }
    waters
}

#[derive(Debug, Clone, Copy, PartialEq, Eq, Structural)]
pub enum ReclaimPhase {
    Start,
    /// Has tried the water blocks before this one, with so many rounds left after this.
    Trying(u32, usize),
    Over,
}

#[derive(Debug, Clone, Copy, PartialEq, Eq)]
pub enum ReclaimAction {
    /// List the water blocks around the cup.
    List,
    /// Use the bucket on this water block.
    Scoop(Pos),
    Stop,
}

/// What `reclaim_water` does next.
pub open spec fn reclaim_water_next(phase: ReclaimPhase, water_buckets: i32, waters: Seq<Pos>) -> (
    ReclaimPhase,
    ReclaimAction,
) {
    if water_buckets >= 1 {
        (ReclaimPhase::Over, ReclaimAction::Stop)
    } else {
        match phase {
            ReclaimPhase::Start => (ReclaimPhase::Trying(2, 0), ReclaimAction::List),
            ReclaimPhase::Trying(left, i) => {
                if i < waters.len() {
                    (
                        ReclaimPhase::Trying(left, (i + 1) as usize),
                        ReclaimAction::Scoop(waters[i as int]),
                    )
                } else if waters.len() == 0 || left == 0 {
                    (ReclaimPhase::Over, ReclaimAction::Stop)
                } else {
                    (ReclaimPhase::Trying((left - 1) as u32, 0), ReclaimAction::List)
                }
            },
            ReclaimPhase::Over => (phase, ReclaimAction::Stop),
        }
    }
}

/// Reclaims the water so that the one bucket is reusable for the next cast: three
/// rounds over the water blocks around the cup, until a bucket is full. `waters` are
/// those that were listed in this round.
pub fn reclaim_water(phase: ReclaimPhase, water_buckets: i32, waters: &Vec<Pos>) -> (r: (
    ReclaimPhase,
    ReclaimAction,
))
    ensures
        r == reclaim_water_next(phase, water_buckets, waters@),
{
    if water_buckets >= 1 {
        (ReclaimPhase::Over, ReclaimAction::Stop)
    } else {
        match phase {
            ReclaimPhase::Start => (ReclaimPhase::Trying(2, 0), ReclaimAction::List),
            ReclaimPhase::Trying(left, i) => {
                if i < waters.len() {
                    (ReclaimPhase::Trying(left, i + 1), ReclaimAction::Scoop(waters[i]))
                } else if waters.len() == 0 || left == 0 {
                    (ReclaimPhase::Over, ReclaimAction::Stop)
                } else {
                    (ReclaimPhase::Trying((left - 1) as u32, 0), ReclaimAction::List)
                }
            },
            ReclaimPhase::Over => (phase, ReclaimAction::Stop),
        }
    }
}

/// A full bucket ends the work at once; otherwise each water block of a list is tried
/// in its turn, in three rounds at most.
pub proof fn law_reclaiming_ends(phase: ReclaimPhase, water_buckets: i32, waters: Seq<Pos>)
    requires
        waters.len() <= usize::MAX,
    ensures
        water_buckets >= 1 ==> reclaim_water_next(phase, water_buckets, waters).1 == ReclaimAction::Stop,
        ({
            let next = reclaim_water_next(phase, water_buckets, waters).0;
            match phase {
                ReclaimPhase::Start => next == ReclaimPhase::Over || next == ReclaimPhase::Trying(2, 0),
                ReclaimPhase::Trying(left, i) => {
                    ||| next == ReclaimPhase::Over
                    ||| i < waters.len() && next == ReclaimPhase::Trying(left, (i + 1) as usize)
                    ||| left > 0 && next == ReclaimPhase::Trying((left - 1) as u32, 0)
                },
                ReclaimPhase::Over => next == ReclaimPhase::Over,
            }
        }),
{
}

// ── frame scaffolding ───────────────────────────────────────────────────────

#[derive(Debug, Clone, Copy, PartialEq, Eq, Structural)]
pub enum WallPhase {
    Start,
    /// Stands at the column, about to build at this level.
    Level(i32, i32),
    /// Has tried to pillar up to the level.
    Raised(i32, i32),
    Over,
}

#[derive(Debug, Clone, Copy, PartialEq, Eq, Structural)]
pub struct WallSeen {
    pub feet: i32,
    /// The last pillar worked.
    pub ok: bool,
}

#[derive(Debug, Clone, Copy, PartialEq, Eq)]
pub enum WallAction {
    /// Come down and go to this place, from which the column is built.
    GoTo(Pos),
    /// Pillar up until the feet are at this level.
    PillarTo(i32),
    /// Place a block here.
    Place(Pos),
    /// Come down.
    Finish,
}

/// A piece of scaffolding: its columns and levels, both ends included, the line that its
/// blocks stand on, and the line that it is built from. All are counted from the anchor
/// of the frame.
#[derive(Debug, Clone, Copy, PartialEq, Eq, Structural)]
pub struct Panel {
    pub first: i32,
    pub last: i32,
    pub low: i32,
    pub high: i32,
    pub z: i32,
    pub from: i32,
}

/// Solid backing wall, 4 wide and 5 tall, so that every cup's far wall is there.
pub open spec fn backing_panel() -> Panel {
    Panel { first: 0, last: 3, low: 0, high: 4, z: -1i32, from: -2i32 }
}

/// The 2x3 interior, filled for as long as the casting takes.
pub open spec fn inner_panel() -> Panel {
    Panel { first: 1, last: 2, low: 1, high: 3, z: 0, from: 1 }
}

/// The cell of a column and level, on a line.
pub open spec fn panel_cell(anchor: Pos, x: i32, y: i32, line: i32) -> Pos {
    ((anchor.0 + x) as i32, (anchor.1 + y) as i32, (anchor.2 + line) as i32)
}

/// Goes to a column, or finishes behind the last.
pub open spec fn panel_column_next(panel: Panel, anchor: Pos, x: i32) -> (WallPhase, WallAction) {
    if x > panel.last {
        (WallPhase::Over, WallAction::Finish)
    } else {
        (WallPhase::Level(x, panel.low), WallAction::GoTo(panel_cell(anchor, x, 0, panel.from)))
    }
}

/// Goes to a column, or finishes behind the last.
fn panel_column(panel: Panel, anchor: Pos, x: i32) -> (r: (WallPhase, WallAction))
    requires
        panel_fits(panel, anchor),
        0 <= x <= 9,
    ensures
        r == panel_column_next(panel, anchor, x),
{
    if x > panel.last {
        (WallPhase::Over, WallAction::Finish)
    } else {
        (WallPhase::Level(x, panel.low), WallAction::GoTo((anchor.0 + x, anchor.1, anchor.2 + panel.from)))
    }
}

/// What `build_panel` does next.
pub open spec fn build_panel_next(
    panel: Panel,
    anchor: Pos,
    phase: WallPhase,
    seen: WallSeen,
) -> (WallPhase, WallAction) {
    match phase {
        WallPhase::Start => panel_column_next(panel, anchor, panel.first),
        WallPhase::Level(x, y) => {
            if y > panel.high {
                panel_column_next(panel, anchor, (x + 1) as i32)
            } else if seen.feet < anchor.1 + y {
                (WallPhase::Raised(x, y), WallAction::PillarTo((anchor.1 + y) as i32))
            } else {
                (WallPhase::Level(x, (y + 1) as i32), WallAction::Place(panel_cell(anchor, x, y, panel.z)))
            }
        },
        WallPhase::Raised(x, y) => {
            if seen.ok {
                (WallPhase::Level(x, (y + 1) as i32), WallAction::Place(panel_cell(anchor, x, y, panel.z)))
            } else {
                panel_column_next(panel, anchor, (x + 1) as i32)
            }
        },
        WallPhase::Over => (phase, WallAction::Finish),
    }
}

/// Builds a panel column by column, each from the bottom up. A column is left where
/// the bot cannot get up to the next level.
pub fn build_panel(panel: Panel, anchor: Pos, phase: WallPhase, seen: WallSeen) -> (r: (
    WallPhase,
    WallAction,
))
    requires
        panel_wf(panel, anchor, phase),
    ensures
        r == build_panel_next(panel, anchor, phase, seen),
{
    match phase {
        WallPhase::Start => panel_column(panel, anchor, panel.first),
        WallPhase::Level(x, y) => {
            if y > panel.high {
                panel_column(panel, anchor, x + 1)
            } else if seen.feet < anchor.1 + y {
                (WallPhase::Raised(x, y), WallAction::PillarTo(anchor.1 + y))
            } else {
                (WallPhase::Level(x, y + 1), WallAction::Place((anchor.0 + x, anchor.1 + y, anchor.2 + panel.z)))
            }
        },
        WallPhase::Raised(x, y) => {
            if seen.ok {
                (WallPhase::Level(x, y + 1), WallAction::Place((anchor.0 + x, anchor.1 + y, anchor.2 + panel.z)))
            } else {
                panel_column(panel, anchor, x + 1)
            }
        },
        WallPhase::Over => (phase, WallAction::Finish),
    }
}

/// The panel fits the coordinates.
pub open spec fn panel_fits(panel: Panel, anchor: Pos) -> bool {
    &&& 0 <= panel.first <= panel.last <= 8
    &&& 0 <= panel.low <= panel.high <= 8
    &&& -2 <= panel.z <= 2
    &&& -2 <= panel.from <= 2
    &&& has_room(anchor, 16)
}

/// The panel fits the coordinates and the phase fits the panel.
pub open spec fn panel_wf(panel: Panel, anchor: Pos, phase: WallPhase) -> bool {
    &&& panel_fits(panel, anchor)
    &&& match phase {
        WallPhase::Level(x, y) => panel.first <= x <= panel.last && panel.low <= y <= panel.high + 1,
        WallPhase::Raised(x, y) => panel.first <= x <= panel.last && panel.low <= y <= panel.high,
        _ => true,
    }
}

/// How many steps of `build_panel` are left at most.
pub open spec fn panel_budget(panel: Panel, phase: WallPhase) -> int {
    match phase {
        WallPhase::Start => 32 * (panel.last - panel.first) + 32,
        WallPhase::Level(x, y) => 32 * (panel.last - x) + 2 * (panel.high + 1 - y) + 2,
        WallPhase::Raised(x, y) => 32 * (panel.last - x) + 2 * (panel.high + 1 - y) + 1,
        WallPhase::Over => 0,
    }
}

/// Blocks are placed within the panel only, and the work ends.
pub proof fn law_panels_end(panel: Panel, anchor: Pos, phase: WallPhase, seen: WallSeen, p: Pos)
    requires
        panel_wf(panel, anchor, phase),
        phase != WallPhase::Over,
    ensures
        ({
            let (next, action) = build_panel_next(panel, anchor, phase, seen);
            &&& panel_wf(panel, anchor, next)
            &&& 0 <= panel_budget(panel, next) < panel_budget(panel, phase)
            &&& action == WallAction::Place(p) ==> {
                &&& panel.first <= p.0 - anchor.0 <= panel.last
                &&& panel.low <= p.1 - anchor.1 <= panel.high
                &&& p.2 - anchor.2 == panel.z
            }
        }),
{
}

/// What `build_backing` does next.
pub open spec fn build_backing_next(anchor: Pos, phase: WallPhase, seen: WallSeen) -> (WallPhase, WallAction) {
    build_panel_next(backing_panel(), anchor, phase, seen)
}

/// Builds the backing wall, 4 wide and 5 tall, from directly behind each column.
pub fn build_backing(anchor: Pos, phase: WallPhase, seen: WallSeen) -> (r: (WallPhase, WallAction))
    requires
        panel_wf(backing_panel(), anchor, phase),
    ensures
        r == build_backing_next(anchor, phase, seen),
{
    build_panel(Panel { first: 0, last: 3, low: 0, high: 4, z: -1, from: -2 }, anchor, phase, seen)
}

/// What `build_inner_fill` does next.
pub open spec fn build_inner_fill_next(
    anchor: Pos,
    phase: WallPhase,
    seen: WallSeen,
) -> (WallPhase, WallAction) {
    build_panel_next(inner_panel(), anchor, phase, seen)
}

/// Fills the 2x3 interior so that each side column's inner cup wall and the top row's
/// support exist. It is dug out later.
pub fn build_inner_fill(anchor: Pos, phase: WallPhase, seen: WallSeen) -> (r: (WallPhase, WallAction))
    requires
        panel_wf(inner_panel(), anchor, phase),
    ensures
        r == build_inner_fill_next(anchor, phase, seen),
{
    build_panel(Panel { first: 1, last: 2, low: 1, high: 3, z: 0, from: 1 }, anchor, phase, seen)
}

// ── preparing the site ──────────────────────────────────────────────────────

pub open spec fn lava_cell(blocks: Blocks, x: int, y: int, z: int) -> bool {
    is_lava_block(shown_name(blocks, x, y, z))
}

/// The cell is lava or touches lava.
pub open spec fn touches_lava(blocks: Blocks, c: Pos) -> bool {
    ||| lava_cell(blocks, c.0 as int, c.1 as int, c.2 as int)
    ||| lava_cell(blocks, c.0 + 1, c.1 as int, c.2 as int)
    ||| lava_cell(blocks, c.0 - 1, c.1 as int, c.2 as int)
    ||| lava_cell(blocks, c.0 as int, c.1 + 1, c.2 as int)
    ||| lava_cell(blocks, c.0 as int, c.1 - 1, c.2 as int)
    ||| lava_cell(blocks, c.0 as int, c.1 as int, c.2 + 1)
    ||| lava_cell(blocks, c.0 as int, c.1 as int, c.2 - 1)
}

/// The cell is lava or touches lava.
pub fn lava_touching(blocks: &Blocks, c: Pos) -> (r: bool)
    requires
        has_room(c, 1),
    ensures
        r == touches_lava(*blocks, c),
{
    let (x, y, z) = c;
    is_lava(name_at(blocks, x, y, z)) || is_lava(name_at(blocks, x + 1, y, z)) || is_lava(
        name_at(blocks, x - 1, y, z),
    ) || is_lava(name_at(blocks, x, y + 1, z)) || is_lava(name_at(blocks, x, y - 1, z)) || is_lava(
        name_at(blocks, x, y, z + 1),
    ) || is_lava(name_at(blocks, x, y, z - 1))
}

/// How many cells the casting chamber has: it is 6 wide, 6 high and 5 deep.
pub const CHAMBER: u32 = 180;

/// How many cells its floor has.
pub const FLOOR: u32 = 24;

/// Cell number `n` of the chamber: the frame box and the working line in front,
/// level by level.
pub open spec fn chamber_cell(anchor: Pos, n: u32) -> Pos {
    (
        (anchor.0 + (n / 5) % 6 - 1) as i32,
        (anchor.1 + n / 30) as i32,
        (anchor.2 + n % 5 - 2) as i32,
    )
}

proof fn lemma_chamber_number(n: int, x: int, y: int, z: int)
    requires
        0 <= x < 6,
        0 <= y < 6,
        0 <= z < 5,
    ensures
        n == 30 * y + 5 * x + z ==> n / 30 == y && (n / 5) % 6 == x && n % 5 == z,
        0 <= n && n / 30 == y && (n / 5) % 6 == x && n % 5 == z ==> n == 30 * y + 5 * x + z,
{
    let q = n / 5;
    assert(n == 5 * q + n % 5);
    assert(q == 6 * (q / 6) + q % 6);
    if n == 30 * y + 5 * x + z {
        assert(q == 6 * y + x);
    } else if 0 <= n && n / 30 == y && q % 6 == x && n % 5 == z {
        assert(q / 6 == y);
    }
}

/// The cells of the chamber make up a box of 6 by 6 by 5 from the frame box to the
/// working line, each of them once.
pub proof fn law_chamber_is_a_box(anchor: Pos, c: Pos, m: u32, n: u32)
    requires
        has_room(anchor, 7),
        m < CHAMBER,
        n < CHAMBER,
    ensures
        chamber_cell(anchor, m) == chamber_cell(anchor, n) ==> m == n,
        (exists|k: u32| k < CHAMBER && #[trigger] chamber_cell(anchor, k) == c) <==> (-1 <= c.0 - anchor.0
            <= 4 && 0 <= c.1 - anchor.1 <= 5 && -2 <= c.2 - anchor.2 <= 2),
{
    let (x, y, z) = ((m / 5) as int % 6, m as int / 30, m as int % 5);
    lemma_chamber_number(m as int, x, y, z);
    lemma_chamber_number(n as int, x, y, z);
    let (dx, dy, dz) = (c.0 - anchor.0, c.1 - anchor.1, c.2 - anchor.2);
    if -1 <= dx <= 4 && 0 <= dy <= 5 && -2 <= dz <= 2 {
        let k = 30 * dy + 5 * (dx + 1) + (dz + 2);
        lemma_chamber_number(k, dx + 1, dy, dz + 2);
        assert(chamber_cell(anchor, k as u32) == c);
    }
}

/// Cell number `n` of the chamber.
pub fn cell_of_chamber(anchor: Pos, n: u32) -> (r: Pos)
    requires
        has_room(anchor, 7),
        n < CHAMBER,
    ensures
        r == chamber_cell(anchor, n),
{
    let x: i32 = (n / 5 % 6) as i32;
    let y: i32 = (n / 30) as i32;
    let z: i32 = (n % 5) as i32;
    (anchor.0 + x - 1, anchor.1 + y, anchor.2 + z - 2)
}

/// Cell number `n` of the floor under the frame and the working line.
pub open spec fn floor_cell(anchor: Pos, n: u32) -> Pos {
    ((anchor.0 + n / 4 - 1) as i32, (anchor.1 - 1) as i32, (anchor.2 + n % 4 - 1) as i32)
}

/// Cell number `n` of the floor.
pub fn cell_of_floor(anchor: Pos, n: u32) -> (r: Pos)
    requires
        has_room(anchor, 7),
        n < FLOOR,
    ensures
        r == floor_cell(anchor, n),
{
    let x: i32 = (n / 4) as i32;
    let z: i32 = (n % 4) as i32;
    (anchor.0 + x - 1, anchor.1 - 1, anchor.2 + z - 1)
}

/// The block is in the way and safe to dig: solid, not obsidian, and neither lava
/// nor touching lava.
pub open spec fn wants_clearing(blocks: Blocks, c: Pos) -> bool {
    may_clear_name(shown_name(blocks, c.0 as int, c.1 as int, c.2 as int)) && !touches_lava(blocks, c)
}

/// The cell needs a block to stand on and is safe to fill.
pub open spec fn wants_floor(blocks: Blocks, c: Pos) -> bool {
    !is_solid_cell(blocks, c.0 as int, c.1 as int, c.2 as int) && !touches_lava(blocks, c)
}

/// The first cell of the chamber from number `from` on that wants clearing.
pub open spec fn first_to_clear(blocks: &Blocks, anchor: Pos, from: u32) -> Option<u32>
    decreases CHAMBER - from,
{
    if from >= CHAMBER {
        None
    } else if wants_clearing(*blocks, chamber_cell(anchor, from)) {
        Some(from)
    } else {
        first_to_clear(blocks, anchor, (from + 1) as u32)
    }
}

/// The first cell of the chamber from number `from` on that wants clearing.
pub fn next_to_clear(blocks: &Blocks, anchor: Pos, from: u32) -> (r: Option<u32>)
    requires
        has_room(anchor, 7),
    ensures
        r == first_to_clear(blocks, anchor, from),
        r matches Some(n) ==> n < CHAMBER,
{
    let mut n: u32 = from;
    while n < CHAMBER
        invariant
            has_room(anchor, 7),
            first_to_clear(blocks, anchor, n) == first_to_clear(blocks, anchor, from),
        decreases CHAMBER - n,
    {
        let c = cell_of_chamber(anchor, n);
        if may_clear(name_at(blocks, c.0, c.1, c.2)) && !lava_touching(blocks, c) {
            return Some(n);
        }
        n += 1;
    }
    None
}

/// The first cell of the floor from number `from` on that wants a block.
pub open spec fn first_to_floor(blocks: &Blocks, anchor: Pos, from: u32) -> Option<u32>
    decreases FLOOR - from,
{
    if from >= FLOOR {
        None
    } else if wants_floor(*blocks, floor_cell(anchor, from)) {
        Some(from)
    } else {
        first_to_floor(blocks, anchor, (from + 1) as u32)
    }
}

/// The first cell of the floor from number `from` on that wants a block.
pub fn next_to_floor(blocks: &Blocks, anchor: Pos, from: u32) -> (r: Option<u32>)
    requires
        has_room(anchor, 7),
    ensures
        r == first_to_floor(blocks, anchor, from),
        r matches Some(n) ==> n < FLOOR,
{
    let mut n: u32 = from;
    while n < FLOOR
        invariant
            has_room(anchor, 7),
            first_to_floor(blocks, anchor, n) == first_to_floor(blocks, anchor, from),
        decreases FLOOR - n,
    {
        let c = cell_of_floor(anchor, n);
        if !solid_at(blocks, c.0, c.1, c.2) && !lava_touching(blocks, c) {
            return Some(n);
        }
        n += 1;
    }
    None
}

proof fn lemma_next_to_clear(blocks: &Blocks, anchor: Pos, from: u32)
    ensures
        first_to_clear(blocks, anchor, from) matches Some(n) ==> from <= n < CHAMBER
            && wants_clearing(*blocks, chamber_cell(anchor, n)),
    decreases CHAMBER - from,
{
    if from < CHAMBER {
        lemma_next_to_clear(blocks, anchor, (from + 1) as u32);
    }
}

proof fn lemma_next_to_floor(blocks: &Blocks, anchor: Pos, from: u32)
    ensures
        first_to_floor(blocks, anchor, from) matches Some(n) ==> from <= n < FLOOR && wants_floor(
            *blocks,
            floor_cell(anchor, n),
        ),
    decreases FLOOR - from,
{
    if from < FLOOR {
        lemma_next_to_floor(blocks, anchor, (from + 1) as u32);
    }
}

#[derive(Debug, Clone, Copy, PartialEq, Eq, Structural)]
pub enum SitePhase {
    Start,
    /// Has looked for lava, with so many more looks left.
    Scanned(u32),
    /// Has gone to where the frame is anchored.
    Standing,
    /// Has cleared the cells of the chamber before this one.
    Clearing(u32),
    /// Has laid the cells of the floor before this one.
    Flooring(u32),
    /// Has topped up the lava bucket.
    Filled,
    Returned,
    Over,
}

#[derive(Debug, Clone, Copy, PartialEq, Eq)]
pub struct Site {
    /// The lava pool, once it is found.
    pub lava: Pos,
    /// Where the frame is anchored.
    pub anchor: Pos,
    pub phase: SitePhase,
}

#[derive(Debug, Clone, Copy, PartialEq, Eq)]
pub struct SiteSeen {
    /// The nearest lava.
    pub lava: Option<Pos>,
    /// The time for the preparations is up.
    pub late: bool,
    pub feet: i32,
    pub lava_buckets: i32,
    pub buckets: i32,
}

#[derive(Debug, Clone, Copy, PartialEq, Eq)]
pub enum SiteAction {
    /// Let block updates settle, then look for lava.
    Look,
    /// Look for lava, after digging down toward cave depth if so told.
    LookDeeper(bool),
    /// Note the pool and go to this spot.
    GoTo(Pos),
    Dig(Pos),
    /// Make the cell of the floor solid.
    Lay(Pos),
    FillLava,
    /// Go back to the anchor.
    Return(Pos),
    /// The pool, if a lava bucket is ready.
    Done(Option<Pos>),
}

pub open spec fn site_start() -> Site {
    Site { lava: (0, 0, 0), anchor: (0, 0, 0), phase: SitePhase::Start }
}

pub fn start_site() -> (r: Site)
    ensures
        r == site_start(),
{
    Site { lava: (0, 0, 0), anchor: (0, 0, 0), phase: SitePhase::Start }
}

/// Lays the floor from cell `from` on, then tops up the lava bucket.
pub open spec fn site_floor_next(
    state: Site,
    blocks: &Blocks,
    from: u32,
    seen: SiteSeen,
) -> (Site, SiteAction) {
    match first_to_floor(blocks, state.anchor, from) {
        Some(n) => (
            Site { phase: SitePhase::Flooring((n + 1) as u32), ..state },
            SiteAction::Lay(floor_cell(state.anchor, n)),
        ),
        None => {
            if seen.lava_buckets < 1 && seen.buckets >= 1 {
                (Site { phase: SitePhase::Filled, ..state }, SiteAction::FillLava)
            } else {
                (Site { phase: SitePhase::Returned, ..state }, SiteAction::Return(state.anchor))
            }
        },
    }
}

/// Lays the floor from cell `from` on, then tops up the lava bucket.
fn site_floor(state: Site, blocks: &Blocks, from: u32, seen: SiteSeen) -> (r: (Site, SiteAction))
    requires
        has_room(state.anchor, 7),
    ensures
        r == site_floor_next(state, blocks, from, seen),
{
    match next_to_floor(blocks, state.anchor, from) {
        Some(n) => (
            Site { phase: SitePhase::Flooring((n + 1) as u32), ..state },
            SiteAction::Lay(cell_of_floor(state.anchor, n)),
        ),
        None => {
            if seen.lava_buckets < 1 && seen.buckets >= 1 {
                (Site { phase: SitePhase::Filled, ..state }, SiteAction::FillLava)
            } else {
                (Site { phase: SitePhase::Returned, ..state }, SiteAction::Return(state.anchor))
            }
        },
    }
}

/// Clears the chamber from cell `from` on, then lays the floor.
pub open spec fn site_clear_next(
    state: Site,
    blocks: &Blocks,
    from: u32,
    seen: SiteSeen,
) -> (Site, SiteAction) {
    if from < CHAMBER && seen.late {
        (Site { phase: SitePhase::Over, ..state }, SiteAction::Done(None))
    } else {
        match first_to_clear(blocks, state.anchor, from) {
            Some(n) => (
                Site { phase: SitePhase::Clearing((n + 1) as u32), ..state },
                SiteAction::Dig(chamber_cell(state.anchor, n)),
            ),
            None => site_floor_next(state, blocks, 0, seen),
        }
    }
}

/// Clears the chamber from cell `from` on, then lays the floor.
fn site_clear(state: Site, blocks: &Blocks, from: u32, seen: SiteSeen) -> (r: (Site, SiteAction))
    requires
        has_room(state.anchor, 7),
    ensures
        r == site_clear_next(state, blocks, from, seen),
{
    if from < CHAMBER && seen.late {
        (Site { phase: SitePhase::Over, ..state }, SiteAction::Done(None))
    } else {
        match next_to_clear(blocks, state.anchor, from) {
            Some(n) => (
                Site { phase: SitePhase::Clearing((n + 1) as u32), ..state },
                SiteAction::Dig(cell_of_chamber(state.anchor, n)),
            ),
            None => site_floor(state, blocks, 0, seen),
        }
    }
}

/// What `prepare_cast_site` does next.
pub open spec fn prepare_cast_site_next(state: Site, blocks: &Blocks, seen: SiteSeen) -> (Site, SiteAction) {
    match state.phase {
        SitePhase::Start => (Site { phase: SitePhase::Scanned(8), ..state }, SiteAction::Look),
        SitePhase::Scanned(left) => match seen.lava {
            Some(p) => (
                Site { lava: p, phase: SitePhase::Standing, ..state },
                SiteAction::GoTo(((p.0 + 6) as i32, (p.1 + 1) as i32, p.2)),
            ),
            None => {
                if left == 0 || seen.late {
                    (Site { phase: SitePhase::Over, ..state }, SiteAction::Done(None))
                } else {
                    (
                        Site { phase: SitePhase::Scanned((left - 1) as u32), ..state },
                        SiteAction::LookDeeper(seen.feet > 13),
                    )
                }
            },
        },
        SitePhase::Standing => {
            let anchor = ((state.lava.0 + 6) as i32, seen.feet, state.lava.2);
            site_clear_next(Site { anchor, ..state }, blocks, 0, seen)
        },
        SitePhase::Clearing(from) => site_clear_next(state, blocks, from, seen),
        SitePhase::Flooring(from) => site_floor_next(state, blocks, from, seen),
        SitePhase::Filled => (
            Site { phase: SitePhase::Returned, ..state },
            SiteAction::Return(state.anchor),
        ),
        SitePhase::Returned => {
            if seen.lava_buckets >= 1 {
                (Site { phase: SitePhase::Over, ..state }, SiteAction::Done(Some(state.lava)))
            } else {
                (Site { phase: SitePhase::Over, ..state }, SiteAction::Done(None))
            }
        },
        SitePhase::Over => (state, SiteAction::Done(None)),
    }
}

/// Finds a lava pool and clears a flat 6x6x5 casting chamber beside it: a fixed gap east of
/// the lava, so that the frame never overlaps the pool, at the level of the bot's feet,
/// so that the floor is not dug away. Never digs lava or a block touching it. Reports
/// the pool once a lava bucket is ready.
pub fn prepare_cast_site(state: Site, blocks: &Blocks, seen: SiteSeen) -> (r: (Site, SiteAction))
    requires
        site_wf(state),
        seen.lava matches Some(p) ==> has_room(p, 13),
        i32::MIN + 7 <= seen.feet <= i32::MAX - 7,
    ensures
        r == prepare_cast_site_next(state, blocks, seen),
{
    match state.phase {
        SitePhase::Start => (Site { phase: SitePhase::Scanned(8), ..state }, SiteAction::Look),
        SitePhase::Scanned(left) => match seen.lava {
            Some(p) => (
                Site { lava: p, phase: SitePhase::Standing, ..state },
                SiteAction::GoTo(((p.0 + 6) as i32, (p.1 + 1) as i32, p.2)),
            ),
            None => {
                if left == 0 || seen.late {
                    (Site { phase: SitePhase::Over, ..state }, SiteAction::Done(None))
                } else {
                    (
                        Site { phase: SitePhase::Scanned((left - 1) as u32), ..state },
                        SiteAction::LookDeeper(seen.feet > 13),
                    )
                }
            },
        },
        SitePhase::Standing => {
            let anchor = ((state.lava.0 + 6) as i32, seen.feet, state.lava.2);
            site_clear(Site { anchor, ..state }, blocks, 0, seen)
        },
        SitePhase::Clearing(from) => site_clear(state, blocks, from, seen),
        SitePhase::Flooring(from) => site_floor(state, blocks, from, seen),
        SitePhase::Filled => (
            Site { phase: SitePhase::Returned, ..state },
            SiteAction::Return(state.anchor),
        ),
        SitePhase::Returned => {
            if seen.lava_buckets >= 1 {
                (Site { phase: SitePhase::Over, ..state }, SiteAction::Done(Some(state.lava)))
            } else {
                (Site { phase: SitePhase::Over, ..state }, SiteAction::Done(None))
            }
        },
        SitePhase::Over => (state, SiteAction::Done(None)),
    }
}

/// The pool and the anchor lie well within the coordinates.
pub open spec fn site_wf(state: Site) -> bool {
    match state.phase {
        SitePhase::Start | SitePhase::Scanned(_) => true,
        SitePhase::Standing => has_room(state.lava, 13),
        _ => has_room(state.lava, 13) && has_room(state.anchor, 7) || state.phase == SitePhase::Over,
    }
}

/// The preparations keep the pool and the anchor within the coordinates.
pub proof fn law_site_stays_in_bounds(state: Site, blocks: &Blocks, seen: SiteSeen)
    requires
        site_wf(state),
        seen.lava matches Some(p) ==> has_room(p, 13),
        i32::MIN + 7 <= seen.feet <= i32::MAX - 7,
    ensures
        site_wf(prepare_cast_site_next(state, blocks, seen).0),
{
}

/// Nothing is dug but cells that are solid, are not obsidian and neither are lava
/// nor touch lava.
pub proof fn law_no_digging_near_lava(state: Site, blocks: &Blocks, seen: SiteSeen, c: Pos)
    requires
        prepare_cast_site_next(state, blocks, seen).1 == SiteAction::Dig(c),
    ensures
        wants_clearing(*blocks, c),
        !touches_lava(*blocks, c),
{
    let (from, anchor) = match state.phase {
        SitePhase::Clearing(from) => (from, state.anchor),
        _ => (0u32, ((state.lava.0 + 6) as i32, seen.feet, state.lava.2)),
    };
    lemma_next_to_clear(blocks, anchor, from);
    lemma_next_to_clear(blocks, state.anchor, from);
}

/// The floor is laid only where there is none and no lava touches it.
pub proof fn law_floor_is_laid_where_needed(state: Site, blocks: &Blocks, seen: SiteSeen, c: Pos)
    requires
        prepare_cast_site_next(state, blocks, seen).1 == SiteAction::Lay(c),
    ensures
        wants_floor(*blocks, c),
{
    let (from, anchor) = match state.phase {
        SitePhase::Flooring(from) => (from, state.anchor),
        SitePhase::Clearing(_) => (0u32, state.anchor),
        _ => (0u32, ((state.lava.0 + 6) as i32, seen.feet, state.lava.2)),
    };
    lemma_next_to_floor(blocks, anchor, from);
}

/// How many steps of the preparations are left at most.
pub open spec fn site_budget(phase: SitePhase) -> int {
    match phase {
        SitePhase::Start => 300,
        SitePhase::Scanned(left) => 280 + left,
        SitePhase::Standing => 270,
        SitePhase::Clearing(from) => 50 + CHAMBER - from,
        SitePhase::Flooring(from) => 10 + FLOOR - from,
        SitePhase::Filled => 3,
        SitePhase::Returned => 2,
        SitePhase::Over => 0,
    }
}

/// No more looks than nine, no more cells than there are.
pub open spec fn site_counts(phase: SitePhase) -> bool {
    match phase {
        SitePhase::Scanned(left) => left <= 8,
        SitePhase::Clearing(from) => from <= CHAMBER,
        SitePhase::Flooring(from) => from <= FLOOR,
        _ => true,
    }
}

/// The preparations end: at most nine looks for lava, and no cell is gone over
/// twice.
pub proof fn law_preparations_end(state: Site, blocks: &Blocks, seen: SiteSeen)
    requires
        state.phase != SitePhase::Over,
        site_counts(state.phase),
    ensures
        site_budget(prepare_cast_site_next(state, blocks, seen).0.phase) < site_budget(state.phase),
        site_counts(prepare_cast_site_next(state, blocks, seen).0.phase),
{
    let anchor = ((state.lava.0 + 6) as i32, seen.feet, state.lava.2);
    lemma_next_to_floor(blocks, state.anchor, 0);
    lemma_next_to_floor(blocks, anchor, 0);
    lemma_next_to_clear(blocks, anchor, 0);
    match state.phase {
        SitePhase::Clearing(from) => lemma_next_to_clear(blocks, state.anchor, from),
        SitePhase::Flooring(from) => lemma_next_to_floor(blocks, state.anchor, from),
        _ => {},
    }
}

/// The state after a run of observations.
pub open spec fn prepare_cast_site_run(state: Site, seen: Seq<(&Blocks, SiteSeen)>) -> Site
    decreases seen.len(),
{
    if seen.len() == 0 {
        state
    } else {
        prepare_cast_site_next(prepare_cast_site_run(state, seen.drop_last()), seen.last().0, seen.last().1).0
    }
}

proof fn lemma_prepare_cast_site_run(state: Site, seen: Seq<(&Blocks, SiteSeen)>)
    requires
        site_counts(state.phase),
    ensures
        site_counts(prepare_cast_site_run(state, seen).phase),
        prepare_cast_site_run(state, seen).phase == SitePhase::Over
            || site_budget(prepare_cast_site_run(state, seen).phase) + seen.len() <= site_budget(state.phase),
    decreases seen.len(),
{
    if seen.len() > 0 {
        lemma_prepare_cast_site_run(state, seen.drop_last());
        let before = prepare_cast_site_run(state, seen.drop_last());
        if !(before.phase == SitePhase::Over) {
            law_preparations_end(before, seen.last().0, seen.last().1);
        }
    }
}

/// Whatever the bot sees, the preparations are over after 300 steps.
pub proof fn law_preparations_take_a_bounded_time(seen: Seq<(&Blocks, SiteSeen)>)
    requires
        seen.len() >= 300,
    ensures
        prepare_cast_site_run(site_start(), seen).phase == SitePhase::Over,
{
    lemma_prepare_cast_site_run(site_start(), seen);
}

/// The frame, four columns from the anchor on to the east, lies clear of the pool.
pub proof fn law_frame_is_clear_of_the_pool(state: Site, blocks: &Blocks, seen: SiteSeen, k: u32)
    requires
        state.phase == SitePhase::Standing,
        has_room(state.lava, 13),
        i32::MIN + 7 <= seen.feet <= i32::MAX - 7,
        k < FRAME,
    ensures
        frame_cell(prepare_cast_site_next(state, blocks, seen).0.anchor, k).0 >= state.lava.0 + 6,
{
}

// ── the whole portal ────────────────────────────────────────────────────────

/// How many blocks of obsidian the frame has.
pub const FRAME: u32 = 10;

/// How far block number `k` of the frame lies east of the anchor and above it:
/// bottom row, left column, right column, top row; no corners.
pub open spec fn frame_offset(k: u32) -> (int, int) {
    if k < 2 {
        (k + 1, 0)
    } else if k < 5 {
        (0, k - 1)
    } else if k < 8 {
        (3, k - 4)
    } else {
        (k - 7, 4)
    }
}

/// Block number `k` of the frame.
pub open spec fn frame_cell(anchor: Pos, k: u32) -> Pos {
    (
        (anchor.0 + frame_offset(k).0) as i32,
        (anchor.1 + frame_offset(k).1) as i32,
        anchor.2,
    )
}

/// Block number `k` of the frame.
pub fn cell_of_frame(anchor: Pos, k: u32) -> (r: Pos)
    requires
        has_room(anchor, 7),
        k < FRAME,
    ensures
        r == frame_cell(anchor, k),
{
    let (dx, dy): (i32, i32) = if k < 2 {
        (k as i32 + 1, 0)
    } else if k < 5 {
        (0, k as i32 - 1)
    } else if k < 8 {
        (3, k as i32 - 4)
    } else {
        (k as i32 - 7, 4)
    };
    (anchor.0 + dx, anchor.1 + dy, anchor.2)
}

/// The ten blocks of the frame are ten different cells on the outline of a box 4
/// wide and 5 tall, without its corners.
pub proof fn law_frame_is_an_outline(j: u32, k: u32)
    requires
        j < FRAME,
        k < FRAME,
    ensures
        frame_offset(j) == frame_offset(k) ==> j == k,
        0 <= frame_offset(k).0 <= 3 && 0 <= frame_offset(k).1 <= 4,
        frame_offset(k).0 == 0 || frame_offset(k).0 == 3 || frame_offset(k).1 == 0 || frame_offset(
            k,
        ).1 == 4,
        !((frame_offset(k).0 == 0 || frame_offset(k).0 == 3) && (frame_offset(k).1 == 0
            || frame_offset(k).1 == 4)),
{
}

/// Every cell of the outline but the corners is a block of the frame.
pub proof fn law_frame_is_complete(dx: int, dy: int) -> (k: u32)
    requires
        0 <= dx <= 3,
        0 <= dy <= 4,
        dx == 0 || dx == 3 || dy == 0 || dy == 4,
        !((dx == 0 || dx == 3) && (dy == 0 || dy == 4)),
    ensures
        k < FRAME,
        frame_offset(k) == (dx, dy),
{
    if dy == 0 {
        (dx - 1) as u32
    } else if dx == 0 {
        (dy + 1) as u32
    } else if dx == 3 {
        (dy + 4) as u32
    } else {
        (dx + 7) as u32
    }
}

/// How many cells are dug out inside the frame and in front of it.
pub const INTERIOR: u32 = 12;

/// Cell number `n` of the 2x3 interior and the way to it.
pub open spec fn interior_cell(anchor: Pos, n: u32) -> Pos {
    (
        (anchor.0 + n / 6 + 1) as i32,
        (anchor.1 + (n / 2) % 3 + 1) as i32,
        (anchor.2 + n % 2) as i32,
    )
}

/// Cell number `n` of the interior and the way to it.
pub fn cell_of_interior(anchor: Pos, n: u32) -> (r: Pos)
    requires
        has_room(anchor, 7),
        n < INTERIOR,
    ensures
        r == interior_cell(anchor, n),
{
    let x: i32 = (n / 6) as i32;
    let y: i32 = (n / 2 % 3) as i32;
    let z: i32 = (n % 2) as i32;
    (anchor.0 + x + 1, anchor.1 + y + 1, anchor.2 + z)
}

/// Opening the interior leaves every block of the frame alone.
pub proof fn law_interior_is_inside_the_frame(anchor: Pos, n: u32, k: u32)
    requires
        has_room(anchor, 7),
        n < INTERIOR,
        k < FRAME,
    ensures
        interior_cell(anchor, n) != frame_cell(anchor, k),
        anchor.0 < interior_cell(anchor, n).0 < anchor.0 + 3,
        anchor.1 < interior_cell(anchor, n).1 < anchor.1 + 4,
{
}

pub open spec fn is_cast(blocks: Blocks, anchor: Pos, k: u32) -> bool {
    shown_name(
        blocks,
        frame_cell(anchor, k).0 as int,
        frame_cell(anchor, k).1 as int,
        frame_cell(anchor, k).2 as int,
    ) == "obsidian"@
}

/// How many of the first `n` blocks of the frame are obsidian.
pub open spec fn cast_among(blocks: Blocks, anchor: Pos, n: u32) -> int
    decreases n,
{
    if n == 0 {
        0
    } else {
        cast_among(blocks, anchor, (n - 1) as u32) + (if is_cast(blocks, anchor, (n - 1) as u32) {
            1int
        } else {
            0
        })
    }
}

/// How many blocks of the frame are obsidian.
pub fn frame_present(blocks: &Blocks, anchor: Pos) -> (r: i32)
    requires
        has_room(anchor, 7),
    ensures
        r == cast_among(*blocks, anchor, FRAME),
        0 <= r <= 10,
{
    let mut present: i32 = 0;
    let mut n: u32 = 0;
    while n < FRAME
        invariant
            n <= FRAME,
            has_room(anchor, 7),
            0 <= present <= n,
            present == cast_among(*blocks, anchor, n),
        decreases FRAME - n,
    {
        let c = cell_of_frame(anchor, n);
        if same(name_at(blocks, c.0, c.1, c.2), "obsidian") {
            present += 1;
        }
        n += 1;
    }
    present
}

/// All ten are present exactly if each block of the frame is obsidian.
pub proof fn law_ten_present_is_the_whole_frame(blocks: Blocks, anchor: Pos)
    ensures
        cast_among(blocks, anchor, FRAME) == 10 <==> forall|k: u32|
            k < FRAME ==> #[trigger] is_cast(blocks, anchor, k),
{
    reveal_with_fuel(cast_among, 11);
    if cast_among(blocks, anchor, FRAME) == 10 {
        assert(is_cast(blocks, anchor, 0) && is_cast(blocks, anchor, 1) && is_cast(blocks, anchor, 2)
            && is_cast(blocks, anchor, 3) && is_cast(blocks, anchor, 4) && is_cast(blocks, anchor, 5)
            && is_cast(blocks, anchor, 6) && is_cast(blocks, anchor, 7) && is_cast(blocks, anchor, 8)
            && is_cast(blocks, anchor, 9));
    }
}

#[derive(Debug, Clone, Copy, PartialEq, Eq, Structural)]
pub enum PortalPhase {
    Start,
    /// Has prepared the site.
    Prepared,
    /// Has tried to cast this block of the frame.
    Cast(u32),
    /// Has filled the interior.
    InnerFilled,
    /// Has opened the interior.
    Opened,
    /// Has tried to light this block of the bottom row.
    Lit(u32),
    Over,
}

#[derive(Debug, Clone, Copy, PartialEq, Eq)]
pub struct Portal {
    pub anchor: Pos,
    pub phase: PortalPhase,
}

#[derive(Debug, Clone, Copy, PartialEq, Eq)]
pub struct PortalSeen {
    /// Obsidian blocks nearby.
    pub obsidian_near: i32,
    pub cobble: i32,
    pub dirt: i32,
    /// The site is ready, the lava pool known.
    pub ready: bool,
    pub lava_buckets: i32,
    pub water_buckets: i32,
    pub buckets: i32,
    pub flint_and_steel: i32,
    pub at: Pos,
    /// The last block was cast.
    pub ok: bool,
}

#[derive(Debug, Clone, Copy, PartialEq, Eq)]
pub enum PortalEnd {
    TooFewBlocks,
    NoLava,
    NoLavaBucket,
    NoWaterBucket,
    /// So many blocks were cast when one could not be.
    CastFailed(u32, Pos),
    FrameIncomplete(i32),
    NoFlintAndSteel,
    WouldNotLight,
    Lit(Pos),
}

#[derive(Debug, Clone, Copy, PartialEq, Eq)]
pub enum PortalAction {
    PrepareSite,
    /// Cast block number `k` of the frame, after noting the start if it is the
    /// first.
    Cast(u32),
    FillInterior,
    /// Dig out the 2x3 interior and the way to it.
    OpenInterior,
    /// Strike flint and steel on this block of the bottom row.
    Light(Pos),
    Done(PortalEnd),
}

/// The task is over.
pub open spec fn portal_end_next(state: Portal, end: PortalEnd) -> (Portal, PortalAction) {
    (Portal { phase: PortalPhase::Over, ..state }, PortalAction::Done(end))
}

/// The task is over.
fn portal_end(state: Portal, end: PortalEnd) -> (r: (Portal, PortalAction))
    ensures
        r == portal_end_next(state, end),
{
    (Portal { phase: PortalPhase::Over, ..state }, PortalAction::Done(end))
}

/// The interior is a portal.
pub open spec fn is_lit(blocks: Blocks, anchor: Pos) -> bool {
    shown_name(blocks, anchor.0 + 1, anchor.1 + 1, anchor.2 as int) == "nether_portal"@
}

/// What `build_nether_portal` does next.
pub open spec fn build_nether_portal_next(state: Portal, blocks: &Blocks, seen: PortalSeen) -> (
    Portal,
    PortalAction,
) {
    match state.phase {
        PortalPhase::Start => {
            if seen.obsidian_near >= 10 {
                (
                    Portal { anchor: seen.at, phase: PortalPhase::Cast(0) },
                    PortalAction::Cast(0),
                )
            } else if seen.cobble as i64 + (seen.dirt as i64) < 30 {
                portal_end_next(state, PortalEnd::TooFewBlocks)
            } else {
                (Portal { phase: PortalPhase::Prepared, ..state }, PortalAction::PrepareSite)
            }
        },
        PortalPhase::Prepared => {
            if !seen.ready {
                portal_end_next(state, PortalEnd::NoLava)
            } else if seen.lava_buckets < 1 {
                portal_end_next(state, PortalEnd::NoLavaBucket)
            } else if seen.water_buckets as i64 + (seen.buckets as i64) < 1 {
                portal_end_next(state, PortalEnd::NoWaterBucket)
            } else {
                (
                    Portal { anchor: seen.at, phase: PortalPhase::Cast(0) },
                    PortalAction::Cast(0),
                )
            }
        },
        PortalPhase::Cast(k) => {
            if !seen.ok {
                portal_end_next(state, PortalEnd::CastFailed(k, frame_cell(state.anchor, k)))
            } else if k == 1 {
                (Portal { phase: PortalPhase::InnerFilled, ..state }, PortalAction::FillInterior)
            } else if k + 1 < FRAME {
                (
                    Portal { phase: PortalPhase::Cast((k + 1) as u32), ..state },
                    PortalAction::Cast((k + 1) as u32),
                )
            } else {
                (Portal { phase: PortalPhase::Opened, ..state }, PortalAction::OpenInterior)
            }
        },
        PortalPhase::InnerFilled => (
            Portal { phase: PortalPhase::Cast(2), ..state },
            PortalAction::Cast(2),
        ),
        PortalPhase::Opened => {
            if cast_among(*blocks, state.anchor, FRAME) < 10 {
                portal_end_next(
                    state,
                    PortalEnd::FrameIncomplete(cast_among(*blocks, state.anchor, FRAME) as i32),
                )
            } else if seen.flint_and_steel < 1 {
                portal_end_next(state, PortalEnd::NoFlintAndSteel)
            } else {
                (Portal { phase: PortalPhase::Lit(0), ..state }, PortalAction::Light(frame_cell(state.anchor, 0)))
            }
        },
        PortalPhase::Lit(k) => {
            if is_lit(*blocks, state.anchor) {
                portal_end_next(state, PortalEnd::Lit(state.anchor))
            } else if k == 0 {
                (Portal { phase: PortalPhase::Lit(1), ..state }, PortalAction::Light(frame_cell(state.anchor, 1)))
            } else {
                portal_end_next(state, PortalEnd::WouldNotLight)
            }
        },
        PortalPhase::Over => portal_end_next(state, PortalEnd::WouldNotLight),
    }
}

/// Builds and lights a 4x5 (10 obsidian, no corners) nether portal by casting. The
/// bottom row first (its water bowl occupies a cell of the interior), then the
/// interior is filled, then the rest.
pub fn build_nether_portal(state: Portal, blocks: &Blocks, seen: PortalSeen) -> (r: (
    Portal,
    PortalAction,
))
    requires
        portal_wf(state),
    ensures
        r == build_nether_portal_next(state, blocks, seen),
{
    match state.phase {
        PortalPhase::Start => {
            if seen.obsidian_near >= 10 {
                (
                    Portal { anchor: seen.at, phase: PortalPhase::Cast(0) },
                    PortalAction::Cast(0),
                )
            } else if seen.cobble as i64 + (seen.dirt as i64) < 30 {
                portal_end(state, PortalEnd::TooFewBlocks)
            } else {
                (Portal { phase: PortalPhase::Prepared, ..state }, PortalAction::PrepareSite)
            }
        },
        PortalPhase::Prepared => {
            if !seen.ready {
                portal_end(state, PortalEnd::NoLava)
            } else if seen.lava_buckets < 1 {
                portal_end(state, PortalEnd::NoLavaBucket)
            } else if seen.water_buckets as i64 + (seen.buckets as i64) < 1 {
                portal_end(state, PortalEnd::NoWaterBucket)
            } else {
                (
                    Portal { anchor: seen.at, phase: PortalPhase::Cast(0) },
                    PortalAction::Cast(0),
                )
            }
        },
        PortalPhase::Cast(k) => {
            if !seen.ok {
                portal_end(state, PortalEnd::CastFailed(k, cell_of_frame(state.anchor, k)))
            } else if k == 1 {
                (Portal { phase: PortalPhase::InnerFilled, ..state }, PortalAction::FillInterior)
            } else if k + 1 < FRAME {
                (
                    Portal { phase: PortalPhase::Cast((k + 1) as u32), ..state },
                    PortalAction::Cast((k + 1) as u32),
                )
            } else {
                (Portal { phase: PortalPhase::Opened, ..state }, PortalAction::OpenInterior)
            }
        },
        PortalPhase::InnerFilled => (
            Portal { phase: PortalPhase::Cast(2), ..state },
            PortalAction::Cast(2),
        ),
        PortalPhase::Opened => {
            let present: i32 = frame_present(blocks, state.anchor);
            if present < 10 {
                portal_end(state, PortalEnd::FrameIncomplete(present))
            } else if seen.flint_and_steel < 1 {
                portal_end(state, PortalEnd::NoFlintAndSteel)
            } else {
                (Portal { phase: PortalPhase::Lit(0), ..state }, PortalAction::Light(cell_of_frame(state.anchor, 0)))
            }
        },
        PortalPhase::Lit(k) => {
            let a = state.anchor;
            if same(name_at(blocks, a.0 + 1, a.1 + 1, a.2), "nether_portal") {
                portal_end(state, PortalEnd::Lit(state.anchor))
            } else if k == 0 {
                (Portal { phase: PortalPhase::Lit(1), ..state }, PortalAction::Light(cell_of_frame(state.anchor, 1)))
            } else {
                portal_end(state, PortalEnd::WouldNotLight)
            }
        },
        PortalPhase::Over => portal_end(state, PortalEnd::WouldNotLight),
    }
}

/// How many steps of the task are left at most.
pub open spec fn portal_budget(phase: PortalPhase) -> int {
    match phase {
        PortalPhase::Start => 20,
        PortalPhase::Prepared => 19,
        PortalPhase::Cast(k) => if k < 2 {
            18 - k
        } else {
            15 - k
        },
        PortalPhase::InnerFilled => 16,
        PortalPhase::Opened => 4,
        PortalPhase::Lit(k) => 3 - k,
        PortalPhase::Over => 0,
    }
}

/// The counters stay within their bounds, and the frame within the coordinates.
pub open spec fn portal_wf(state: Portal) -> bool {
    match state.phase {
        PortalPhase::Cast(k) => k < FRAME && has_room(state.anchor, 7),
        PortalPhase::Lit(k) => k <= 1 && has_room(state.anchor, 7),
        PortalPhase::InnerFilled | PortalPhase::Opened => has_room(state.anchor, 7),
        _ => true,
    }
}

/// The task ends, and the frame stays where it was begun.
pub proof fn law_portal_building_ends(state: Portal, blocks: &Blocks, seen: PortalSeen)
    requires
        portal_wf(state),
        has_room(seen.at, 7),
        state.phase != PortalPhase::Over,
    ensures
        ({
            let next = build_nether_portal_next(state, blocks, seen).0;
            &&& portal_wf(next)
            &&& 0 <= portal_budget(next.phase) < portal_budget(state.phase)
            &&& next.anchor == state.anchor || state.phase == PortalPhase::Start || state.phase
                == PortalPhase::Prepared
        }),
{
}

/// A portal is reported only where one is seen inside the frame, and it is lit only
/// after every block of the frame was seen to be obsidian.
pub proof fn law_only_whole_frames_are_lit(state: Portal, blocks: &Blocks, seen: PortalSeen)
    requires
        state.phase != PortalPhase::Over,
    ensures
        build_nether_portal_next(state, blocks, seen).1 matches PortalAction::Done(PortalEnd::Lit(p))
            ==> p == state.anchor && state.phase is Lit && is_lit(*blocks, p),
        build_nether_portal_next(state, blocks, seen).0.phase is Lit && !(state.phase is Lit)
            ==> forall|k: u32| k < FRAME ==> #[trigger] is_cast(*blocks, state.anchor, k),
{
    law_ten_present_is_the_whole_frame(*blocks, state.anchor);
    lemma_cast_among(*blocks, state.anchor, FRAME);
}

proof fn lemma_cast_among(blocks: Blocks, anchor: Pos, n: u32)
    ensures
        0 <= cast_among(blocks, anchor, n) <= n,
    decreases n,
{
    if n > 0 {
        lemma_cast_among(blocks, anchor, (n - 1) as u32);
    }
}

/// The state after a run of observations.
pub open spec fn build_nether_portal_run(state: Portal, seen: Seq<(&Blocks, PortalSeen)>) -> Portal
    decreases seen.len(),
{
    if seen.len() == 0 {
        state
    } else {
        build_nether_portal_next(
            build_nether_portal_run(state, seen.drop_last()),
            seen.last().0,
            seen.last().1,
        ).0
    }
}

proof fn lemma_build_nether_portal_run(state: Portal, seen: Seq<(&Blocks, PortalSeen)>)
    requires
        portal_wf(state),
        forall|i: int| 0 <= i < seen.len() ==> has_room((#[trigger] seen[i]).1.at, 7),
    ensures
        portal_wf(build_nether_portal_run(state, seen)),
        build_nether_portal_run(state, seen).phase == PortalPhase::Over || portal_budget(
            build_nether_portal_run(state, seen).phase,
        ) + seen.len() <= portal_budget(state.phase),
    decreases seen.len(),
{
    if seen.len() > 0 {
        let rest = seen.drop_last();
        assert forall|i: int| 0 <= i < rest.len() implies has_room((#[trigger] rest[i]).1.at, 7) by {
            assert(rest[i] == seen[i]);
        }
        lemma_build_nether_portal_run(state, rest);
        let before = build_nether_portal_run(state, rest);
        if before.phase != PortalPhase::Over {
            assert(has_room(seen[seen.len() - 1].1.at, 7));
            law_portal_building_ends(before, seen.last().0, seen.last().1);
        }
    }
}

/// Whatever the bot sees, the task is over after 20 steps.
pub proof fn law_the_portal_takes_a_bounded_time(anchor: Pos, seen: Seq<(&Blocks, PortalSeen)>)
    requires
        forall|i: int| 0 <= i < seen.len() ==> has_room((#[trigger] seen[i]).1.at, 7),
        seen.len() >= 20,
    ensures
        build_nether_portal_run(Portal { anchor, phase: PortalPhase::Start }, seen).phase
            == PortalPhase::Over,
{
    lemma_build_nether_portal_run(Portal { anchor, phase: PortalPhase::Start }, seen);
}

/// The blocks of the frame are cast one after the other, each only after the one
/// before it was.
pub proof fn law_frame_is_cast_in_order(state: Portal, blocks: &Blocks, seen: PortalSeen, k: u32)
    requires
        build_nether_portal_next(state, blocks, seen).1 == PortalAction::Cast(k),
        k > 0,
    ensures
        k == 2 ==> state.phase == PortalPhase::InnerFilled,
        k != 2 ==> state.phase == PortalPhase::Cast((k - 1) as u32) && seen.ok,
        state.phase == PortalPhase::InnerFilled ==> k == 2,
{
}

/// "x,y,z"
pub open spec fn place_text(p: Pos) -> Seq<char> {
    number(p.0 as int) + ","@ + number(p.1 as int) + ","@ + number(p.2 as int)
}

/// A place as it is written in messages and in the log.
pub fn place_message(p: Pos) -> (r: String)
    ensures
        r@ == place_text(p),
{
    let mut s = String::new();
    push_number(&mut s, p.0 as i64);
    s.append(",");
    push_number(&mut s, p.1 as i64);
    s.append(",");
    push_number(&mut s, p.2 as i64);
    assert(s@ =~= place_text(p));
    s
}

/// What the step reports of the portal.
pub open spec fn portal_text(end: PortalEnd) -> Seq<char> {
    match end {
        PortalEnd::TooFewBlocks => "need ~30 cobble/dirt to scaffold the cast"@,
        PortalEnd::NoLava => "no lava pool found / lava bucket not filled"@,
        PortalEnd::NoLavaBucket => "need a lava bucket to cast obsidian"@,
        PortalEnd::NoWaterBucket => "need a water/empty bucket to cast obsidian"@,
        PortalEnd::CastFailed(n, pos) => "cast "@ + number(n as int) + "/10 — stuck at "@
            + place_text(pos),
        PortalEnd::FrameIncomplete(n) => "only "@ + number(n as int) + "/10 obsidian present"@,
        PortalEnd::NoFlintAndSteel => "frame cast but no flint & steel to light it"@,
        PortalEnd::WouldNotLight => "frame cast (10/10) but portal would not light"@,
        PortalEnd::Lit(pos) => "nether portal cast & lit at "@ + place_text(pos),
    }
}

/// What the step reports: a success exactly if the portal is lit.
pub fn report_portal(end: PortalEnd) -> (r: StepResult)
    ensures
        r.success == (end is Lit),
        r.message@ == portal_text(end),
{
    match end {
        PortalEnd::TooFewBlocks => failure("need ~30 cobble/dirt to scaffold the cast"),
        PortalEnd::NoLava => failure("no lava pool found / lava bucket not filled"),
        PortalEnd::NoLavaBucket => failure("need a lava bucket to cast obsidian"),
        PortalEnd::NoWaterBucket => failure("need a water/empty bucket to cast obsidian"),
        PortalEnd::CastFailed(n, pos) => {
            let mut s = "cast ".to_owned();
            push_number(&mut s, n as i64);
            s.append("/10 — stuck at ");
            let place = place_message(pos);
            s.append(place.as_str());
            assert(s@ =~= portal_text(end));
            failure(s.as_str())
        },
        PortalEnd::FrameIncomplete(n) => {
            let mut s = "only ".to_owned();
            push_number(&mut s, n as i64);
            s.append("/10 obsidian present");
            failure(s.as_str())
        },
        PortalEnd::NoFlintAndSteel => failure("frame cast but no flint & steel to light it"),
        PortalEnd::WouldNotLight => failure("frame cast (10/10) but portal would not light"),
        PortalEnd::Lit(pos) => {
            let mut s = "nether portal cast & lit at ".to_owned();
            let place = place_message(pos);
            s.append(place.as_str());
            success(s.as_str())
        },
    }
}

// ── going through ───────────────────────────────────────────────────────────

#[derive(Debug, Clone, Copy, PartialEq, Eq, Structural)]
pub enum EnterPhase {
    Top,
    /// Has walked to the portal and waited so many times.
    Waited(u32),
    /// Has stepped forward on its own.
    Nudged,
    Over,
}

#[derive(Debug, Clone, Copy, PartialEq, Eq, Structural)]
pub struct Enter {
    pub left: u32,
    pub phase: EnterPhase,
}

#[derive(Debug, Clone, Copy, PartialEq, Eq, Structural)]
pub enum EnterAction {
    /// Walk to the portal, then wait ten ticks.
    WalkAndWait,
    /// Wait ten ticks.
    Wait,
    /// Look at the portal and walk forward for ten ticks.
    Nudge,
    Done(bool),
}

/// Walks to the portal once more, where a try is left.
pub open spec fn enter_try_next(state: Enter) -> (Enter, EnterAction) {
    if state.left == 0 {
        (Enter { phase: EnterPhase::Over, ..state }, EnterAction::Done(false))
    } else {
        (
            Enter { left: (state.left - 1) as u32, phase: EnterPhase::Waited(1) },
            EnterAction::WalkAndWait,
        )
    }
}

/// Walks to the portal once more, where a try is left.
fn enter_try(state: Enter) -> (r: (Enter, EnterAction))
    ensures
        r == enter_try_next(state),
{
    if state.left == 0 {
        (Enter { phase: EnterPhase::Over, ..state }, EnterAction::Done(false))
    } else {
        (
            Enter { left: (state.left - 1) as u32, phase: EnterPhase::Waited(1) },
            EnterAction::WalkAndWait,
        )
    }
}

/// What `enter_nether` does next.
pub open spec fn enter_nether_next(state: Enter, changed: bool) -> (Enter, EnterAction) {
    match state.phase {
        EnterPhase::Top => enter_try_next(state),
        EnterPhase::Waited(n) => {
            if changed {
                (Enter { phase: EnterPhase::Over, ..state }, EnterAction::Done(true))
            } else if n < 20 {
                (Enter { phase: EnterPhase::Waited((n + 1) as u32), ..state }, EnterAction::Wait)
            } else {
                (Enter { phase: EnterPhase::Nudged, ..state }, EnterAction::Nudge)
            }
        },
        EnterPhase::Nudged => {
            if changed {
                (Enter { phase: EnterPhase::Over, ..state }, EnterAction::Done(true))
            } else {
                enter_try_next(state)
            }
        },
        EnterPhase::Over => (state, EnterAction::Done(changed)),
    }
}

/// Walks into the lit portal and waits for the dimension change: six tries, each of
/// twenty waits and a nudge where pathing stopped short. `changed` says whether the
/// dimension is another one by now.
pub fn enter_nether(state: Enter, changed: bool) -> (r: (Enter, EnterAction))
    ensures
        r == enter_nether_next(state, changed),
{
    match state.phase {
        EnterPhase::Top => enter_try(state),
        EnterPhase::Waited(n) => {
            if changed {
                (Enter { phase: EnterPhase::Over, ..state }, EnterAction::Done(true))
            } else if n < 20 {
                (Enter { phase: EnterPhase::Waited((n + 1) as u32), ..state }, EnterAction::Wait)
            } else {
                (Enter { phase: EnterPhase::Nudged, ..state }, EnterAction::Nudge)
            }
        },
        EnterPhase::Nudged => {
            if changed {
                (Enter { phase: EnterPhase::Over, ..state }, EnterAction::Done(true))
            } else {
                enter_try(state)
            }
        },
        EnterPhase::Over => (state, EnterAction::Done(changed)),
    }
}

/// A try has at most twenty waits.
pub open spec fn enter_wf(state: Enter) -> bool {
    state.phase matches EnterPhase::Waited(n) ==> n <= 20
}

/// How many steps of the task are left at most.
pub open spec fn enter_budget(state: Enter) -> int {
    22 * state.left + (match state.phase {
        EnterPhase::Top => 1int,
        EnterPhase::Waited(n) => 22 - n,
        EnterPhase::Nudged => 1,
        EnterPhase::Over => 0,
    })
}

/// The task ends, with success exactly if the dimension has changed.
pub proof fn law_entering_ends(state: Enter, changed: bool, ok: bool)
    requires
        state.phase != EnterPhase::Over,
        enter_wf(state),
    ensures
        0 <= enter_budget(enter_nether_next(state, changed).0) < enter_budget(state),
        enter_wf(enter_nether_next(state, changed).0),
        enter_nether_next(state, changed).1 == EnterAction::Done(ok) && state.phase != EnterPhase::Top
            ==> ok == changed,
{
}

/// The state after a run of observations.
pub open spec fn enter_nether_run(state: Enter, seen: Seq<bool>) -> Enter
    decreases seen.len(),
{
    if seen.len() == 0 {
        state
    } else {
        enter_nether_next(enter_nether_run(state, seen.drop_last()), seen.last()).0
    }
}

proof fn lemma_enter_nether_run(state: Enter, seen: Seq<bool>)
    requires
        enter_wf(state),
    ensures
        enter_wf(enter_nether_run(state, seen)),
        enter_nether_run(state, seen).phase == EnterPhase::Over
            || enter_budget(enter_nether_run(state, seen)) + seen.len() <= enter_budget(state),
    decreases seen.len(),
{
    if seen.len() > 0 {
        lemma_enter_nether_run(state, seen.drop_last());
        let before = enter_nether_run(state, seen.drop_last());
        if !(before.phase == EnterPhase::Over) {
            law_entering_ends(before, seen.last(), true);
        }
    }
}

/// Whatever happens, the task is over after 133 steps.
pub proof fn law_entering_takes_a_bounded_time(seen: Seq<bool>)
    requires
        seen.len() >= 133,
    ensures
        enter_nether_run(Enter { left: 6, phase: EnterPhase::Top }, seen).phase == EnterPhase::Over,
{
    lemma_enter_nether_run(Enter { left: 6, phase: EnterPhase::Top }, seen);
}

/// What the step reports of the way through; the new dimension where there was one.
pub fn report_enter(found: bool, changed: bool, dimension: &str) -> (r: StepResult)
    ensures
        r.success == (found && changed),
        r.message@ == (if !found {
            "no portal found to enter"@
        } else if changed {
            "entered the nether ("@ + dimension@ + ")"@
        } else {
            "stood in portal but no dimension change"@
        }),
{
    if !found {
        failure("no portal found to enter")
    } else if changed {
        let message = word_message("entered the nether (", dimension, ")");
        success(message.as_str())
    } else {
        failure("stood in portal but no dimension change")
    }
}

// ── what holds of every cast ────────────────────────────────────────────────

/// The cup is closed on every side but the top: its walls are the five cells that share a
/// face with it and do not lie above, each of them once.
pub proof fn law_the_cup_is_open_only_above(pos: Pos, x: int, y: int, z: int)
    ensures
        (exists|k: int| 0 <= k < 5 && #[trigger] cup_wall(pos, k) == (x, y, z)) <==> (x - pos.0) * (x - pos.0) + (
        y - pos.1) * (y - pos.1) + (z - pos.2) * (z - pos.2) == 1 && y <= pos.1,
        forall|j: int, k: int|
            0 <= j < k < 5 ==> #[trigger] cup_wall(pos, j) != #[trigger] cup_wall(pos, k),
        cup_wall(pos, 2) == (pos.0 as int, pos.1 as int, pos.2 + 1),
{
    let (a, b, c) = (x - pos.0, y - pos.1, z - pos.2);
    assert(a * a + b * b + c * c == 1 <==> ((a == 1 || a == -1) && b == 0 && c == 0) || ((b == 1 || b == -1)
        && a == 0 && c == 0) || ((c == 1 || c == -1) && a == 0 && b == 0)) by (nonlinear_arith);
    if a == 1 && b == 0 && c == 0 {
        assert(cup_wall(pos, 0) == (x, y, z));
    }
    if a == -1 && b == 0 && c == 0 {
        assert(cup_wall(pos, 1) == (x, y, z));
    }
    if a == 0 && b == 0 && c == 1 {
        assert(cup_wall(pos, 2) == (x, y, z));
    }
    if a == 0 && b == 0 && c == -1 {
        assert(cup_wall(pos, 3) == (x, y, z));
    }
    if a == 0 && b == -1 && c == 0 {
        assert(cup_wall(pos, 4) == (x, y, z));
    }
}

/// The water bowl lies one above the cup and is walled on the three sides on which the bot
/// does not stand.
pub proof fn law_the_bowl_is_open_to_the_bot(pos: Pos, x: int, y: int, z: int)
    ensures
        (exists|k: int| 0 <= k < 3 && #[trigger] bowl_wall(pos, k) == (x, y, z)) <==> y == pos.1 + 1 && ((x
            == pos.0 + 1 && z == pos.2) || (x == pos.0 - 1 && z == pos.2) || (x == pos.0 && z == pos.2 - 1)),
        bowl_wall(pos, 2) == (pos.0 as int, pos.1 + 1, pos.2 - 1),
        forall|j: int, k: int|
            0 <= j < k < 3 ==> #[trigger] bowl_wall(pos, j) != #[trigger] bowl_wall(pos, k),
{
    if y == pos.1 + 1 && x == pos.0 + 1 && z == pos.2 {
        assert(bowl_wall(pos, 0) == (x, y, z));
    }
    if y == pos.1 + 1 && x == pos.0 - 1 && z == pos.2 {
        assert(bowl_wall(pos, 1) == (x, y, z));
    }
    if y == pos.1 + 1 && x == pos.0 && z == pos.2 - 1 {
        assert(bowl_wall(pos, 2) == (x, y, z));
    }
}

/// The gap that is mended next is the first wall that does not stand; the pillar in front is
/// left out only where so told.
pub proof fn law_gaps_are_found_in_order(blocks: &Blocks, pos: Pos, from: u32, front: bool)
    ensures
        match first_gap(blocks, pos, from, front) {
            Some(k) => from <= k < 5 && !wall_stands(*blocks, pos, k as int) && (k == 2 ==> front)
                && forall|j: int|
                from <= j < k ==> #[trigger] wall_stands(*blocks, pos, j) || (j == 2 && !front),
            None => forall|j: int|
                from <= j < 5 ==> #[trigger] wall_stands(*blocks, pos, j) || (j == 2 && !front),
        },
    decreases 5 - from,
{
    if from < 5 {
        law_gaps_are_found_in_order(blocks, pos, (from + 1) as u32, front);
    }
}

/// A step of the attempt has failed: a fill, a pillar or a wall did not work, the bot has
/// strayed from its spot, the cup leaks, or no obsidian came of it.
pub open spec fn cast_step_failed(state: Cast, blocks: Blocks, pos: Pos, seen: CastSeen) -> bool {
    match state.phase {
        CastPhase::FilledLava | CastPhase::FilledWater | CastPhase::Levelled | CastPhase::Walled(_)
        | CastPhase::Raised => !seen.ok,
        CastPhase::Approached(_) => seen.near && seen.feet <= state.base + 1 && seen.astray,
        CastPhase::Staged(t) => t >= 2 && seen.astray,
        CastPhase::Gate => !cup_is_tight(blocks, pos),
        CastPhase::Reclaimed => !state.made && !is_obsidian(blocks, pos),
        _ => false,
    }
}

/// An attempt is given up exactly where a step of it has failed: then there is the next
/// attempt, or the end without obsidian. As long as every step works it goes on, and ends
/// only with obsidian in the cup.
pub proof fn law_only_failed_attempts_are_given_up(state: Cast, blocks: &Blocks, pos: Pos, seen: CastSeen)
    requires
        cast_wf(state),
        state.phase != CastPhase::Start,
        state.phase != CastPhase::Over,
    ensures
        ({
            let (next, action) = cast_obsidian_at_next(state, blocks, pos, seen);
            let failed = cast_step_failed(state, *blocks, pos, seen);
            &&& !failed ==> next.left == state.left
            &&& failed ==> next.left == state.left - 1 || (action matches CastAction::Done(made, _) && !made)
            &&& action matches CastAction::Done(made, _) ==> (made <==> !failed)
            &&& next.left < state.left ==> failed
        }),
{
    law_no_gap_means_tight(blocks, pos);
    law_gaps_are_found_in_order(blocks, pos, 0, true);
}

/// After a failed pillar, wall, gate or pour there is another attempt as long as one of the
/// three is left; without a bucket filled, or astray, there is none.
pub proof fn law_failed_attempts_are_made_again(state: Cast, blocks: &Blocks, pos: Pos, seen: CastSeen)
    requires
        cast_wf(state),
        cast_step_failed(state, *blocks, pos, seen),
    ensures
        ({
            let (next, action) = cast_obsidian_at_next(state, blocks, pos, seen);
            let hopeless = state.phase == CastPhase::FilledLava || state.phase == CastPhase::FilledWater
                || state.phase is Approached || state.phase is Staged;
            &&& action is Done <==> hopeless || state.left == 0
            &&& !(action is Done) ==> next.left == state.left - 1 && !next.made
            &&& state.phase == CastPhase::FilledLava || state.phase == CastPhase::FilledWater ==> action
                == CastAction::Done(false, false)
            &&& action is Done && state.phase != CastPhase::FilledLava && state.phase != CastPhase::FilledWater
                ==> action == CastAction::Done(false, true)
        }),
        cast_start(state.pool, state.base).left == 3,
        cast_start(state.pool, state.base).phase == CastPhase::Start,
        cast_start(state.pool, state.base).pool == state.pool,
        cast_start(state.pool, state.base).base == state.base,
{
    law_no_gap_means_tight(blocks, pos);
}

/// The state begins an attempt with this step.
pub open spec fn begins_attempt(state: Cast, blocks: Blocks, pos: Pos, seen: CastSeen) -> bool {
    ||| state.phase == CastPhase::Start && !is_obsidian(blocks, pos)
    ||| cast_step_failed(state, blocks, pos, seen) && !(state.phase == CastPhase::FilledLava || state.phase
        == CastPhase::FilledWater || state.phase is Approached || state.phase is Staged)
}

/// An attempt starts with full buckets: lava is fetched where there is none, from the pool
/// where it is known, then water where there is none, and then the bot comes down to its
/// base. A block that is obsidian already takes no attempt.
pub proof fn law_attempts_start_with_full_buckets(state: Cast, blocks: &Blocks, pos: Pos, seen: CastSeen)
    requires
        cast_wf(state),
    ensures
        ({
            let (next, action) = cast_obsidian_at_next(state, blocks, pos, seen);
            let starts = begins_attempt(state, *blocks, pos, seen) && state.left > 0;
            let lava = seen.lava_buckets >= 1;
            let water = seen.water_buckets >= 1;
            let asks_lava = (starts && state.pool is None) || state.phase == CastPhase::AtPool;
            let asks_water = (asks_lava && lava) || (starts && lava) || (state.phase == CastPhase::FilledLava
                && seen.ok);
            &&& state.phase == CastPhase::Start && is_obsidian(*blocks, pos) ==> action == CastAction::Done(
                true,
                false,
            )
            &&& starts && !lava ==> (state.pool matches Some(p) ==> action == CastAction::WalkToPool(
                (p.0, (p.1 + 1) as i32, p.2),
            ) && next.phase == CastPhase::AtPool)
            &&& asks_lava && !lava ==> action == CastAction::FillLava && next.phase == CastPhase::FilledLava
            &&& asks_water && !water ==> action == CastAction::FillWater && next.phase
                == CastPhase::FilledWater
            &&& (asks_water && water) || (state.phase == CastPhase::FilledWater && seen.ok) ==> action
                == CastAction::Descend(state.base) && next.phase == CastPhase::Descended
        }),
{
    law_no_gap_means_tight(blocks, pos);
}

/// The bot goes to its spot before the cup, at the base, and where it does not get there it
/// steps back and tries again, three times in all, before it makes do.
pub proof fn law_the_bot_goes_before_the_cup(state: Cast, blocks: &Blocks, pos: Pos, seen: CastSeen)
    requires
        cast_wf(state),
        has_room(pos, 4),
    ensures
        ({
            let (next, action) = cast_obsidian_at_next(state, blocks, pos, seen);
            let there = seen.near && seen.feet <= state.base + 1;
            &&& action matches CastAction::Approach(p) ==> p.0 == pos.0 && p.1 == state.base && p.2 == pos.2 + 1
            &&& action matches CastAction::Stage(p) ==> p.0 == pos.0 && p.1 == state.base && p.2 == pos.2 + 4
            &&& state.phase == CastPhase::Descended ==> action is Approach && next.phase
                == CastPhase::Approached(0)
            &&& state.phase matches CastPhase::Approached(t) ==> (!there ==> action is Stage && next.phase
                == CastPhase::Staged(t))
            &&& state.phase matches CastPhase::Staged(t) ==> (t < 2 ==> action is Approach && next.phase
                == CastPhase::Approached((t + 1) as u32))
        }),
{
}

/// The bot stands before the cup, ready to build.
pub open spec fn stands_before_cup(state: Cast, seen: CastSeen) -> bool {
    ||| state.phase is Approached && seen.near && seen.feet <= state.base + 1 && !seen.astray
    ||| (state.phase matches CastPhase::Staged(t) && t >= 2) && !seen.astray
}

/// Before the cup the bot gets up to its level where it stands lower, and then builds what is
/// missing of its walls, one after the other, and the three walls of the bowl.
pub proof fn law_cup_and_bowl_are_walled(state: Cast, blocks: &Blocks, pos: Pos, seen: CastSeen)
    requires
        cast_wf(state),
        has_room(pos, 4),
    ensures
        ({
            let (next, action) = cast_obsidian_at_next(state, blocks, pos, seen);
            let before = stands_before_cup(state, seen);
            let from = match state.phase {
                CastPhase::Walled(k) => if seen.ok {
                    Some(k + 1)
                } else {
                    None
                },
                CastPhase::Levelled => if seen.ok {
                    Some(0int)
                } else {
                    None
                },
                _ => if before && seen.feet >= pos.1 {
                    Some(0int)
                } else {
                    None
                },
            };
            &&& before && seen.feet < pos.1 ==> action == CastAction::PillarTo(pos.1) && next.phase
                == CastPhase::Levelled
            &&& from matches Some(f) ==> {
                ||| exists|k: u32|
                    f <= k < 5 && k != 2 && !wall_stands(*blocks, pos, k as int) && next.phase
                        == CastPhase::Walled(k) && action == CastAction::BuildWall(
                        to_pos(#[trigger] cup_wall(pos, k as int)),
                    )
                ||| (forall|k: int| f <= k < 5 && k != 2 ==> #[trigger] wall_stands(*blocks, pos, k))
                    && next.phase == CastPhase::Bowl(1) && action == CastAction::BuildBowl(
                    to_pos(bowl_wall(pos, 0)),
                )
            }
            &&& state.phase matches CastPhase::Bowl(n) ==> if n < 3 {
                action == CastAction::BuildBowl(to_pos(bowl_wall(pos, n as int))) && next.phase
                    == CastPhase::Bowl((n + 1) as u32)
            } else {
                action == CastAction::Centre(25) && next.phase == CastPhase::Centred
            }
        }),
{
    law_gaps_are_found_in_order(blocks, pos, 0, false);
    match state.phase {
        CastPhase::Walled(k) => {
            law_gaps_are_found_in_order(blocks, pos, (k + 1) as u32, false);
            match first_gap(blocks, pos, (k + 1) as u32, false) {
                Some(j) => {
                    assert(to_pos(cup_wall(pos, j as int)) == to_pos(cup_wall(pos, j as int)));
                },
                None => {},
            }
        },
        _ => {
            match first_gap(blocks, pos, 0, false) {
                Some(j) => {
                    assert(to_pos(cup_wall(pos, j as int)) == to_pos(cup_wall(pos, j as int)));
                },
                None => {},
            }
        },
    }
}

/// From one level above the cup the bot clears the cup and the cell over it, mends the walls,
/// the pillar in front too, and pours: lava, then water against the wall behind, once that is
/// made solid.
pub proof fn law_the_pour_has_its_order(state: Cast, blocks: &Blocks, pos: Pos, seen: CastSeen)
    requires
        cast_wf(state),
        has_room(pos, 4),
    ensures
        ({
            let (next, action) = cast_obsidian_at_next(state, blocks, pos, seen);
            let up = (state.phase == CastPhase::Centred && seen.feet >= pos.1 + 1) || (state.phase
                == CastPhase::Raised && seen.ok);
            let from = match state.phase {
                CastPhase::Mended(k) => Some(k + 1),
                CastPhase::ClearedCup => Some(0int),
                _ => None,
            };
            let behind = (pos.0, (pos.1 + 1) as i32, (pos.2 - 1) as i32);
            &&& state.phase == CastPhase::Centred && seen.feet < pos.1 + 1 ==> action == CastAction::PillarTo(
                (pos.1 + 1) as i32,
            ) && next.phase == CastPhase::Raised
            &&& up ==> action == CastAction::ClearCup(pos, (pos.0, (pos.1 + 1) as i32, pos.2)) && next.phase
                == CastPhase::ClearedCup
            &&& from matches Some(f) ==> {
                ||| exists|k: u32|
                    f <= k < 5 && !wall_stands(*blocks, pos, k as int) && next.phase == CastPhase::Mended(k)
                        && action == CastAction::BuildWall(to_pos(#[trigger] cup_wall(pos, k as int)))
                ||| (forall|k: int| f <= k < 5 ==> #[trigger] wall_stands(*blocks, pos, k)) && next.phase
                    == CastPhase::Gate && action == CastAction::Centre(30)
            }
            &&& state.phase == CastPhase::Gate && cup_is_tight(*blocks, pos) ==> action
                == CastAction::PourLava && next.phase == CastPhase::PouredLava
            &&& state.phase == CastPhase::PouredLava ==> action == CastAction::BuildSplash(behind) && next.phase
                == CastPhase::Splashed
            &&& state.phase == CastPhase::Splashed ==> action == CastAction::PourWater(behind) && next.phase
                == CastPhase::Waiting(0)
        }),
{
    law_no_gap_means_tight(blocks, pos);
    match state.phase {
        CastPhase::Mended(k) => {
            law_gaps_are_found_in_order(blocks, pos, (k + 1) as u32, true);
            match first_gap(blocks, pos, (k + 1) as u32, true) {
                Some(j) => {
                    assert(to_pos(cup_wall(pos, j as int)) == to_pos(cup_wall(pos, j as int)));
                },
                None => {},
            }
        },
        _ => {
            law_gaps_are_found_in_order(blocks, pos, 0, true);
            match first_gap(blocks, pos, 0, true) {
                Some(j) => {
                    assert(to_pos(cup_wall(pos, j as int)) == to_pos(cup_wall(pos, j as int)));
                },
                None => {},
            }
        },
    }
}

/// The bot waits up to ten times for the obsidian, scoops its water up again whatever came
/// of it, and reports obsidian exactly if it was seen.
pub proof fn law_the_water_is_taken_back(state: Cast, blocks: &Blocks, pos: Pos, seen: CastSeen)
    requires
        cast_wf(state),
    ensures
        ({
            let (next, action) = cast_obsidian_at_next(state, blocks, pos, seen);
            &&& state.phase matches CastPhase::Waiting(n) ==> if is_obsidian(*blocks, pos) || n == 10 {
                action == CastAction::Reclaim && next.phase == CastPhase::Reclaimed && next.made
                    == is_obsidian(*blocks, pos)
            } else {
                action == CastAction::Wait && next.phase == CastPhase::Waiting((n + 1) as u32)
            }
            &&& state.phase == CastPhase::Reclaimed && (state.made || is_obsidian(*blocks, pos)) ==> action
                == CastAction::Done(true, true)
            &&& state.phase == CastPhase::Over ==> action == CastAction::Done(is_obsidian(*blocks, pos), false)
        }),
        is_obsidian(*blocks, pos) <==> shown_name(*blocks, pos.0 as int, pos.1 as int, pos.2 as int)
            == "obsidian"@,
{
}

/// Nothing goes wrong at this step: no step has failed, and obsidian is there once water was
/// poured.
pub open spec fn goes_well(state: Cast, blocks: Blocks, pos: Pos, seen: CastSeen) -> bool {
    &&& !cast_step_failed(state, blocks, pos, seen)
    &&& state.phase is Waiting || state.phase == CastPhase::Reclaimed ==> is_obsidian(blocks, pos)
}

proof fn lemma_clean_cast(pos: Pos, pool: Option<Pos>, base: i32, seen: Seq<(&Blocks, CastSeen)>)
    requires
        forall|i: int|
            0 <= i < seen.len() ==> goes_well(
                cast_obsidian_at_run(pos, cast_start(pool, base), #[trigger] seen.take(i)),
                *seen[i].0,
                pos,
                seen[i].1,
            ),
    ensures
        cast_wf(cast_obsidian_at_run(pos, cast_start(pool, base), seen)),
        seen.len() > 0 && !is_obsidian(*seen[0].0, pos) ==> cast_obsidian_at_run(
            pos,
            cast_start(pool, base),
            seen,
        ).left == 2,
        seen.len() > 0 ==> cast_obsidian_at_run(pos, cast_start(pool, base), seen).phase != CastPhase::Start,
        seen.len() > 0 && !is_obsidian(*seen[0].0, pos) && cast_obsidian_at_run(
            pos,
            cast_start(pool, base),
            seen,
        ).phase == CastPhase::Over ==> cast_obsidian_at_run(pos, cast_start(pool, base), seen).made,
    decreases seen.len(),
{
    let start = cast_start(pool, base);
    lemma_cast_obsidian_at_run(pos, start, seen);
    if seen.len() > 0 {
        let rest = seen.drop_last();
        let n = seen.len() - 1;
        assert forall|i: int| 0 <= i < rest.len() implies goes_well(
            cast_obsidian_at_run(pos, start, #[trigger] rest.take(i)),
            *rest[i].0,
            pos,
            rest[i].1,
        ) by {
            assert(rest.take(i) =~= seen.take(i));
            assert(rest[i] == seen[i]);
        }
        lemma_clean_cast(pos, pool, base, rest);
        assert(seen.take(n) =~= rest);
        let state = cast_obsidian_at_run(pos, start, rest);
        let (blocks, now) = seen.last();
        assert(goes_well(state, *seen[n].0, pos, seen[n].1));
        if rest.len() > 0 {
            assert(rest[0] == seen[0]);
            if state.phase != CastPhase::Over {
                law_only_failed_attempts_are_given_up(state, blocks, pos, now);
                law_casting_ends(state, blocks, pos, now);
                if state.phase == CastPhase::Reclaimed {
                    lemma_reclaimed_is_made(pos, pool, base, rest);
                }
            }
        } else {
            assert(rest =~= Seq::empty());
            assert(state == start);
        }
    }
}

proof fn lemma_reclaimed_is_made(pos: Pos, pool: Option<Pos>, base: i32, seen: Seq<(&Blocks, CastSeen)>)
    requires
        seen.len() > 0,
        cast_obsidian_at_run(pos, cast_start(pool, base), seen).phase == CastPhase::Reclaimed,
        forall|i: int|
            0 <= i < seen.len() ==> goes_well(
                cast_obsidian_at_run(pos, cast_start(pool, base), #[trigger] seen.take(i)),
                *seen[i].0,
                pos,
                seen[i].1,
            ),
    ensures
        cast_obsidian_at_run(pos, cast_start(pool, base), seen).made,
{
    let start = cast_start(pool, base);
    let n = seen.len() - 1;
    assert(seen.take(n) =~= seen.drop_last());
    lemma_cast_obsidian_at_run(pos, start, seen.drop_last());
    let state = cast_obsidian_at_run(pos, start, seen.drop_last());
    assert(goes_well(state, *seen[n].0, pos, seen[n].1));
    lemma_good_waits_make(state, seen.last().0, pos, seen.last().1);
}

proof fn lemma_good_waits_make(state: Cast, blocks: &Blocks, pos: Pos, seen: CastSeen)
    requires
        cast_wf(state),
        goes_well(state, *blocks, pos, seen),
        cast_obsidian_at_next(state, blocks, pos, seen).0.phase == CastPhase::Reclaimed,
    ensures
        cast_obsidian_at_next(state, blocks, pos, seen).0.made,
{
    law_no_gap_means_tight(blocks, pos);
}

/// A cast in which every step works, the cup is tight and obsidian appears once the water is
/// poured succeeds in its first attempt, whatever the place and the base.
pub proof fn law_a_clean_cast_succeeds_at_once(
    pos: Pos,
    pool: Option<Pos>,
    base: i32,
    seen: Seq<(&Blocks, CastSeen)>,
)
    requires
        seen.len() >= 240,
        !is_obsidian(*seen[0].0, pos),
        forall|i: int|
            0 <= i < seen.len() ==> goes_well(
                cast_obsidian_at_run(pos, cast_start(pool, base), #[trigger] seen.take(i)),
                *seen[i].0,
                pos,
                seen[i].1,
            ),
    ensures
        cast_obsidian_at_run(pos, cast_start(pool, base), seen).phase == CastPhase::Over,
        cast_obsidian_at_run(pos, cast_start(pool, base), seen).made,
        cast_obsidian_at_run(pos, cast_start(pool, base), seen).left == 2,
{
    lemma_clean_cast(pos, pool, base, seen);
    law_a_cast_takes_a_bounded_time(pos, pool, base, seen);
}

// ── what holds of the water, the panels and the site ────────────────────────

/// The water is looked for in the 5 by 5 cells around the cup, at its level and the two above,
/// the level of the pour first.
pub proof fn law_splashes_are_looked_for_around(pos: Pos, n: int)
    requires
        0 <= n < 75,
    ensures
        ({
            let c = splash_cell(pos, n);
            &&& -2 <= c.0 - pos.0 <= 2 && -2 <= c.2 - pos.2 <= 2
            &&& n < 25 ==> c.1 == pos.1 + 1
            &&& 25 <= n < 50 ==> c.1 == pos.1 + 2
            &&& 50 <= n ==> c.1 == pos.1
            &&& n % 25 == 5 * (c.0 - pos.0 + 2) + (c.2 - pos.2 + 2)
        }),
{
}

/// Every water block around the cup is listed, and nothing else.
pub proof fn law_all_splashes_are_listed(blocks: Blocks, pos: Pos, n: int, p: Pos)
    requires
        has_room(pos, 2),
        0 <= n <= 75,
    ensures
        waters_among(blocks, pos, n).contains(p) <==> exists|k: int|
            0 <= k < n && #[trigger] splash_cell(pos, k) == (p.0 as int, p.1 as int, p.2 as int)
                && occurs_in("water"@, shown_name(blocks, p.0 as int, p.1 as int, p.2 as int)),
    decreases n,
{
    let list = waters_among(blocks, pos, n);
    if n > 0 {
        law_all_splashes_are_listed(blocks, pos, n - 1, p);
        let rest = waters_among(blocks, pos, n - 1);
        let c = splash_cell(pos, n - 1);
        let q = (c.0 as i32, c.1 as i32, c.2 as i32);
        if holds_water(blocks, c) {
            assert(list == rest.push(q));
            if rest.contains(p) {
                let i = choose|i: int| 0 <= i < rest.len() && rest[i] == p;
                assert(list[i] == p);
            }
            if p == q {
                assert(list[rest.len() as int] == p);
                assert(splash_cell(pos, n - 1) == (p.0 as int, p.1 as int, p.2 as int));
            }
            if list.contains(p) && p != q {
                let i = choose|i: int| 0 <= i < list.len() && list[i] == p;
                assert(rest[i] == p);
            }
        }
    }
}

/// The bucket is tried on every listed water block in turn, and the list is made three times,
/// before the bot goes without: it stops exactly with a full bucket, with nothing to scoop, or
/// after the third round.
pub proof fn law_the_bucket_is_tried_on_all_water(phase: ReclaimPhase, water_buckets: i32, waters: Seq<Pos>)
    requires
        waters.len() < usize::MAX,
    ensures
        ({
            let (next, action) = reclaim_water_next(phase, water_buckets, waters);
            let empty = water_buckets < 1;
            &&& phase == ReclaimPhase::Start && empty ==> action == ReclaimAction::List && next
                == ReclaimPhase::Trying(2, 0)
            &&& phase matches ReclaimPhase::Trying(left, i) ==> {
                &&& empty && i < waters.len() ==> action == ReclaimAction::Scoop(waters[i as int]) && next
                    == ReclaimPhase::Trying(left, (i + 1) as usize)
                &&& empty && i >= waters.len() && waters.len() > 0 && left > 0 ==> action
                    == ReclaimAction::List && next == ReclaimPhase::Trying((left - 1) as u32, 0)
                &&& action == ReclaimAction::Stop <==> !empty || (i >= waters.len() && (waters.len() == 0 || left
                    == 0))
            }
            &&& action == ReclaimAction::Stop <==> next == ReclaimPhase::Over
        }),
{
}

/// The backing wall and the interior: four columns of five behind the frame, and two of three
/// inside it.
pub proof fn law_panels_are_where_they_belong(dx: int, dy: int, dz: int)
    ensures
        ({
            let b = backing_panel();
            b.first <= dx <= b.last && b.low <= dy <= b.high && dz == b.z <==> 0 <= dx <= 3 && 0 <= dy <= 4
                && dz == -1
        }),
        ({
            let i = inner_panel();
            i.first <= dx <= i.last && i.low <= dy <= i.high && dz == i.z <==> 1 <= dx <= 2 && 1 <= dy <= 3
                && dz == 0
        }),
        backing_panel().from == -2,
        inner_panel().from == 1,
{
}

/// A panel is built without gaps: column after column from the ground up, each block once the
/// bot is up to its level. Only a pillar that fails leaves the rest of a column out.
pub proof fn law_panels_are_built_without_gaps(panel: Panel, anchor: Pos, phase: WallPhase, seen: WallSeen)
    requires
        panel_wf(panel, anchor, phase),
    ensures
        ({
            let (next, action) = build_panel_next(panel, anchor, phase, seen);
            let column = match phase {
                WallPhase::Start => Some(panel.first as int),
                WallPhase::Level(x, y) => if y > panel.high {
                    Some(x + 1)
                } else {
                    None
                },
                WallPhase::Raised(x, y) => if seen.ok {
                    None
                } else {
                    Some(x + 1)
                },
                WallPhase::Over => None,
            };
            let up = match phase {
                WallPhase::Level(x, y) => y <= panel.high && seen.feet >= anchor.1 + y,
                WallPhase::Raised(x, y) => seen.ok,
                _ => false,
            };
            &&& column matches Some(x) ==> if x > panel.last {
                action == WallAction::Finish && next == WallPhase::Over
            } else {
                &&& next == WallPhase::Level(x as i32, panel.low)
                &&& action matches WallAction::GoTo(p) && p.0 == anchor.0 + x && p.1 == anchor.1 && p.2
                    == anchor.2 + panel.from
            }
            &&& phase matches WallPhase::Level(x, y) ==> (y <= panel.high && seen.feet < anchor.1 + y ==> action
                == WallAction::PillarTo((anchor.1 + y) as i32) && next == WallPhase::Raised(x, y))
            &&& up ==> (action matches WallAction::Place(p) && match phase {
                WallPhase::Level(x, y) | WallPhase::Raised(x, y) => p.0 == anchor.0 + x && p.1 == anchor.1 + y
                    && p.2 == anchor.2 + panel.z && next == WallPhase::Level(x, (y + 1) as i32),
                _ => false,
            })
            &&& action == WallAction::Finish <==> next == WallPhase::Over
        }),
        build_backing_next(anchor, phase, seen) == build_panel_next(backing_panel(), anchor, phase, seen),
        build_inner_fill_next(anchor, phase, seen) == build_panel_next(inner_panel(), anchor, phase, seen),
{
}

/// A cell touches lava if it is lava or shares a face with some, and only then.
pub proof fn law_lava_touches_over_faces(blocks: Blocks, c: Pos)
    ensures
        touches_lava(blocks, c) <==> exists|dx: int, dy: int, dz: int|
            dx * dx + dy * dy + dz * dz <= 1 && #[trigger] lava_cell(blocks, c.0 + dx, c.1 + dy, c.2 + dz),
{
    let (x, y, z) = (c.0 as int, c.1 as int, c.2 as int);
    if touches_lava(blocks, c) {
        if lava_cell(blocks, x, y, z) {
            assert(lava_cell(blocks, x + 0, y + 0, z + 0));
        } else if lava_cell(blocks, x + 1, y, z) {
            assert(lava_cell(blocks, x + 1, y + 0, z + 0));
        } else if lava_cell(blocks, x - 1, y, z) {
            assert(lava_cell(blocks, x + (-1), y + 0, z + 0));
        } else if lava_cell(blocks, x, y + 1, z) {
            assert(lava_cell(blocks, x + 0, y + 1, z + 0));
        } else if lava_cell(blocks, x, y - 1, z) {
            assert(lava_cell(blocks, x + 0, y + (-1), z + 0));
        } else if lava_cell(blocks, x, y, z + 1) {
            assert(lava_cell(blocks, x + 0, y + 0, z + 1));
        } else {
            assert(lava_cell(blocks, x + 0, y + 0, z + (-1)));
        }
    }
    if exists|dx: int, dy: int, dz: int|
        dx * dx + dy * dy + dz * dz <= 1 && #[trigger] lava_cell(blocks, x + dx, y + dy, z + dz) {
        let (dx, dy, dz) = choose|dx: int, dy: int, dz: int|
            dx * dx + dy * dy + dz * dz <= 1 && #[trigger] lava_cell(blocks, x + dx, y + dy, z + dz);
        assert((dx == 0 && dy == 0 && dz == 0) || ((dx == 1 || dx == -1) && dy == 0 && dz == 0) || ((dy == 1
            || dy == -1) && dx == 0 && dz == 0) || ((dz == 1 || dz == -1) && dx == 0 && dy == 0))
            by (nonlinear_arith)
            requires
                dx * dx + dy * dy + dz * dz <= 1,
        ;
    }
}

/// The floor lies one below the frame and the working line, each of its cells once.
pub proof fn law_the_floor_is_under_the_frame(anchor: Pos, c: Pos, m: u32, n: u32)
    requires
        has_room(anchor, 7),
        m < FLOOR,
        n < FLOOR,
    ensures
        floor_cell(anchor, m) == floor_cell(anchor, n) ==> m == n,
        (exists|k: u32| k < FLOOR && #[trigger] floor_cell(anchor, k) == c) <==> (-1 <= c.0 - anchor.0 <= 4
            && c.1 == anchor.1 - 1 && -1 <= c.2 - anchor.2 <= 2),
{
    let (dx, dz) = (c.0 - anchor.0, c.2 - anchor.2);
    if -1 <= dx <= 4 && c.1 == anchor.1 - 1 && -1 <= dz <= 2 {
        let k = 4 * (dx + 1) + (dz + 1);
        assert(k / 4 == dx + 1 && k % 4 == dz + 1);
        assert(floor_cell(anchor, k as u32) == c);
    }
}

/// What is cleared or laid next is the first cell in order that wants it, and none is left
/// out.
pub proof fn law_no_cell_is_left_out(blocks: &Blocks, anchor: Pos, from: u32)
    ensures
        match first_to_clear(blocks, anchor, from) {
            Some(n) => from <= n < CHAMBER && wants_clearing(*blocks, chamber_cell(anchor, n)) && forall|k: u32|
                from <= k < n ==> !wants_clearing(*blocks, #[trigger] chamber_cell(anchor, k)),
            None => forall|k: u32|
                from <= k < CHAMBER ==> !wants_clearing(*blocks, #[trigger] chamber_cell(anchor, k)),
        },
    decreases CHAMBER - from,
{
    if from < CHAMBER {
        law_no_cell_is_left_out(blocks, anchor, (from + 1) as u32);
    }
}

/// What is laid next is the first cell of the floor in order that wants a block, and none is
/// left out.
pub proof fn law_no_gap_in_the_floor_is_left_out(blocks: &Blocks, anchor: Pos, from: u32)
    ensures
        match first_to_floor(blocks, anchor, from) {
            Some(n) => from <= n < FLOOR && wants_floor(*blocks, floor_cell(anchor, n)) && forall|k: u32|
                from <= k < n ==> !wants_floor(*blocks, #[trigger] floor_cell(anchor, k)),
            None => forall|k: u32|
                from <= k < FLOOR ==> !wants_floor(*blocks, #[trigger] floor_cell(anchor, k)),
        },
    decreases FLOOR - from,
{
    if from < FLOOR {
        law_no_gap_in_the_floor_is_left_out(blocks, anchor, (from + 1) as u32);
    }
}

/// What is in the way is dug unless lava touches it, and what is missing of the floor is laid
/// likewise.
pub proof fn law_what_wants_work(blocks: Blocks, c: Pos)
    ensures
        wants_clearing(blocks, c) <==> may_clear_name(shown_name(blocks, c.0 as int, c.1 as int, c.2 as int))
            && !touches_lava(blocks, c),
        wants_floor(blocks, c) <==> !is_solid_cell(blocks, c.0 as int, c.1 as int, c.2 as int)
            && !touches_lava(blocks, c),
{
}

/// Lava is looked for nine times, ever deeper until cave depth, and the bot gives up only after
/// that or with the time up. Beside the pool it finds, six to the east, it clears the chamber,
/// lays the floor, fills a bucket where it can and goes back, and reports the pool exactly if
/// a lava bucket is ready.
pub proof fn law_a_site_is_prepared_in_order(state: Site, blocks: &Blocks, seen: SiteSeen)
    requires
        site_wf(state),
        site_counts(state.phase),
        seen.lava matches Some(p) ==> has_room(p, 13),
    ensures
        ({
            let (next, action) = prepare_cast_site_next(state, blocks, seen);
            &&& state.phase == SitePhase::Start ==> action == SiteAction::Look && next.phase
                == SitePhase::Scanned(8)
            &&& state.phase matches SitePhase::Scanned(left) ==> match seen.lava {
                Some(p) => next.lava == p && next.phase == SitePhase::Standing && (action matches SiteAction::GoTo(
                    q,
                ) && q.0 == p.0 + 6 && q.1 == p.1 + 1 && q.2 == p.2),
                None => {
                    &&& action == SiteAction::Done(None) <==> left == 0 || seen.late
                    &&& left > 0 && !seen.late ==> action == SiteAction::LookDeeper(seen.feet > 13)
                        && next.phase == SitePhase::Scanned((left - 1) as u32)
                },
            }
            &&& state.phase == SitePhase::Standing ==> next.anchor.0 == state.lava.0 + 6 && next.anchor.1
                == seen.feet && next.anchor.2 == state.lava.2
            &&& state.phase != SitePhase::Standing ==> next.anchor == state.anchor
            &&& !(state.phase is Scanned) ==> next.lava == state.lava
            &&& state.phase == SitePhase::Filled ==> action == SiteAction::Return(state.anchor) && next.phase
                == SitePhase::Returned
            &&& state.phase == SitePhase::Returned ==> (action == SiteAction::Done(Some(state.lava)) <==> seen.lava_buckets
                >= 1) && (action == SiteAction::Done(None) <==> seen.lava_buckets < 1)
            &&& state.phase != SitePhase::Over ==> (next.phase == SitePhase::Over <==> action is Done)
        }),
        site_start().phase == SitePhase::Start,
{
}

/// As long as a cell of the chamber wants clearing and there is time, the first one is dug;
/// then the first cell that wants it is laid; and with both done the lava bucket is filled
/// where it is wanting and there is an empty one.
pub proof fn law_the_chamber_is_finished(state: Site, blocks: &Blocks, seen: SiteSeen)
    requires
        site_wf(state),
        site_counts(state.phase),
        state.phase == SitePhase::Standing || state.phase is Clearing || state.phase is Flooring,
    ensures
        ({
            let (next, action) = prepare_cast_site_next(state, blocks, seen);
            let anchor = next.anchor;
            let clearing = match state.phase {
                SitePhase::Standing => Some(0u32),
                SitePhase::Clearing(from) => Some(from),
                _ => None,
            };
            let flooring = match state.phase {
                SitePhase::Flooring(from) => from,
                _ => 0u32,
            };
            let late = (clearing matches Some(from) && from < CHAMBER) && seen.late;
            let cleared = clearing matches Some(from) ==> first_to_clear(blocks, anchor, from) is None;
            &&& late <==> action == SiteAction::Done(None)
            &&& !late && !cleared ==> {
                let n = first_to_clear(blocks, anchor, clearing->0)->0;
                action == SiteAction::Dig(chamber_cell(anchor, n)) && next.phase == SitePhase::Clearing(
                    (n + 1) as u32,
                )
            }
            &&& !late && cleared ==> match first_to_floor(blocks, anchor, flooring) {
                Some(n) => action == SiteAction::Lay(floor_cell(anchor, n)) && next.phase
                    == SitePhase::Flooring((n + 1) as u32),
                None => if seen.lava_buckets < 1 && seen.buckets >= 1 {
                    action == SiteAction::FillLava && next.phase == SitePhase::Filled
                } else {
                    action == SiteAction::Return(anchor) && next.phase == SitePhase::Returned
                },
            }
        }),
{
}

// ── what holds of the whole portal ──────────────────────────────────────────

/// The interior is two wide and three high, and dug out one deep to the front.
pub proof fn law_the_interior_is_dug_out(anchor: Pos, c: Pos, m: u32, n: u32)
    requires
        has_room(anchor, 7),
        m < INTERIOR,
        n < INTERIOR,
    ensures
        interior_cell(anchor, m) == interior_cell(anchor, n) ==> m == n,
        (exists|k: u32| k < INTERIOR && #[trigger] interior_cell(anchor, k) == c) <==> (1 <= c.0 - anchor.0 <= 2
            && 1 <= c.1 - anchor.1 <= 3 && 0 <= c.2 - anchor.2 <= 1),
{
    let (dx, dy, dz) = (c.0 - anchor.0, c.1 - anchor.1, c.2 - anchor.2);
    if 1 <= dx <= 2 && 1 <= dy <= 3 && 0 <= dz <= 1 {
        let k = 6 * (dx - 1) + 2 * (dy - 1) + dz;
        assert(k / 6 == dx - 1 && (k / 2) % 3 == dy - 1 && k % 2 == dz);
        assert(interior_cell(anchor, k as u32) == c);
    }
}

/// The frame lies in the plane of its anchor, bottom row first.
pub proof fn law_the_frame_stands_upright(anchor: Pos, k: u32)
    requires
        has_room(anchor, 7),
        k < FRAME,
    ensures
        frame_cell(anchor, k).0 == anchor.0 + frame_offset(k).0,
        frame_cell(anchor, k).1 == anchor.1 + frame_offset(k).1,
        frame_cell(anchor, k).2 == anchor.2,
        frame_offset(k).1 == 0 <==> k < 2,
{
}

/// How much of a frame stands is how many of its blocks are obsidian: one more block counts
/// one more.
pub proof fn law_the_frame_is_counted_block_by_block(blocks: Blocks, anchor: Pos, n: u32)
    requires
        n < FRAME,
    ensures
        cast_among(blocks, anchor, 0) == 0,
        cast_among(blocks, anchor, (n + 1) as u32) - cast_among(blocks, anchor, n) == (if is_cast(
            blocks,
            anchor,
            n,
        ) {
            1int
        } else {
            0
        }),
        is_cast(blocks, anchor, n) <==> is_obsidian(blocks, frame_cell(anchor, n)),
{
}

/// The portal is built and lit: the task ends without one exactly for want of blocks, of lava
/// or of a bucket, because a block could not be cast or is missing in the end, for want of
/// flint and steel, or because the portal does not light on either block.
pub proof fn law_the_portal_fails_for_a_reason(state: Portal, blocks: &Blocks, seen: PortalSeen)
    requires
        state.phase != PortalPhase::Over,
        portal_wf(state),
    ensures
        ({
            let (next, action) = build_nether_portal_next(state, blocks, seen);
            let end = action->Done_0;
            let lit = shown_name(
                *blocks,
                state.anchor.0 + 1,
                state.anchor.1 + 1,
                state.anchor.2 as int,
            ) == "nether_portal"@;
            let whole = cast_among(*blocks, state.anchor, FRAME) >= 10;
            &&& action is Done <==> next.phase == PortalPhase::Over
            &&& action is Done && end == PortalEnd::TooFewBlocks <==> state.phase == PortalPhase::Start
                && seen.obsidian_near < 10 && seen.cobble + seen.dirt < 30
            &&& action is Done && end == PortalEnd::NoLava <==> state.phase == PortalPhase::Prepared
                && !seen.ready
            &&& action is Done && end == PortalEnd::NoLavaBucket <==> state.phase == PortalPhase::Prepared
                && seen.ready && seen.lava_buckets < 1
            &&& action is Done && end == PortalEnd::NoWaterBucket <==> state.phase == PortalPhase::Prepared
                && seen.ready && seen.lava_buckets >= 1 && seen.water_buckets + seen.buckets < 1
            &&& action is Done && end is CastFailed <==> state.phase is Cast && !seen.ok
            &&& state.phase matches PortalPhase::Cast(k) ==> (!seen.ok ==> end == PortalEnd::CastFailed(
                k,
                frame_cell(state.anchor, k),
            ))
            &&& action is Done && end is FrameIncomplete <==> state.phase == PortalPhase::Opened && !whole
            &&& action is Done && end == PortalEnd::NoFlintAndSteel <==> state.phase == PortalPhase::Opened
                && whole && seen.flint_and_steel < 1
            &&& action is Done && end == PortalEnd::WouldNotLight <==> state.phase == PortalPhase::Lit(1)
                && !lit
            &&& action is Done && end is Lit <==> state.phase is Lit && lit
            &&& action is Done && end is FrameIncomplete ==> end == PortalEnd::FrameIncomplete(
                cast_among(*blocks, state.anchor, FRAME) as i32,
            )
        }),
{
}

/// As long as nothing is wanting, the work goes on: the site, the ten blocks from the first to
/// the last with the interior filled after the second, the interior opened, and the lighting,
/// on the first block and then on the second. Obsidian for a frame nearby makes the site
/// unnecessary.
pub proof fn law_the_portal_is_built_in_order(state: Portal, blocks: &Blocks, seen: PortalSeen)
    requires
        portal_wf(state),
    ensures
        ({
            let (next, action) = build_nether_portal_next(state, blocks, seen);
            let ready = seen.ready && seen.lava_buckets >= 1 && seen.water_buckets + seen.buckets >= 1;
            &&& (state.phase == PortalPhase::Start && seen.obsidian_near >= 10) || (state.phase
                == PortalPhase::Prepared && ready) ==> action == PortalAction::Cast(0) && next.phase
                == PortalPhase::Cast(0) && next.anchor == seen.at
            &&& state.phase == PortalPhase::Start && seen.obsidian_near < 10 && seen.cobble + seen.dirt >= 30
                ==> action == PortalAction::PrepareSite && next.phase == PortalPhase::Prepared
            &&& state.phase matches PortalPhase::Cast(k) ==> (seen.ok ==> {
                &&& k == 1 ==> action == PortalAction::FillInterior && next.phase == PortalPhase::InnerFilled
                &&& k != 1 && k < 9 ==> action == PortalAction::Cast((k + 1) as u32) && next.phase
                    == PortalPhase::Cast((k + 1) as u32)
                &&& k == 9 ==> action == PortalAction::OpenInterior && next.phase == PortalPhase::Opened
            })
            &&& state.phase == PortalPhase::InnerFilled ==> action == PortalAction::Cast(2) && next.phase
                == PortalPhase::Cast(2)
            &&& state.phase == PortalPhase::Opened && cast_among(*blocks, state.anchor, FRAME) >= 10
                && seen.flint_and_steel >= 1 ==> action == PortalAction::Light(frame_cell(state.anchor, 0))
                && next.phase == PortalPhase::Lit(0)
            &&& state.phase == PortalPhase::Lit(0) && !is_lit(*blocks, state.anchor) ==> action
                == PortalAction::Light(frame_cell(state.anchor, 1)) && next.phase == PortalPhase::Lit(1)
        }),
{
}

/// The bot stays with the portal: it walks there six times, waits twenty times each and helps
/// itself along once, and stops before that exactly if the dimension has changed.
pub proof fn law_the_bot_waits_in_the_portal(state: Enter, changed: bool)
    requires
        enter_wf(state),
    ensures
        ({
            let (next, action) = enter_nether_next(state, changed);
            let again = state.phase == EnterPhase::Top || (state.phase == EnterPhase::Nudged && !changed);
            &&& action == EnterAction::Done(true) <==> changed && state.phase != EnterPhase::Top
            &&& action is Done ==> next.phase == EnterPhase::Over
            &&& again ==> if state.left == 0 {
                action == EnterAction::Done(false) && next.phase == EnterPhase::Over
            } else {
                action == EnterAction::WalkAndWait && next.phase == EnterPhase::Waited(1) && next.left
                    == state.left - 1
            }
            &&& state.phase matches EnterPhase::Waited(n) ==> (!changed ==> next.left == state.left && if n < 20 {
                action == EnterAction::Wait && next.phase == EnterPhase::Waited((n + 1) as u32)
            } else {
                action == EnterAction::Nudge && next.phase == EnterPhase::Nudged
            })
        }),
{
}

/// A place is written as its three coordinates with commas between, and a report of the portal
/// says what is wanting, where it got stuck, or where it is lit.
pub proof fn law_portal_reports_say_what_came_of_it(p: Pos, n: u32, m: i32)
    ensures
        place_text(p) == number(p.0 as int) + (","@ + (number(p.1 as int) + (","@ + number(p.2 as int)))),
        portal_text(PortalEnd::TooFewBlocks) == "need ~30 cobble/dirt to scaffold the cast"@,
        portal_text(PortalEnd::NoLava) == "no lava pool found / lava bucket not filled"@,
        portal_text(PortalEnd::NoLavaBucket) == "need a lava bucket to cast obsidian"@,
        portal_text(PortalEnd::NoWaterBucket) == "need a water/empty bucket to cast obsidian"@,
        portal_text(PortalEnd::CastFailed(n, p)) == "cast "@ + (number(n as int) + ("/10 — stuck at "@
            + place_text(p))),
        portal_text(PortalEnd::FrameIncomplete(m)) == "only "@ + (number(m as int) + "/10 obsidian present"@),
        portal_text(PortalEnd::NoFlintAndSteel) == "frame cast but no flint & steel to light it"@,
        portal_text(PortalEnd::WouldNotLight) == "frame cast (10/10) but portal would not light"@,
        portal_text(PortalEnd::Lit(p)) == "nether portal cast & lit at "@ + place_text(p),
{
    assert(place_text(p) =~= number(p.0 as int) + (","@ + (number(p.1 as int) + (","@ + number(p.2 as int)))));
    assert(portal_text(PortalEnd::CastFailed(n, p)) =~= "cast "@ + (number(n as int) + ("/10 — stuck at "@
        + place_text(p))));
    assert(portal_text(PortalEnd::FrameIncomplete(m)) =~= "only "@ + (number(m as int)
        + "/10 obsidian present"@));
}

} // verus!
