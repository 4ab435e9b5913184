//! Mining: gather a target count of a block, digging down to reach it where there
//! is none in reach.

use crate::items::{find_from, fits, slot_named, tally, tally_by, tally_fits, Stack};
use crate::memory::{
    is_nearest, is_nearest_row, is_settled, lemma_spot_of_list, nearest_from, no_row_usable, none_usable,
    observed_row, recorded_row, row_at, storage_key, Poi, PoiKind, PoiStatus, Pos, Row, WorldMemory,
};
use crate::scan::{found_near, lemma_found_near, Search};
use crate::state::{
    counted_by, counts_slots, has_slot_of, lemma_stock_is_never_negative, pickaxe_of, stock, stock_of,
    Counter,
};
use crate::store::StoredPoi;
use crate::tasks::log_search::{contains_pos, BlockKind};
use crate::tasks::report::{count_message, count_text, ratio_message, ratio_text, word_message};
use crate::text::{contains, ends_with, is_tail, number, occurs_in, push_number, same};
use crate::types::{failure, success, Inventory, StepResult, Tier};
use crate::world::{
    block_name, block_state, has_room, is_liquid_at, is_named_at, liquid_at, name_of, named_at,
    state_of, Blocks, States,
};
use std::collections::HashMap;
use vstd::prelude::*;

verus! {

broadcast use vstd::std_specs::hash::group_hash_axioms;

/// Remembers where the bot enters the underground: the surface spot a mining run
/// starts from, so that it can navigate back up to it later.
pub fn record_descent(mem: &mut WorldMemory, at: Pos) -> (stored: bool)
    requires
        old(mem).clock() < i64::MAX,
    ensures
        final(mem).clock() == old(mem).clock() + 1,
        final(mem).events() == old(mem).events(),
        ({
            let after = old(mem).pois().insert(
                at,
                recorded_row(PoiKind::DescentPoint, PoiStatus::Available, final(mem).clock()),
            );
            &&& stored ==> final(mem).pois() == after
            &&& !stored ==> final(mem).pois() == after || final(mem).pois() == old(mem).pois()
        }),
        final(mem).place() == old(mem).place(),
        old(mem).in_time() ==> final(mem).in_time(),
{
    mem.record(PoiKind::DescentPoint, at, PoiStatus::Available)
}

pub open spec fn cobble_name() -> spec_fn(Seq<char>) -> bool {
    |n: Seq<char>| n == "cobblestone"@ || n == "cobbled_deepslate"@
}

/// Cobblestone (deepslate too) count: the drops from mining stone.
pub fn count_cobble(slots: &Vec<Option<Stack>>) -> (r: i32)
    requires
        tally_fits(slots@, cobble_name()),
    ensures
        r == tally(slots@, cobble_name()),
{
    let test = |n: &str| -> (b: bool)
        ensures b == (n@ == "cobblestone"@ || n@ == "cobbled_deepslate"@)
    {
        same(n, "cobblestone") || same(n, "cobbled_deepslate")
    };
    tally_by(slots, test, Ghost(cobble_name()))
}

pub open spec fn is_stone_name(n: Seq<char>) -> bool {
    ||| n == "stone"@
    ||| n == "cobblestone"@
    ||| n == "deepslate"@
    ||| n == "cobbled_deepslate"@
    ||| n == "andesite"@
    ||| n == "diorite"@
    ||| n == "granite"@
    ||| n == "tuff"@
}

pub fn is_stone(name: &str) -> (r: bool)
    ensures
        r == is_stone_name(name@),
{
    same(name, "stone") || same(name, "cobblestone") || same(name, "deepslate") || same(
        name,
        "cobbled_deepslate",
    ) || same(name, "andesite") || same(name, "diorite") || same(name, "granite") || same(
        name,
        "tuff",
    )
}

pub open spec fn stone_at(blocks: Blocks, x: int, y: int, z: int) -> bool {
    block_name(blocks, x, y, z) matches Some(n) && is_stone_name(n)
}

pub fn is_stone_at(blocks: &Blocks, x: i32, y: i32, z: i32) -> (r: bool)
    ensures
        r == stone_at(*blocks, x as int, y as int, z as int),
{
    match name_of(blocks, x, y, z) {
        Some(n) => is_stone(n),
        None => false,
    }
}

/// The cube of offsets up to `r` out.
pub open spec fn cube(r: i32) -> Search {
    Search {
        lo: ((-r) as i32, (-r) as i32, (-r) as i32),
        hi: (r, r, r),
        columns: false,
        shun_below: false,
    }
}

pub open spec fn stone_from(blocks: Blocks, at: Pos) -> spec_fn(int, int, int) -> bool {
    |dx: int, dy: int, dz: int| stone_at(blocks, at.0 + dx, at.1 + dy, at.2 + dz)
}

/// Nearest stone block within `r` of the bot, in sight or not.
pub fn find_stone(blocks: &Blocks, at: Pos, r: i32) -> (found: Option<Pos>)
    requires
        i32::MIN < r,
        has_room(at, r as int),
    ensures
        found matches Some(p) ==> cube(r).picks(
            stone_from(*blocks, at),
            (p.0 - at.0, p.1 - at.1, p.2 - at.2),
        ),
        found is None ==> cube(r).misses(stone_from(*blocks, at)),
        found == found_near(cube(r), stone_from(*blocks, at), at),
{
    let search = Search { lo: (-r, -r, -r), hi: (r, r, r), columns: false, shun_below: false };
    let test = |dx: i32, dy: i32, dz: i32| -> (b: bool)
        requires search.covers(dx as int, dy as int, dz as int)
        ensures b == stone_at(*blocks, at.0 + dx, at.1 + dy, at.2 + dz)
    {
        is_stone_at(blocks, at.0 + dx, at.1 + dy, at.2 + dz)
    };
    let found: Option<Pos> = match search.nearest(test, Ghost(stone_from(*blocks, at))) {
        Some(d) => Some((at.0 + d.0, at.1 + d.1, at.2 + d.2)),
        None => None,
    };
    proof {
        lemma_found_near(cube(r), stone_from(*blocks, at), at, found);
    }
    found
}

/// The box in which gravel is looked for.
pub open spec fn gravel_reach() -> Search {
    Search { lo: (-20i32, -12i32, -20i32), hi: (20, 6, 20), columns: false, shun_below: false }
}

pub open spec fn gravel_from(blocks: Blocks, at: Pos) -> spec_fn(int, int, int) -> bool {
    |dx: int, dy: int, dz: int| named_at(blocks, "gravel"@, at.0 + dx, at.1 + dy, at.2 + dz)
}

/// Nearest gravel, up to 20 blocks out, 12 down and 6 up.
pub fn find_gravel(blocks: &Blocks, at: Pos) -> (found: Option<Pos>)
    requires
        has_room(at, 20),
    ensures
        found matches Some(p) ==> gravel_reach().picks(
            gravel_from(*blocks, at),
            (p.0 - at.0, p.1 - at.1, p.2 - at.2),
        ),
        found is None ==> gravel_reach().misses(gravel_from(*blocks, at)),
        found == found_near(gravel_reach(), gravel_from(*blocks, at), at),
{
    let search = Search { lo: (-20, -12, -20), hi: (20, 6, 20), columns: false, shun_below: false };
    let test = |dx: i32, dy: i32, dz: i32| -> (b: bool)
        requires search.covers(dx as int, dy as int, dz as int)
        ensures b == named_at(*blocks, "gravel"@, at.0 + dx, at.1 + dy, at.2 + dz)
    {
        is_named_at(blocks, "gravel", at.0 + dx, at.1 + dy, at.2 + dz)
    };
    let found: Option<Pos> = match search.nearest(test, Ghost(gravel_from(*blocks, at))) {
        Some(d) => Some((at.0 + d.0, at.1 + d.1, at.2 + d.2)),
        None => None,
    };
    proof {
        lemma_found_near(gravel_reach(), gravel_from(*blocks, at), at, found);
    }
    found
}

// ── going down ──────────────────────────────────────────────────────────────

/// What breaking the block under the feet would do.
#[derive(Debug, Clone, Copy, PartialEq, Eq, Structural)]
pub enum DownPlan {
    /// Too dangerous, or the bottom of the world.
    Refuse,
    /// Already open: let physics drop the bot.
    Fall,
    Dig,
}

/// The block is liquid, sits on liquid or has liquid beside it.
pub open spec fn liquid_touches(blocks: Blocks, x: int, y: int, z: int) -> bool {
    ||| liquid_at(blocks, x, y, z)
    ||| liquid_at(blocks, x, y - 1, z)
    ||| liquid_at(blocks, x + 1, y, z)
    ||| liquid_at(blocks, x - 1, y, z)
    ||| liquid_at(blocks, x, y, z + 1)
    ||| liquid_at(blocks, x, y, z - 1)
}

/// Nothing but air for three blocks under the block.
pub open spec fn over_a_drop(states: States, x: int, y: int, z: int) -> bool {
    &&& block_state(states, x, y - 1, z) == 0
    &&& block_state(states, x, y - 2, z) == 0
    &&& block_state(states, x, y - 3, z) == 0
}

pub open spec fn down_plan(blocks: Blocks, states: States, block: Pos, min_y: int) -> DownPlan {
    let (x, y, z) = (block.0 as int, block.1 as int, block.2 as int);
    if liquid_touches(blocks, x, y, z) || over_a_drop(states, x, y, z) || y <= min_y + 4 {
        DownPlan::Refuse
    } else if block_state(states, x, y, z) == 0 {
        DownPlan::Fall
    } else {
        DownPlan::Dig
    }
}

/// Whether to mine `block`, the block that the bot stands on. Never a block that
/// is liquid, sits directly above liquid or has liquid beside it (which would
/// flood the hole): the caller tunnels around aquifers and lava instead of
/// dropping into them. Nor the floor over a deep drop, nor the bottom of the
/// world.
pub fn plan_dig_down(blocks: &Blocks, states: &States, block: Pos, min_y: i32) -> (r: DownPlan)
    requires
        has_room(block, 3),
    ensures
        r == down_plan(*blocks, *states, block, min_y as int),
{
    let (x, y, z) = block;
    if is_liquid_at(blocks, x, y, z) || is_liquid_at(blocks, x, y - 1, z) || is_liquid_at(
        blocks,
        x + 1,
        y,
        z,
    ) || is_liquid_at(blocks, x - 1, y, z) || is_liquid_at(blocks, x, y, z + 1) || is_liquid_at(
        blocks,
        x,
        y,
        z - 1,
    ) {
        return DownPlan::Refuse;
    }
    if state_of(states, x, y - 1, z) == 0 && state_of(states, x, y - 2, z) == 0 && state_of(
        states,
        x,
        y - 3,
        z,
    ) == 0 {
        return DownPlan::Refuse;
    }
    if y as i64 <= min_y as i64 + 4 {
        return DownPlan::Refuse;
    }
    if state_of(states, x, y, z) == 0 {
        DownPlan::Fall
    } else {
        DownPlan::Dig
    }
}

#[derive(Debug, Clone, Copy, PartialEq, Eq, Structural)]
pub enum DownPhase {
    Start,
    /// Has dropped through an open cell.
    Fallen,
    /// Has dug the block.
    Dug,
    /// Has waited for the fall.
    Landed,
    Over,
}

#[derive(Debug, Clone, Copy, PartialEq, Eq, Structural)]
pub struct DownSeen {
    /// The dig went through.
    pub dug: bool,
    /// The bot is more than half a block lower than before the dig.
    pub lower: bool,
}

#[derive(Debug, Clone, Copy, PartialEq, Eq)]
pub enum DownAction {
    /// Let eight ticks pass.
    Wait,
    Dig(Pos),
    Done(bool),
}

/// What `dig_down` does next.
pub open spec fn dig_down_next(
    phase: DownPhase,
    blocks: &Blocks,
    states: &States,
    block: Pos,
    min_y: i32,
    seen: DownSeen,
) -> (DownPhase, DownAction) {
    match phase {
        DownPhase::Start => match down_plan(*blocks, *states, block, min_y as int) {
            DownPlan::Refuse => (DownPhase::Over, DownAction::Done(false)),
            DownPlan::Fall => (DownPhase::Fallen, DownAction::Wait),
            DownPlan::Dig => (DownPhase::Dug, DownAction::Dig(block)),
        },
        DownPhase::Fallen => (DownPhase::Over, DownAction::Done(true)),
        DownPhase::Dug => {
            if seen.dug {
                (DownPhase::Landed, DownAction::Wait)
            } else {
                (DownPhase::Over, DownAction::Done(false))
            }
        },
        DownPhase::Landed => (DownPhase::Over, DownAction::Done(seen.lower)),
        DownPhase::Over => (DownPhase::Over, DownAction::Done(false)),
    }
}

/// Mines `block`, the block under the bot's feet, so that it descends one level.
/// Reports false if it cannot, and true after a dig only if the bot has actually
/// descended: a block that does not give way would otherwise be dug at forever.
pub fn dig_down(
    phase: DownPhase,
    blocks: &Blocks,
    states: &States,
    block: Pos,
    min_y: i32,
    seen: DownSeen,
) -> (r: (DownPhase, DownAction))
    requires
        has_room(block, 3),
    ensures
        r == dig_down_next(phase, blocks, states, block, min_y, seen),
{
    match phase {
        DownPhase::Start => match plan_dig_down(blocks, states, block, min_y) {
            DownPlan::Refuse => (DownPhase::Over, DownAction::Done(false)),
            DownPlan::Fall => (DownPhase::Fallen, DownAction::Wait),
            DownPlan::Dig => (DownPhase::Dug, DownAction::Dig(block)),
        },
        DownPhase::Fallen => (DownPhase::Over, DownAction::Done(true)),
        DownPhase::Dug => {
            if seen.dug {
                (DownPhase::Landed, DownAction::Wait)
            } else {
                (DownPhase::Over, DownAction::Done(false))
            }
        },
        DownPhase::Landed => (DownPhase::Over, DownAction::Done(seen.lower)),
        DownPhase::Over => (DownPhase::Over, DownAction::Done(false)),
    }
}

/// The bot never opens the floor next to water or lava, over a deep drop or at the
/// bottom of the world.
pub proof fn law_no_digging_into_danger(
    phase: DownPhase,
    blocks: &Blocks,
    states: &States,
    block: Pos,
    min_y: i32,
    seen: DownSeen,
    p: Pos,
)
    requires
        dig_down_next(phase, blocks, states, block, min_y, seen).1 == DownAction::Dig(p),
    ensures
        p == block,
        !liquid_touches(*blocks, p.0 as int, p.1 as int, p.2 as int),
        !over_a_drop(*states, p.0 as int, p.1 as int, p.2 as int),
        p.1 > min_y + 4,
{
}

/// After a dig, success means that the bot has come down.
pub proof fn law_a_dig_counts_only_if_it_led_down(
    phase: DownPhase,
    blocks: &Blocks,
    states: &States,
    block: Pos,
    min_y: i32,
    seen: DownSeen,
)
    requires
        phase == DownPhase::Dug || phase == DownPhase::Landed,
        dig_down_next(phase, blocks, states, block, min_y, seen).1 == DownAction::Done(true),
    ensures
        phase == DownPhase::Landed,
        seen.lower,
{
}

/// Head, feet, step and the block under it hold no liquid, and the world goes on
/// below.
pub open spec fn step_is_safe(blocks: Blocks, at: Pos, min_y: int, dx: i32, dz: i32) -> bool {
    &&& at.1 - 2 > min_y + 4
    &&& !liquid_at(blocks, at.0 + dx, at.1 + 1, at.2 + dz)
    &&& !liquid_at(blocks, at.0 + dx, at.1 as int, at.2 + dz)
    &&& !liquid_at(blocks, at.0 + dx, at.1 - 1, at.2 + dz)
    &&& !liquid_at(blocks, at.0 + dx, at.1 - 2, at.2 + dz)
}

/// Whether a descending stair step in direction (dx, dz) can be dug: not into water
/// or lava, nor at the bottom of the world.
pub fn can_step_down(blocks: &Blocks, at: Pos, min_y: i32, dx: i32, dz: i32) -> (r: bool)
    requires
        has_room(at, 3),
        -1 <= dx <= 1,
        -1 <= dz <= 1,
    ensures
        r == step_is_safe(*blocks, at, min_y as int, dx, dz),
{
    if at.1 as i64 - 2 <= min_y as i64 + 4 {
        return false;
    }
    let (x, y, z) = (at.0 + dx, at.1, at.2 + dz);
    !is_liquid_at(blocks, x, y + 1, z) && !is_liquid_at(blocks, x, y, z) && !is_liquid_at(
        blocks,
        x,
        y - 1,
        z,
    ) && !is_liquid_at(blocks, x, y - 2, z)
}

#[derive(Debug, Clone, Copy, PartialEq, Eq, Structural)]
pub enum StairPhase {
    Start,
    OpenedHead,
    OpenedFeet,
    OpenedStep,
    /// Has asked the pathfinder to walk onto the step.
    Walked,
    /// Has stepped forward on its own.
    Nudged,
    Over,
}

#[derive(Debug, Clone, Copy, PartialEq, Eq, Structural)]
pub struct StairSeen {
    /// The pathfinder brought the bot onto the step.
    pub moved: bool,
    /// The bot stands lower than where it started.
    pub lower: bool,
}

#[derive(Debug, Clone, Copy, PartialEq, Eq)]
pub enum StairAction {
    Dig(Pos),
    Walk(Pos),
    /// Look at the step and walk forward for ten ticks.
    Nudge(Pos),
    Done(bool),
}

/// What `descend_step` does next.
pub open spec fn descend_step_next(
    phase: StairPhase,
    blocks: &Blocks,
    at: Pos,
    min_y: i32,
    way: (i32, i32),
    seen: StairSeen,
) -> (StairPhase, StairAction) {
    let (x, z) = ((at.0 + way.0) as i32, (at.2 + way.1) as i32);
    match phase {
        StairPhase::Start => {
            if step_is_safe(*blocks, at, min_y as int, way.0, way.1) {
                (StairPhase::OpenedHead, StairAction::Dig((x, (at.1 + 1) as i32, z)))
            } else {
                (StairPhase::Over, StairAction::Done(false))
            }
        },
        StairPhase::OpenedHead => (StairPhase::OpenedFeet, StairAction::Dig((x, at.1, z))),
        StairPhase::OpenedFeet => (
            StairPhase::OpenedStep,
            StairAction::Dig((x, (at.1 - 1) as i32, z)),
        ),
        StairPhase::OpenedStep => (
            StairPhase::Walked,
            StairAction::Walk((x, (at.1 - 1) as i32, z)),
        ),
        StairPhase::Walked => {
            if seen.moved {
                (StairPhase::Over, StairAction::Done(seen.lower))
            } else {
                (StairPhase::Nudged, StairAction::Nudge((x, (at.1 - 1) as i32, z)))
            }
        },
        StairPhase::Nudged => (StairPhase::Over, StairAction::Done(seen.lower)),
        StairPhase::Over => (StairPhase::Over, StairAction::Done(false)),
    }
}

/// Digs one descending stair step in direction (dx, dz): opens head, feet and step
/// so that the bot drops one level and leaves a step that it can later walk back up.
/// Reports false if blocked: the caller should turn.
pub fn descend_step(
    phase: StairPhase,
    blocks: &Blocks,
    at: Pos,
    min_y: i32,
    way: (i32, i32),
    seen: StairSeen,
) -> (r: (StairPhase, StairAction))
    requires
        has_room(at, 3),
        -1 <= way.0 <= 1,
        -1 <= way.1 <= 1,
    ensures
        r == descend_step_next(phase, blocks, at, min_y, way, seen),
{
    let (x, z) = ((at.0 + way.0) as i32, (at.2 + way.1) as i32);
    match phase {
        StairPhase::Start => {
            if can_step_down(blocks, at, min_y, way.0, way.1) {
                (StairPhase::OpenedHead, StairAction::Dig((x, (at.1 + 1) as i32, z)))
            } else {
                (StairPhase::Over, StairAction::Done(false))
            }
        },
        StairPhase::OpenedHead => (StairPhase::OpenedFeet, StairAction::Dig((x, at.1, z))),
        StairPhase::OpenedFeet => (
            StairPhase::OpenedStep,
            StairAction::Dig((x, (at.1 - 1) as i32, z)),
        ),
        StairPhase::OpenedStep => (
            StairPhase::Walked,
            StairAction::Walk((x, (at.1 - 1) as i32, z)),
        ),
        StairPhase::Walked => {
            if seen.moved {
                (StairPhase::Over, StairAction::Done(seen.lower))
            } else {
                (StairPhase::Nudged, StairAction::Nudge((x, (at.1 - 1) as i32, z)))
            }
        },
        StairPhase::Nudged => (StairPhase::Over, StairAction::Done(seen.lower)),
        StairPhase::Over => (StairPhase::Over, StairAction::Done(false)),
    }
}

/// A step is begun only where head, feet, step and the block under it hold no liquid
/// and the world goes on below; what is dug lies straight ahead.
pub proof fn law_stairs_start_only_where_safe(
    phase: StairPhase,
    blocks: &Blocks,
    at: Pos,
    min_y: i32,
    way: (i32, i32),
    seen: StairSeen,
)
    requires
        has_room(at, 3),
        -1 <= way.0 <= 1,
        -1 <= way.1 <= 1,
    ensures
        descend_step_next(phase, blocks, at, min_y, way, seen).0 == StairPhase::OpenedHead
            ==> step_is_safe(*blocks, at, min_y as int, way.0, way.1),
        descend_step_next(phase, blocks, at, min_y, way, seen).1 matches StairAction::Dig(p) ==> p.0
            == at.0 + way.0 && p.2 == at.2 + way.1 && at.1 - 1 <= p.1 <= at.1 + 1,
{
}

/// The column that a strip tunnel in direction (dx, dz) heads for, six blocks on.
pub fn strip_tunnel(at: (i32, i32), dx: i32, dz: i32) -> (r: (i32, i32))
    requires
        -1 <= dx <= 1,
        -1 <= dz <= 1,
        i32::MIN + 6 <= at.0 <= i32::MAX - 6,
        i32::MIN + 6 <= at.1 <= i32::MAX - 6,
    ensures
        r.0 == at.0 + 6 * dx,
        r.1 == at.1 + 6 * dz,
{
    (at.0 + dx * 6, at.1 + dz * 6)
}

// ── holding a pickaxe ───────────────────────────────────────────────────────

/// Is the held item a pickaxe?
pub fn held_is_pickaxe(held: &Option<String>) -> (r: bool)
    ensures
        r == (held matches Some(name) && is_tail("_pickaxe"@, name@)),
{
    match held {
        Some(name) => ends_with(name.as_str(), "_pickaxe"),
        None => false,
    }
}

#[derive(Debug, Clone, Copy, PartialEq, Eq, Structural)]
pub enum Pickaxe {
    Netherite,
    Diamond,
    Iron,
    Stone,
    Golden,
    Wooden,
}

/// The pickaxes, best first.
pub const PICKAXES: [Pickaxe; 6] = [
    Pickaxe::Netherite,
    Pickaxe::Diamond,
    Pickaxe::Iron,
    Pickaxe::Stone,
    Pickaxe::Golden,
    Pickaxe::Wooden,
];

impl Pickaxe {
    pub open spec fn text(self) -> Seq<char> {
        match self {
            Pickaxe::Netherite => "netherite_pickaxe"@,
            Pickaxe::Diamond => "diamond_pickaxe"@,
            Pickaxe::Iron => "iron_pickaxe"@,
            Pickaxe::Stone => "stone_pickaxe"@,
            Pickaxe::Golden => "golden_pickaxe"@,
            Pickaxe::Wooden => "wooden_pickaxe"@,
        }
    }

    /// The name of the item.
    pub fn name(self) -> (r: &'static str)
        ensures
            r@ == self.text(),
    {
        match self {
            Pickaxe::Netherite => "netherite_pickaxe",
            Pickaxe::Diamond => "diamond_pickaxe",
            Pickaxe::Iron => "iron_pickaxe",
            Pickaxe::Stone => "stone_pickaxe",
            Pickaxe::Golden => "golden_pickaxe",
            Pickaxe::Wooden => "wooden_pickaxe",
        }
    }
}

/// The pickaxe is in a slot.
pub open spec fn carries(slots: Seq<Option<Stack>>, pickaxe: Pickaxe) -> bool {
    has_slot_of(slots, pickaxe.text())
}

/// The place among the pickaxes, from `from` on, of the first that is carried; 6 where
/// none is.
pub open spec fn first_carried(slots: Seq<Option<Stack>>, from: int) -> int
    decreases 6 - from,
{
    if from >= 6 {
        6
    } else if carries(slots, PICKAXES[from]) {
        from
    } else {
        first_carried(slots, from + 1)
    }
}

proof fn lemma_first_carried(slots: Seq<Option<Stack>>, from: int)
    requires
        0 <= from,
    ensures
        ({
            let k = first_carried(slots, from);
            &&& 0 <= k <= 6
            &&& from <= 6 ==> from <= k
            &&& k < 6 ==> from <= k && carries(slots, PICKAXES[k])
            &&& forall|i: int| from <= i < k ==> !carries(slots, #[trigger] PICKAXES[i])
        }),
    decreases 6 - from,
{
    if from < 6 && !carries(slots, PICKAXES[from]) {
        lemma_first_carried(slots, from + 1);
    }
}

/// The first pickaxe from `from` on that is carried.
fn find_carried(slots: &Vec<Option<Stack>>, from: usize) -> (r: usize)
    ensures
        r == first_carried(slots@, from as int),
{
    let mut k: usize = from;
    while k < 6
        invariant
            first_carried(slots@, k as int) == first_carried(slots@, from as int),
        decreases 6 - k,
    {
        let found = find_from(slots, 0, PICKAXES[k].name());
        match found {
            Some(i) => {
                assert(slot_named(slots@[i as int], PICKAXES[k as int].text()));
                return k;
            },
            None => {},
        }
        k += 1;
    }
    6
}

#[derive(Debug, Clone, Copy, PartialEq, Eq, Structural)]
pub enum EquipAction {
    /// Take this pickaxe in hand.
    Select(Pickaxe),
    /// A pickaxe is in hand, or there is none at all.
    Done(bool),
    /// There are pickaxes, and the server has put none of them in hand.
    Unconfirmed,
}

/// What `equip_pickaxe` does next.
pub open spec fn equip_pickaxe_next(tried: usize, slots: Seq<Option<Stack>>, selected: bool) -> (
    usize,
    EquipAction,
) {
    let k = first_carried(slots, tried as int);
    if tried > 0 && selected {
        (tried, EquipAction::Done(true))
    } else if k < 6 {
        ((k + 1) as usize, EquipAction::Select(PICKAXES[k]))
    } else if first_carried(slots, 0) < 6 {
        (tried, EquipAction::Unconfirmed)
    } else {
        (tried, EquipAction::Done(false))
    }
}

/// Takes the best pickaxe in hand. `tried` says how many of the pickaxes have had their
/// turn, `selected` whether the last one is in hand.
pub fn equip_pickaxe(tried: usize, slots: &Vec<Option<Stack>>, selected: bool) -> (r: (
    usize,
    EquipAction,
))
    ensures
        r == equip_pickaxe_next(tried, slots@, selected),
{
    proof {
        lemma_first_carried(slots@, tried as int);
    }
    if tried > 0 && selected {
        return (tried, EquipAction::Done(true));
    }
    let k: usize = find_carried(slots, tried);
    if k < 6 {
        (k + 1, EquipAction::Select(PICKAXES[k]))
    } else if find_carried(slots, 0) < 6 {
        (tried, EquipAction::Unconfirmed)
    } else {
        (tried, EquipAction::Done(false))
    }
}

/// What `ensure_pickaxe` does next.
pub open spec fn ensure_pickaxe_next(
    tried: usize,
    held: Option<String>,
    slots: Seq<Option<Stack>>,
    selected: bool,
) -> (usize, EquipAction) {
    if tried == 0 && (held matches Some(name) && is_tail("_pickaxe"@, name@)) {
        (tried, EquipAction::Done(true))
    } else {
        equip_pickaxe_next(tried, slots, selected)
    }
}

/// Makes sure that a pickaxe is in hand: takes the best one if the current broke.
/// Reports false if there is none at all: the caller should bail so that a
/// replacement is crafted instead of mining bare-handed (which yields nothing).
pub fn ensure_pickaxe(
    tried: usize,
    held: &Option<String>,
    slots: &Vec<Option<Stack>>,
    selected: bool,
) -> (r: (usize, EquipAction))
    ensures
        r == ensure_pickaxe_next(tried, *held, slots@, selected),
{
    if tried == 0 && held_is_pickaxe(held) {
        (tried, EquipAction::Done(true))
    } else {
        equip_pickaxe(tried, slots, selected)
    }
}

/// The bot is told that it has no pickaxe only where nothing in a slot counts as one.
pub proof fn law_no_pickaxe_means_none_at_all(
    tried: usize,
    held: Option<String>,
    slots: Seq<Option<Stack>>,
    selected: bool,
    name: Seq<char>,
    i: int,
)
    requires
        0 <= i < slots.len(),
        slot_named(slots[i], name),
        pickaxe_of(name) != Tier::Nothing,
    ensures
        equip_pickaxe_next(tried, slots, selected).1 != EquipAction::Done(false),
        ensure_pickaxe_next(tried, held, slots, selected).1 != EquipAction::Done(false),
{
    lemma_first_carried(slots, 0);
    let place: int = if name == "netherite_pickaxe"@ {
        0
    } else if name == "diamond_pickaxe"@ {
        1
    } else if name == "iron_pickaxe"@ {
        2
    } else if name == "stone_pickaxe"@ {
        3
    } else if name == "golden_pickaxe"@ {
        4
    } else {
        5
    };
    assert(PICKAXES[place].text() == name);
    assert(carries(slots, PICKAXES[place]));
}

/// Where a pickaxe stands among them.
pub open spec fn pickaxe_place(pickaxe: Pickaxe) -> int {
    match pickaxe {
        Pickaxe::Netherite => 0,
        Pickaxe::Diamond => 1,
        Pickaxe::Iron => 2,
        Pickaxe::Stone => 3,
        Pickaxe::Golden => 4,
        Pickaxe::Wooden => 5,
    }
}

/// A pickaxe that is taken in hand is carried, and no better one is: at first none that
/// is carried ranks above it, later none of those that have not had their turn.
pub proof fn law_best_pickaxe_first(
    tried: usize,
    slots: Seq<Option<Stack>>,
    selected: bool,
    taken: Pickaxe,
    other: Pickaxe,
)
    requires
        equip_pickaxe_next(tried, slots, selected).1 == EquipAction::Select(taken),
        carries(slots, other),
        pickaxe_place(other) >= tried,
    ensures
        carries(slots, taken),
        pickaxe_place(taken) <= pickaxe_place(other),
        pickaxe_rank_of(taken.text()) >= pickaxe_rank_of(other.text()),
{
    lemma_first_carried(slots, tried as int);
    assert(PICKAXES[pickaxe_place(other)] == other);
    assert(PICKAXES[pickaxe_place(taken)] == taken);
    lemma_ranks_fall(taken, other);
}

proof fn lemma_ranks_fall(a: Pickaxe, b: Pickaxe)
    requires
        pickaxe_place(a) <= pickaxe_place(b),
    ensures
        pickaxe_rank_of(a.text()) >= pickaxe_rank_of(b.text()),
{
    reveal_strlit("netherite_pickaxe");
    reveal_strlit("diamond_pickaxe");
    reveal_strlit("iron_pickaxe");
    reveal_strlit("stone_pickaxe");
    reveal_strlit("golden_pickaxe");
    reveal_strlit("wooden_pickaxe");
    assert("netherite_pickaxe"@[0] == 'n' && "diamond_pickaxe"@[0] == 'd' && "iron_pickaxe"@[0] == 'i'
        && "stone_pickaxe"@[0] == 's' && "golden_pickaxe"@[0] == 'g' && "wooden_pickaxe"@[0] == 'w');
}

/// Every pickaxe has its turn at most once, and in the end the bot is armed or not.
pub proof fn law_equipping_ends(tried: usize, slots: Seq<Option<Stack>>, selected: bool)
    ensures
        match equip_pickaxe_next(tried, slots, selected) {
            (next, EquipAction::Select(_)) => tried < next <= 6,
            (next, _) => next == tried,
        },
        tried > 0 ==> equip_pickaxe_next(tried, slots, true).1 == EquipAction::Done(true),
{
    lemma_first_carried(slots, tried as int);
}

// ── ore ─────────────────────────────────────────────────────────────────────

pub open spec fn ore_matches(name: Seq<char>, ore: Seq<char>) -> bool {
    ||| ore == "coal"@ && (name == "coal_ore"@ || name == "deepslate_coal_ore"@)
    ||| ore == "iron"@ && (name == "iron_ore"@ || name == "deepslate_iron_ore"@)
    ||| ore == "gold"@ && (name == "gold_ore"@ || name == "deepslate_gold_ore"@)
}

/// Does block `name` match the requested ore family?
pub fn ore_block_matches(name: &str, ore: &str) -> (r: bool)
    ensures
        r == ore_matches(name@, ore@),
{
    (same(ore, "coal") && (same(name, "coal_ore") || same(name, "deepslate_coal_ore"))) || (same(
        ore,
        "iron",
    ) && (same(name, "iron_ore") || same(name, "deepslate_iron_ore"))) || (same(ore, "gold") && (
    same(name, "gold_ore") || same(name, "deepslate_gold_ore")))
}

/// How much of the ore's resource is in the slots, by the counters of the inventory.
pub open spec fn ore_resource(slots: Seq<Option<Stack>>, ore: Seq<char>) -> int {
    if ore == "coal"@ {
        stock(slots, counted_by(Counter::Coal))
    } else if ore == "iron"@ {
        stock(slots, counted_by(Counter::IronOre)) + stock(slots, counted_by(Counter::IronIngots))
    } else {
        0
    }
}

/// How much of the ore's resource the bot has (what the step counts).
pub fn count_ore_resource(slots: &Vec<Option<Stack>>, ore: &str) -> (r: i32)
    requires
        fits(ore_resource(slots@, ore@)),
    ensures
        r == ore_resource(slots@, ore@),
{
    proof {
        reveal_strlit("coal");
        reveal_strlit("iron");
        assert("coal"@[0] == 'c' && "iron"@[0] == 'i');
        lemma_stock_is_never_negative(slots@, counted_by(Counter::IronOre));
        lemma_stock_is_never_negative(slots@, counted_by(Counter::IronIngots));
    }
    if same(ore, "coal") {
        stock_of(slots, Counter::Coal)
    } else if same(ore, "iron") {
        let unsmelted: i32 = stock_of(slots, Counter::IronOre);
        let ingots: i32 = stock_of(slots, Counter::IronIngots);
        unsmelted + ingots
    } else {
        0
    }
}

/// What a vein is counted by is what the steps count: coal, and iron ore with ingots.
pub proof fn law_ore_is_counted_as_the_steps_count(inv: Inventory, slots: Seq<Option<Stack>>)
    requires
        counts_slots(inv, slots),
    ensures
        ore_resource(slots, "coal"@) == inv.coal,
        ore_resource(slots, "iron"@) == inv.iron_ore + inv.iron_ingots,
{
    reveal_strlit("coal");
    reveal_strlit("iron");
    assert("coal"@[0] == 'c' && "iron"@[0] == 'i');
    assert(Counter::Coal.of(inv) == stock(slots, counted_by(Counter::Coal)));
    assert(Counter::IronOre.of(inv) == stock(slots, counted_by(Counter::IronOre)));
    assert(Counter::IronIngots.of(inv) == stock(slots, counted_by(Counter::IronIngots)));
}

pub open spec fn ore_kind_of(ore: Seq<char>) -> PoiKind {
    if ore == "coal"@ {
        PoiKind::CoalOre
    } else if ore == "gold"@ {
        PoiKind::GoldOre
    } else if ore == "diamond"@ {
        PoiKind::DiamondOre
    } else {
        PoiKind::IronOre
    }
}

/// What the map calls the requested ore.
pub fn ore_kind(ore: &str) -> (r: PoiKind)
    ensures
        r == ore_kind_of(ore@),
{
    if same(ore, "coal") {
        PoiKind::CoalOre
    } else if same(ore, "gold") {
        PoiKind::GoldOre
    } else if same(ore, "diamond") {
        PoiKind::DiamondOre
    } else {
        PoiKind::IronOre
    }
}

/// Productive depth: iron peaks low, coal is everywhere.
pub fn ore_depth(ore: &str) -> (r: i32)
    ensures
        r == (if ore@ == "iron"@ {
            35int
        } else {
            50
        }),
{
    if same(ore, "iron") {
        35
    } else {
        50
    }
}

/// The memory kind and the pickaxe tier of an ore block's name.
pub open spec fn kind_and_tier(n: Seq<char>) -> Option<(PoiKind, i32)> {
    if occurs_in("iron_ore"@, n) {
        Some((PoiKind::IronOre, 2))
    } else if occurs_in("coal_ore"@, n) {
        Some((PoiKind::CoalOre, 1))
    } else if occurs_in("copper_ore"@, n) {
        Some((PoiKind::CopperOre, 2))
    } else if occurs_in("gold_ore"@, n) {
        Some((PoiKind::GoldOre, 3))
    } else if occurs_in("diamond_ore"@, n) {
        Some((PoiKind::DiamondOre, 3))
    } else if occurs_in("redstone_ore"@, n) {
        Some((PoiKind::RedstoneOre, 3))
    } else if occurs_in("lapis_ore"@, n) {
        Some((PoiKind::LapisOre, 2))
    } else {
        None
    }
}

/// Classifies an ore block name into a memory kind and the pickaxe tier it needs.
pub fn ore_kind_tier(name: &str) -> (r: Option<(PoiKind, i32)>)
    ensures
        r == kind_and_tier(name@),
{
    if contains(name, "iron_ore") {
        Some((PoiKind::IronOre, 2))
    } else if contains(name, "coal_ore") {
        Some((PoiKind::CoalOre, 1))
    } else if contains(name, "copper_ore") {
        Some((PoiKind::CopperOre, 2))
    } else if contains(name, "gold_ore") {
        Some((PoiKind::GoldOre, 3))
    } else if contains(name, "diamond_ore") {
        Some((PoiKind::DiamondOre, 3))
    } else if contains(name, "redstone_ore") {
        Some((PoiKind::RedstoneOre, 3))
    } else if contains(name, "lapis_ore") {
        Some((PoiKind::LapisOre, 2))
    } else {
        None
    }
}

/// The ore that a state belongs to, by the last block of the registry that
/// claims the state for an ore.
pub open spec fn ore_of_state(kinds: Seq<BlockKind>, s: u32) -> Option<(PoiKind, i32)>
    decreases kinds.len(),
{
    if kinds.len() == 0 {
        None
    } else if kind_and_tier(kinds.last().name@) is Some && kinds.last().min_state_id <= s
        <= kinds.last().max_state_id {
        kind_and_tier(kinds.last().name@)
    } else {
        ore_of_state(kinds.drop_last(), s)
    }
}

/// The map has an entry exactly for the states of ores.
pub open spec fn maps_ores(map: Map<u32, (PoiKind, i32)>, kinds: Seq<BlockKind>) -> bool {
    forall|s: u32|
        match ore_of_state(kinds, s) {
            Some(ore) => #[trigger] map.contains_key(s) && map[s] == ore,
            None => !map.contains_key(s),
        }
}

/// State id to memory kind and required tier for every ore block, so that
/// observation can classify by raw state id.
pub fn ore_states(kinds: &Vec<BlockKind>) -> (r: HashMap<u32, (PoiKind, i32)>)
    ensures
        maps_ores(r@, kinds@),
{
    let mut map: HashMap<u32, (PoiKind, i32)> = HashMap::new();
    let mut i: usize = 0;
    while i < kinds.len()
        invariant
            i <= kinds@.len(),
            maps_ores(map@, kinds@.take(i as int)),
        decreases kinds@.len() - i,
    {
        let kind = &kinds[i];
        let ghost before = map@;
        let found = ore_kind_tier(kind.name.as_str());
        match found {
            Some(ore) => {
                if kind.min_state_id <= kind.max_state_id {
                    let mut s: u32 = kind.min_state_id;
                    map.insert(s, ore);
                    while s < kind.max_state_id
                        invariant
                            kind.min_state_id <= s <= kind.max_state_id,
                            forall|t: u32| #[trigger]
                                map@.contains_key(t) <==> before.contains_key(t)
                                    || kind.min_state_id <= t <= s,
                            forall|t: u32| #[trigger]
                                map@.contains_key(t) ==> map@[t] == (if kind.min_state_id <= t <= s {
                                    ore
                                } else {
                                    before[t]
                                }),
                        decreases kind.max_state_id - s,
                    {
                        s += 1;
                        map.insert(s, ore);
                    }
                }
            },
            None => {},
        }
        proof {
            let next = kinds@.take(i + 1);
            assert(next.drop_last() =~= kinds@.take(i as int));
            assert(next.last() == *kind);
            assert forall|s: u32|
                match ore_of_state(next, s) {
                    Some(ore) => #[trigger] map@.contains_key(s) && map@[s] == ore,
                    None => !map@.contains_key(s),
                } by {
                assert(match ore_of_state(kinds@.take(i as int), s) {
                    Some(ore) => before.contains_key(s) && before[s] == ore,
                    None => !before.contains_key(s),
                });
                let added = found is Some && kind.min_state_id <= s <= kind.max_state_id;
                assert(map@.contains_key(s) == (before.contains_key(s) || added));
                assert(map@.contains_key(s) && !added ==> map@[s] == before[s]);
                assert(map@.contains_key(s) && added ==> map@[s] == found->0);
            }
        }
        i += 1;
    }
    assert(kinds@.take(kinds@.len() as int) =~= kinds@);
    map
}

/// The rank of a pickaxe by name (0 none ... 4 diamond or netherite).
pub open spec fn pickaxe_rank_of(n: Seq<char>) -> int {
    if n == "wooden_pickaxe"@ || n == "golden_pickaxe"@ {
        1
    } else if n == "stone_pickaxe"@ {
        2
    } else if n == "iron_pickaxe"@ {
        3
    } else if n == "diamond_pickaxe"@ || n == "netherite_pickaxe"@ {
        4
    } else {
        0
    }
}

/// The highest rank of a pickaxe in the slots.
pub open spec fn best_rank(slots: Seq<Option<Stack>>) -> int
    decreases slots.len(),
{
    if slots.len() == 0 {
        0
    } else {
        let rest = best_rank(slots.drop_last());
        match slots.last() {
            Some(stack) if pickaxe_rank_of(stack.name@) > rest => pickaxe_rank_of(stack.name@),
            _ => rest,
        }
    }
}

/// Best pickaxe tier in the inventory (0 none ... 4 diamond or netherite).
pub fn pickaxe_tier_rank(slots: &Vec<Option<Stack>>) -> (r: i32)
    ensures
        r == best_rank(slots@),
{
    let mut best: i32 = 0;
    let mut i: usize = 0;
    while i < slots.len()
        invariant
            i <= slots@.len(),
            best == best_rank(slots@.take(i as int)),
        decreases slots@.len() - i,
    {
        proof {
            assert(slots@.take(i + 1).drop_last() =~= slots@.take(i as int));
            assert(slots@.take(i + 1).last() == slots@[i as int]);
        }
        match &slots[i] {
            Some(stack) => {
                let n = stack.name.as_str();
                let rank: i32 = if same(n, "wooden_pickaxe") || same(n, "golden_pickaxe") {
                    1
                } else if same(n, "stone_pickaxe") {
                    2
                } else if same(n, "iron_pickaxe") {
                    3
                } else if same(n, "diamond_pickaxe") || same(n, "netherite_pickaxe") {
                    4
                } else {
                    0
                };
                if rank > best {
                    best = rank;
                }
            },
            None => {},
        }
        i += 1;
    }
    assert(slots@.take(slots@.len() as int) =~= slots@);
    best
}

/// A pickaxe of rank `pickaxe_tier_rank` is carried, and none of a higher rank.
pub proof fn law_rank_is_the_best(slots: Seq<Option<Stack>>, name: Seq<char>, i: int)
    requires
        0 <= i < slots.len(),
        slot_named(slots[i], name),
    ensures
        pickaxe_rank_of(name) <= best_rank(slots) <= 4,
    decreases slots.len(),
{
    if i < slots.len() - 1 {
        assert(slots.drop_last()[i] == slots[i]);
        law_rank_is_the_best(slots.drop_last(), name, i);
    } else {
        lemma_rank_bound(slots.drop_last());
    }
}

proof fn lemma_rank_bound(slots: Seq<Option<Stack>>)
    ensures
        0 <= best_rank(slots) <= 4,
    decreases slots.len(),
{
    if slots.len() > 0 {
        lemma_rank_bound(slots.drop_last());
    }
}

// ── noticing ore ────────────────────────────────────────────────────────────

/// Every entry is for an ore.
pub open spec fn holds_ores(map: Map<u32, (PoiKind, i32)>) -> bool {
    forall|s: u32| #[trigger]
        map.contains_key(s) ==> match map[s].0 {
            PoiKind::CoalOre
            | PoiKind::IronOre
            | PoiKind::GoldOre
            | PoiKind::DiamondOre
            | PoiKind::RedstoneOre
            | PoiKind::LapisOre
            | PoiKind::CopperOre => true,
            _ => false,
        }
}

/// The map of a registry holds nothing but ores.
pub proof fn law_registry_gives_ores(map: Map<u32, (PoiKind, i32)>, kinds: Seq<BlockKind>)
    requires
        maps_ores(map, kinds),
    ensures
        holds_ores(map),
{
    assert forall|s: u32| #[trigger] map.contains_key(s) implies match map[s].0 {
        PoiKind::CoalOre
        | PoiKind::IronOre
        | PoiKind::GoldOre
        | PoiKind::DiamondOre
        | PoiKind::RedstoneOre
        | PoiKind::LapisOre
        | PoiKind::CopperOre => true,
        _ => false,
    } by {
        lemma_ore_of_state(kinds, s);
    }
}

proof fn lemma_ore_of_state(kinds: Seq<BlockKind>, s: u32)
    ensures
        ore_of_state(kinds, s) matches Some(ore) ==> exists|n: Seq<char>| #[trigger]
            kind_and_tier(n) == Some(ore),
    decreases kinds.len(),
{
    if kinds.len() > 0 {
        lemma_ore_of_state(kinds.drop_last(), s);
    }
}

/// How far out the bot notices ore.
pub const SIGHT: i32 = 10;

/// The position is within sight.
pub open spec fn in_sight(at: Pos, p: Pos) -> bool {
    &&& -SIGHT <= p.0 - at.0 <= SIGHT
    &&& -SIGHT <= p.1 - at.1 <= SIGHT
    &&& -SIGHT <= p.2 - at.2 <= SIGHT
}

pub open spec fn is_ore_cell(
    states: States,
    at: Pos,
    ores: Map<u32, (PoiKind, i32)>,
    p: Pos,
) -> bool {
    in_sight(at, p) && ores.contains_key(block_state(states, p.0 as int, p.1 as int, p.2 as int))
}

/// The cells within sight that hold ore.
pub open spec fn ore_cells(states: States, at: Pos, ores: Map<u32, (PoiKind, i32)>) -> Set<Pos> {
    Set::new(|p: Pos| is_ore_cell(states, at, ores, p))
}

/// The row of `p` is that of a sighting made after time `from` and no later than
/// time `to`.
pub open spec fn is_sighting(
    before: Map<Pos, Row>,
    after: Map<Pos, Row>,
    p: Pos,
    ore: (PoiKind, i32),
    from: int,
    to: int,
) -> bool {
    exists|t: i64|
        from < t <= to && row_at(after, p) == Some(
            #[trigger] observed_row(row_at(before, p), ore.0, PoiStatus::NeedsTool(ore.1), t),
        )
}

/// Every ore cell within sight has been noted and no other row has changed; a
/// sighting that was not stored left its row as it was.
pub open spec fn notes_ores(
    before: Map<Pos, Row>,
    after: Map<Pos, Row>,
    states: States,
    at: Pos,
    ores: Map<u32, (PoiKind, i32)>,
    from: int,
    to: int,
    complete: bool,
) -> bool {
    forall|p: Pos|
        if is_ore_cell(states, at, ores, p) {
            ||| is_sighting(
                before,
                after,
                p,
                ores[block_state(states, p.0 as int, p.1 as int, p.2 as int)],
                from,
                to,
            )
            ||| !complete && #[trigger] row_at(after, p) == row_at(before, p)
        } else {
            row_at(after, p) == row_at(before, p)
        }
}

/// What is logged of a look around.
pub open spec fn sighting_text(n: int, at: Pos) -> Seq<char> {
    number(n) + " ore blocks near ("@ + number(at.0 as int) + ","@ + number(at.1 as int) + ","@
        + number(at.2 as int) + ")"@
}

/// The place of a cell in the walk through the box within sight.
spec fn sight_index(at: Pos, p: Pos) -> int {
    (p.0 - at.0 + SIGHT) * 441 + (p.1 - at.1 + SIGHT) * 21 + (p.2 - at.2 + SIGHT)
}

/// Records every ore that the bot can see (through stone, by chunk data) in a box
/// around it: its memory of having noticed ore over there. Returns whether the
/// database took all of it.
pub fn observe_blocks(
    states: &States,
    at: Pos,
    ores: &HashMap<u32, (PoiKind, i32)>,
    mem: &mut WorldMemory,
) -> (stored: bool)
    requires
        has_room(at, 10),
        holds_ores(ores@),
        old(mem).clock() + 10000 <= i64::MAX,
    ensures
        ore_cells(*states, at, ores@).finite(),
        ({
            let n = ore_cells(*states, at, ores@).len();
            let logged = old(mem).events().push(
                (final(mem).clock(), "observe"@, "ores"@, sighting_text(n as int, at)),
            );
            &&& final(mem).clock() == old(mem).clock() + n + (if n > 0 {
                1int
            } else {
                0
            })
            &&& n == 0 ==> stored && final(mem).events() == old(mem).events()
            &&& n > 0 && stored ==> final(mem).events() == logged
            &&& n > 0 ==> final(mem).events() == logged || final(mem).events() == old(mem).events()
        }),
        notes_ores(
            old(mem).pois(),
            final(mem).pois(),
            *states,
            at,
            ores@,
            old(mem).clock() as int,
            final(mem).clock() as int,
            stored,
        ),
        final(mem).place() == old(mem).place(),
        old(mem).in_time() ==> final(mem).in_time(),
{
    let mut complete: bool = true;
    let mut seen: i32 = 0;
    let ghost mut cells: Set<Pos> = Set::empty();
    let mut i: i32 = 0;
    while i < 9261
        invariant
            0 <= i <= 9261,
            0 <= seen <= i,
            has_room(at, 10),
            holds_ores(ores@),
            old(mem).clock() + 10000 <= i64::MAX,
            mem.clock() == old(mem).clock() + seen,
            mem.events() == old(mem).events(),
            mem.place() == old(mem).place(),
            old(mem).in_time() ==> mem.in_time(),
            cells.finite(),
            cells.len() == seen,
            seen == 0 ==> complete,
            forall|p: Pos| #[trigger]
                cells.contains(p) <==> is_ore_cell(*states, at, ores@, p) && sight_index(at, p) < i,
            forall|p: Pos|
                if cells.contains(p) {
                    ||| is_sighting(
                        old(mem).pois(),
                        mem.pois(),
                        p,
                        ores@[block_state(*states, p.0 as int, p.1 as int, p.2 as int)],
                        old(mem).clock() as int,
                        mem.clock() as int,
                    )
                    ||| !complete && #[trigger] row_at(mem.pois(), p) == row_at(old(mem).pois(), p)
                } else {
                    row_at(mem.pois(), p) == row_at(old(mem).pois(), p)
                },
        decreases 9261 - i,
    {
        let p: Pos = (at.0 + (i / 441 - 10), at.1 + ((i / 21) % 21 - 10), at.2 + (i % 21 - 10));
        let ghost known = mem.pois();
        assert(sight_index(at, p) == i && in_sight(at, p));
        assert forall|q: Pos| in_sight(at, q) && #[trigger] sight_index(at, q) == i implies q == p by {}
        let s: u32 = state_of(states, p.0, p.1, p.2);
        match ores.get(&s) {
            Some(ore) => {
                let (kind, tier): (PoiKind, i32) = *ore;
                assert(storage_key(kind, p) == p);
                assert(!cells.contains(p));
                if !mem.observe(kind, p, PoiStatus::NeedsTool(tier)) {
                    complete = false;
                }
                seen += 1;
                proof {
                    cells = cells.insert(p);
                    assert(row_at(known, p) == row_at(old(mem).pois(), p));
                    assert forall|q: Pos|
                        if cells.contains(q) {
                            ||| is_sighting(
                                old(mem).pois(),
                                mem.pois(),
                                q,
                                ores@[block_state(*states, q.0 as int, q.1 as int, q.2 as int)],
                                old(mem).clock() as int,
                                mem.clock() as int,
                            )
                            ||| !complete && #[trigger] row_at(mem.pois(), q) == row_at(
                                old(mem).pois(),
                                q,
                            )
                        } else {
                            row_at(mem.pois(), q) == row_at(old(mem).pois(), q)
                        } by {
                        if q != p {
                            assert(row_at(mem.pois(), q) == row_at(known, q));
                        } else {
                            let t = mem.clock();
                            assert(old(mem).clock() < t <= mem.clock());
                            let row = observed_row(
                                row_at(old(mem).pois(), p),
                                kind,
                                PoiStatus::NeedsTool(tier),
                                t,
                            );
                            assert(row_at(mem.pois(), p) == Some(row) || (!complete && row_at(
                                mem.pois(),
                                p,
                            ) == row_at(known, p)));
                        }
                    }
                }
            },
            None => {},
        }
        i += 1;
    }
    proof {
        assert forall|p: Pos| in_sight(at, p) implies #[trigger] sight_index(at, p) < 9261 by {}
        assert(cells =~= ore_cells(*states, at, ores@));
    }
    if seen > 0 {
        let mut detail = String::new();
        push_number(&mut detail, seen as i64);
        detail.append(" ore blocks near (");
        push_number(&mut detail, at.0 as i64);
        detail.append(",");
        push_number(&mut detail, at.1 as i64);
        detail.append(",");
        push_number(&mut detail, at.2 as i64);
        detail.append(")");
        assert(detail@ =~= sighting_text(seen as int, at));
        if !mem.log("observe", "ores", detail.as_str()) {
            complete = false;
        }
    }
    complete
}

/// A look around never makes a spot that is known to be unreachable or mined out
/// usable again, and forgets nothing.
pub proof fn law_looking_around_keeps_what_was_learned(
    before: Map<Pos, Row>,
    after: Map<Pos, Row>,
    states: States,
    at: Pos,
    ores: Map<u32, (PoiKind, i32)>,
    from: int,
    to: int,
    complete: bool,
    p: Pos,
)
    requires
        notes_ores(before, after, states, at, ores, from, to, complete),
        before.contains_key(p),
    ensures
        after.contains_key(p),
        is_settled(before[p]) ==> after[p].1 == before[p].1 && after[p].2 == before[p].2,
{
    assert(row_at(before, p) == Some(before[p]));
    assert(row_at(after, p) is Some);
}

/// The nearest ore on a map that was read that the best pickaxe in the inventory can mine;
/// nothing where the map cannot be read.
pub fn known_ore_from(
    read: &Result<Vec<StoredPoi>, rusqlite::Error>,
    slots: &Vec<Option<Stack>>,
    at: Pos,
    ore: &str,
) -> (r: Option<Pos>)
    ensures
        read is Err ==> r is None,
        *read matches Ok(list) ==> {
            &&& r is None <==> no_row_usable(list@, seq![ore_kind_of(ore@)], best_rank(slots@) as i32)
            &&& r matches Some(p) ==> exists|poi: Poi|
                poi.pos == p && #[trigger] is_nearest_row(
                    poi,
                    list@,
                    seq![ore_kind_of(ore@)],
                    at,
                    best_rank(slots@) as i32,
                )
        },
{
    let kinds: [PoiKind; 1] = [ore_kind(ore)];
    let tier: i32 = pickaxe_tier_rank(slots);
    assert(kinds@ =~= seq![ore_kind_of(ore@)]);
    match nearest_from(read, &kinds, at, tier) {
        Some(poi) => Some(poi.pos),
        None => None,
    }
}

/// The nearest ore on the map that the best pickaxe in the inventory can mine. Nothing
/// comes back where the map cannot be read.
pub fn known_ore(mem: &WorldMemory, slots: &Vec<Option<Stack>>, at: Pos, ore: &str) -> (r: Option<Pos>)
    ensures
        r matches Some(p) ==> exists|poi: Poi|
            poi.pos == p && #[trigger] is_nearest(
                poi,
                mem.pois(),
                seq![ore_kind_of(ore@)],
                at,
                best_rank(slots@) as i32,
            ),
        none_usable(mem.pois(), seq![ore_kind_of(ore@)], best_rank(slots@) as i32) ==> r is None,
{
    let read = mem.read();
    let r = known_ore_from(&read, slots, at, ore);
    proof {
        let kinds = seq![ore_kind_of(ore@)];
        let tier = best_rank(slots@) as i32;
        match &read {
            Ok(list) => lemma_spot_of_list(list@, mem.pois(), kinds, at, tier, r),
            Err(_) => {},
        }
    }
    r
}

// ── mining a vein ───────────────────────────────────────────────────────────

/// The block is of the requested ore.
pub open spec fn is_ore_block(block: Option<String>, ore: Seq<char>) -> bool {
    block matches Some(name) && ore_matches(name@, ore)
}

/// The two positions share a face.
pub open spec fn touches(a: Pos, b: Pos) -> bool {
    ||| a.1 == b.1 && a.2 == b.2 && (a.0 == b.0 + 1 || b.0 == a.0 + 1)
    ||| a.0 == b.0 && a.2 == b.2 && (a.1 == b.1 + 1 || b.1 == a.1 + 1)
    ||| a.0 == b.0 && a.1 == b.1 && (a.2 == b.2 + 1 || b.2 == a.2 + 1)
}

/// The six positions that share a face with `p`.
pub open spec fn neighbours(p: Pos) -> Seq<Pos> {
    seq![
        ((p.0 + 1) as i32, p.1, p.2),
        ((p.0 - 1) as i32, p.1, p.2),
        (p.0, (p.1 + 1) as i32, p.2),
        (p.0, (p.1 - 1) as i32, p.2),
        (p.0, p.1, (p.2 + 1) as i32),
        (p.0, p.1, (p.2 - 1) as i32),
    ]
}

/// The last position of `frontier` that is not in `seen`, with what stands before
/// it.
pub open spec fn next_unseen(frontier: Seq<Pos>, seen: Seq<Pos>) -> (Seq<Pos>, Option<Pos>)
    decreases frontier.len(),
{
    if frontier.len() == 0 {
        (frontier, None)
    } else if seen.contains(frontier.last()) {
        next_unseen(frontier.drop_last(), seen)
    } else {
        (frontier.drop_last(), Some(frontier.last()))
    }
}

#[derive(Debug, Clone, Copy, PartialEq, Eq)]
pub enum VeinPhase {
    /// About to take the next position.
    Next,
    /// Has looked at the block at a position.
    Looked(Pos),
    /// Has dug at a position and collected the drops.
    Dug(Pos),
}

#[derive(Debug, Clone, Copy, PartialEq, Eq)]
pub enum VeinAction {
    /// Look what block is there.
    Look(Pos),
    /// Dig toward the position and collect the drops.
    Dig(Pos),
    /// Nothing more to do.
    Done,
}

/// An ore vein on its way to being mined.
pub struct Vein {
    pub start: Pos,
    /// Positions still to be looked at; the last is the next.
    pub frontier: Vec<Pos>,
    /// Positions that have been looked at.
    pub seen: Vec<Pos>,
    pub phase: VeinPhase,
}

/// The position is where the vein was found, or touches one of `seen`.
pub open spec fn belongs(start: Pos, seen: Seq<Pos>, p: Pos) -> bool {
    p == start || exists|i: int| 0 <= i < seen.len() && touches(p, #[trigger] seen[i])
}

pub open spec fn all_belong(start: Pos, seen: Seq<Pos>, cells: Seq<Pos>) -> bool {
    forall|i: int| 0 <= i < cells.len() ==> belongs(start, seen, #[trigger] cells[i])
}

impl Vein {
    /// No position is looked at twice, and all of them hang together.
    pub open spec fn wf(self) -> bool {
        &&& self.seen@.no_duplicates()
        &&& all_belong(self.start, self.seen@, self.frontier@)
        &&& all_belong(self.start, self.seen@, self.seen@)
        &&& self.phase matches VeinPhase::Looked(p) ==> self.seen@.contains(p)
        &&& self.phase matches VeinPhase::Dug(p) ==> self.seen@.contains(p)
    }

    /// A vein that is known by one of its blocks.
    pub fn at(start: Pos) -> (r: Vein)
        ensures
            r.wf(),
            r.start == start,
            r.frontier@ == seq![start],
            r.seen@ == Seq::<Pos>::empty(),
            r.phase == VeinPhase::Next,
    {
        let mut frontier: Vec<Pos> = Vec::new();
        frontier.push(start);
        Vein { start, frontier, seen: Vec::new(), phase: VeinPhase::Next }
    }

    /// Adds the cells around `p`.
    fn open_around(&mut self, p: Pos)
        requires
            old(self).wf(),
            old(self).seen@.contains(p),
            has_room(p, 1),
        ensures
            final(self).wf(),
            final(self).start == old(self).start,
            final(self).frontier@ == old(self).frontier@ + neighbours(p),
            final(self).seen@ == old(self).seen@,
            final(self).phase == old(self).phase,
    {
        self.frontier.push((p.0 + 1, p.1, p.2));
        self.frontier.push((p.0 - 1, p.1, p.2));
        self.frontier.push((p.0, p.1 + 1, p.2));
        self.frontier.push((p.0, p.1 - 1, p.2));
        self.frontier.push((p.0, p.1, p.2 + 1));
        self.frontier.push((p.0, p.1, p.2 - 1));
        proof {
            let k = choose|k: int| 0 <= k < self.seen@.len() && self.seen@[k] == p;
            assert(self.frontier@ =~= old(self).frontier@ + neighbours(p));
            assert forall|i: int| 0 <= i < self.frontier@.len() implies belongs(
                self.start,
                self.seen@,
                #[trigger] self.frontier@[i],
            ) by {
                if i < old(self).frontier@.len() {
                    assert(belongs(self.start, self.seen@, old(self).frontier@[i]));
                } else {
                    assert(touches(self.frontier@[i], self.seen@[k]));
                }
            }
        }
    }

    /// Takes the next position that has not been looked at.
    fn take_next(&mut self) -> (r: VeinAction)
        requires
            old(self).wf(),
            old(self).phase == VeinPhase::Next,
        ensures
            final(self).wf(),
            final(self).start == old(self).start,
            final(self).took_next(r, old(self).frontier@, old(self).seen@),
    {
        while self.frontier.len() > 0
            invariant
                self.wf(),
                self.start == old(self).start,
                self.phase == VeinPhase::Next,
                self.seen@ == old(self).seen@,
                next_unseen(self.frontier@, self.seen@) == next_unseen(
                    old(self).frontier@,
                    old(self).seen@,
                ),
            decreases self.frontier@.len(),
        {
            let p: Pos = self.frontier[self.frontier.len() - 1];
            let ghost before = self.frontier@;
            assert(belongs(self.start, self.seen@, before.last()));
            self.frontier.pop();
            assert(self.frontier@ == before.drop_last());
            if !contains_pos(&self.seen, p) {
                let ghost was = self.seen@;
                self.seen.push(p);
                self.phase = VeinPhase::Looked(p);
                proof {
                    assert(self.seen@[was.len() as int] == p);
                    assert forall|q: Pos| belongs(self.start, was, q) implies #[trigger] belongs(
                        self.start,
                        self.seen@,
                        q,
                    ) by {
                        if q != self.start {
                            let i = choose|i: int| 0 <= i < was.len() && touches(q, #[trigger] was[i]);
                            assert(self.seen@[i] == was[i]);
                        }
                    }
                    assert forall|i: int| 0 <= i < self.seen@.len() implies belongs(
                        self.start,
                        self.seen@,
                        #[trigger] self.seen@[i],
                    ) by {
                        if i < was.len() {
                            assert(belongs(self.start, was, was[i]));
                        }
                    }
                }
                return VeinAction::Look(p);
            }
        }
        VeinAction::Done
    }

    /// The vein has gone on to the next position that had not been looked at, or
    /// there was none.
    pub open spec fn took_next(self, r: VeinAction, frontier: Seq<Pos>, seen: Seq<Pos>) -> bool {
        let (rest, found) = next_unseen(frontier, seen);
        &&& self.frontier@ == rest
        &&& match found {
            Some(p) => {
                &&& r == VeinAction::Look(p)
                &&& self.seen@ == seen.push(p)
                &&& self.phase == VeinPhase::Looked(p)
            },
            None => {
                &&& r == VeinAction::Done
                &&& self.seen@ == seen
                &&& self.phase == VeinPhase::Next
            },
        }
    }

    /// Mines the connected vein: the ore where it was found and any directly
    /// touching ore. `block` is the name of the block that was looked at, `open` says
    /// whether the cell that was dug at is open now.
    pub fn mine_vein(&mut self, ore: &str, block: &Option<String>, open: bool) -> (r: VeinAction)
        requires
            old(self).wf(),
            old(self).phase matches VeinPhase::Dug(p) ==> has_room(p, 1),
        ensures
            final(self).wf(),
            final(self).start == old(self).start,
            match old(self).phase {
                VeinPhase::Looked(p) if is_ore_block(*block, ore@) => {
                    &&& r == VeinAction::Dig(p)
                    &&& final(self).phase == VeinPhase::Dug(p)
                    &&& final(self).frontier@ == old(self).frontier@
                    &&& final(self).seen@ == old(self).seen@
                },
                VeinPhase::Dug(p) if open => final(self).took_next(
                    r,
                    old(self).frontier@ + neighbours(p),
                    old(self).seen@,
                ),
                _ => final(self).took_next(r, old(self).frontier@, old(self).seen@),
            },
    {
        match self.phase {
            VeinPhase::Looked(p) => {
                let here: bool = match block {
                    Some(name) => ore_block_matches(name.as_str(), ore),
                    None => false,
                };
                if here {
                    self.phase = VeinPhase::Dug(p);
                    return VeinAction::Dig(p);
                }
            },
            VeinPhase::Dug(p) => {
                if open {
                    self.open_around(p);
                }
            },
            VeinPhase::Next => {},
        }
        self.phase = VeinPhase::Next;
        self.take_next()
    }
}

/// The next position is one that has not been looked at, it comes from the
/// frontier, and everything behind it in the frontier has been looked at.
pub proof fn law_vein_looks_once(frontier: Seq<Pos>, seen: Seq<Pos>)
    ensures
        match next_unseen(frontier, seen).1 {
            Some(p) => frontier.contains(p) && !seen.contains(p),
            None => forall|i: int| 0 <= i < frontier.len() ==> seen.contains(#[trigger] frontier[i]),
        },
    decreases frontier.len(),
{
    if frontier.len() > 0 && seen.contains(frontier.last()) {
        law_vein_looks_once(frontier.drop_last(), seen);
        match next_unseen(frontier, seen).1 {
            Some(p) => {
                let i = choose|i: int| 0 <= i < frontier.drop_last().len() && frontier.drop_last()[i] == p;
                assert(frontier[i] == p);
            },
            None => {
                assert forall|i: int| 0 <= i < frontier.len() implies seen.contains(
                    #[trigger] frontier[i],
                ) by {
                    if i < frontier.len() - 1 {
                        assert(frontier.drop_last()[i] == frontier[i]);
                    }
                }
            },
        }
    }
}

// ── the tasks ───────────────────────────────────────────────────────────────

#[derive(Debug, Clone, Copy, PartialEq, Eq)]
pub enum OrePhase {
    /// Between two turns.
    Top,
    /// Has made sure of a pickaxe.
    Armed,
    /// Has asked the map for ore.
    Asked,
    /// Has mined a vein.
    Mined(Pos),
    /// Has tried to dig down.
    Dug,
    /// Has tried a stair step.
    Stepped,
    /// Has tunnelled on, above the depth of the ore or at it.
    Tunnelled(bool),
    Over,
}

#[derive(Debug, Clone, Copy, PartialEq, Eq)]
pub struct MineOre {
    pub target: i32,
    pub depth: i32,
    pub turns: u32,
    /// Turns in a row without more ore and without a change of place.
    pub stuck: u32,
    pub last_count: i32,
    pub last_pos: Pos,
    pub phase: OrePhase,
}

#[derive(Debug, Clone, Copy, PartialEq, Eq)]
pub struct OreSeen {
    /// How much of the resource the bot has.
    pub count: i32,
    pub pos: Pos,
    /// The time for the task is up.
    pub late: bool,
    /// A pickaxe is in hand.
    pub armed: bool,
    /// The nearest usable ore on the map.
    pub known: Option<Pos>,
    /// How much of the resource the last vein gave.
    pub gained: i32,
    /// The last dig, step or tunnel got the bot on.
    pub moved: bool,
}

#[derive(Debug, Clone, Copy, PartialEq, Eq, Structural)]
pub enum OreEnd {
    /// The target is reached, or the time is up.
    Finished,
    Stuck,
    NoPickaxe,
}

#[derive(Debug, Clone, Copy, PartialEq, Eq)]
pub enum OreAction {
    EnsurePickaxe,
    /// Ask the map for the nearest usable ore, after a look around if so told.
    Ask(bool),
    MineVein(Pos),
    /// Look around and note what became of the ore.
    Mark(Pos, PoiStatus),
    DigDown,
    /// A stair step in this direction: south.
    StepDown(i32, i32),
    /// Tunnel in this direction: south.
    Tunnel(i32, i32),
    /// Tell how the way down is going, if it is time to.
    NoteDescent(bool),
    /// Log the search, and tell how it is going if it is time to.
    NoteSearch(bool, bool),
    Done(i32, OreEnd),
}

pub open spec fn mine_ore_start(target: i32, depth: i32, count: i32, pos: Pos) -> MineOre {
    MineOre { target, depth, turns: 0, stuck: 0, last_count: count, last_pos: pos, phase: OrePhase::Top }
}

/// Starts to mine `target` of a resource of which the bot has `count`.
pub fn start_mine_ore(target: i32, depth: i32, count: i32, pos: Pos) -> (r: MineOre)
    ensures
        r == mine_ore_start(target, depth, count, pos),
{
    MineOre { target, depth, turns: 0, stuck: 0, last_count: count, last_pos: pos, phase: OrePhase::Top }
}

/// What `mine_ore` does next.
pub open spec fn mine_ore_next(state: MineOre, seen: OreSeen) -> (MineOre, OreAction) {
    match state.phase {
        OrePhase::Top => {
            if seen.count >= state.target || seen.late {
                (
                    MineOre { phase: OrePhase::Over, ..state },
                    OreAction::Done(seen.count, OreEnd::Finished),
                )
            } else {
                let on = seen.count > state.last_count || seen.pos.0 != state.last_pos.0 || seen.pos.1
                    != state.last_pos.1 || seen.pos.2 != state.last_pos.2;
                let stuck = if on {
                    0
                } else {
                    (state.stuck + 1) as u32
                };
                let next = MineOre {
                    turns: (state.turns + 1) as u32,
                    stuck,
                    last_count: seen.count,
                    last_pos: seen.pos,
                    phase: OrePhase::Armed,
                    ..state
                };
                if stuck > 30 {
                    (
                        MineOre { phase: OrePhase::Over, ..next },
                        OreAction::Done(seen.count, OreEnd::Stuck),
                    )
                } else {
                    (next, OreAction::EnsurePickaxe)
                }
            }
        },
        OrePhase::Armed => {
            if seen.armed {
                (MineOre { phase: OrePhase::Asked, ..state }, OreAction::Ask(state.turns % 4 == 1))
            } else {
                (
                    MineOre { phase: OrePhase::Over, ..state },
                    OreAction::Done(seen.count, OreEnd::NoPickaxe),
                )
            }
        },
        OrePhase::Asked => match seen.known {
            Some(pos) => (
                MineOre { phase: OrePhase::Mined(pos), ..state },
                OreAction::MineVein(pos),
            ),
            None => {
                if seen.pos.1 > state.depth + 2 {
                    (MineOre { phase: OrePhase::Dug, ..state }, OreAction::DigDown)
                } else {
                    (MineOre { phase: OrePhase::Tunnelled(true), ..state }, OreAction::Tunnel(0, 1))
                }
            },
        },
        OrePhase::Mined(pos) => {
            if seen.gained > 0 {
                (
                    MineOre { phase: OrePhase::Top, ..state },
                    OreAction::Mark(pos, PoiStatus::Gone),
                )
            } else {
                (
                    MineOre { phase: OrePhase::Top, ..state },
                    OreAction::Mark(pos, PoiStatus::Unreachable),
                )
            }
        },
        OrePhase::Dug => {
            if seen.moved {
                (
                    MineOre { phase: OrePhase::Top, ..state },
                    OreAction::NoteDescent(state.turns % 8 == 0),
                )
            } else {
                (MineOre { phase: OrePhase::Stepped, ..state }, OreAction::StepDown(0, 1))
            }
        },
        OrePhase::Stepped => {
            if seen.moved {
                (
                    MineOre { phase: OrePhase::Top, ..state },
                    OreAction::NoteDescent(state.turns % 8 == 0),
                )
            } else {
                (MineOre { phase: OrePhase::Tunnelled(false), ..state }, OreAction::Tunnel(0, 1))
            }
        },
        OrePhase::Tunnelled(deep) => {
            if deep {
                (
                    MineOre { phase: OrePhase::Top, ..state },
                    OreAction::NoteSearch(seen.moved, state.turns % 8 == 0),
                )
            } else {
                (
                    MineOre { phase: OrePhase::Top, ..state },
                    OreAction::NoteDescent(state.turns % 8 == 0),
                )
            }
        },
        OrePhase::Over => (state, OreAction::Done(seen.count, OreEnd::Finished)),
    }
}

/// Mines `target` of an ore resource. The map is the index: the bot notes the ores
/// it sees, asks the map for the nearest usable one and mines it. Only where the map
/// knows none does it search to the south, down at the depth of the ore. A spot that
/// gave something is gone, one that gave nothing is unreachable.
pub fn mine_ore(state: MineOre, seen: OreSeen) -> (r: (MineOre, OreAction))
    requires
        state.turns < u32::MAX,
        state.stuck <= 30,
        state.depth <= i32::MAX - 2,
    ensures
        r == mine_ore_next(state, seen),
{
    match state.phase {
        OrePhase::Top => {
            if seen.count >= state.target || seen.late {
                (
                    MineOre { phase: OrePhase::Over, ..state },
                    OreAction::Done(seen.count, OreEnd::Finished),
                )
            } else {
                let on = seen.count > state.last_count || seen.pos.0 != state.last_pos.0 || seen.pos.1
                    != state.last_pos.1 || seen.pos.2 != state.last_pos.2;
                let stuck = if on {
                    0
                } else {
                    (state.stuck + 1) as u32
                };
                let next = MineOre {
                    turns: (state.turns + 1) as u32,
                    stuck,
                    last_count: seen.count,
                    last_pos: seen.pos,
                    phase: OrePhase::Armed,
                    ..state
                };
                if stuck > 30 {
                    (
                        MineOre { phase: OrePhase::Over, ..next },
                        OreAction::Done(seen.count, OreEnd::Stuck),
                    )
                } else {
                    (next, OreAction::EnsurePickaxe)
                }
            }
        },
        OrePhase::Armed => {
            if seen.armed {
                (MineOre { phase: OrePhase::Asked, ..state }, OreAction::Ask(state.turns % 4 == 1))
            } else {
                (
                    MineOre { phase: OrePhase::Over, ..state },
                    OreAction::Done(seen.count, OreEnd::NoPickaxe),
                )
            }
        },
        OrePhase::Asked => match seen.known {
            Some(pos) => (
                MineOre { phase: OrePhase::Mined(pos), ..state },
                OreAction::MineVein(pos),
            ),
            None => {
                if seen.pos.1 > state.depth + 2 {
                    (MineOre { phase: OrePhase::Dug, ..state }, OreAction::DigDown)
                } else {
                    (MineOre { phase: OrePhase::Tunnelled(true), ..state }, OreAction::Tunnel(0, 1))
                }
            },
        },
        OrePhase::Mined(pos) => {
            if seen.gained > 0 {
                (
                    MineOre { phase: OrePhase::Top, ..state },
                    OreAction::Mark(pos, PoiStatus::Gone),
                )
            } else {
                (
                    MineOre { phase: OrePhase::Top, ..state },
                    OreAction::Mark(pos, PoiStatus::Unreachable),
                )
            }
        },
        OrePhase::Dug => {
            if seen.moved {
                (
                    MineOre { phase: OrePhase::Top, ..state },
                    OreAction::NoteDescent(state.turns % 8 == 0),
                )
            } else {
                (MineOre { phase: OrePhase::Stepped, ..state }, OreAction::StepDown(0, 1))
            }
        },
        OrePhase::Stepped => {
            if seen.moved {
                (
                    MineOre { phase: OrePhase::Top, ..state },
                    OreAction::NoteDescent(state.turns % 8 == 0),
                )
            } else {
                (MineOre { phase: OrePhase::Tunnelled(false), ..state }, OreAction::Tunnel(0, 1))
            }
        },
        OrePhase::Tunnelled(deep) => {
            if deep {
                (
                    MineOre { phase: OrePhase::Top, ..state },
                    OreAction::NoteSearch(seen.moved, state.turns % 8 == 0),
                )
            } else {
                (
                    MineOre { phase: OrePhase::Top, ..state },
                    OreAction::NoteDescent(state.turns % 8 == 0),
                )
            }
        },
        OrePhase::Over => (state, OreAction::Done(seen.count, OreEnd::Finished)),
    }
}

/// What `mine_ore` keeps from turn to turn.
pub open spec fn mine_ore_wf(state: MineOre) -> bool {
    state.phase != OrePhase::Over ==> state.stuck <= 30
}

/// How far the machine is into a turn.
pub open spec fn ore_phase_rank(phase: OrePhase) -> int {
    match phase {
        OrePhase::Top => 0,
        OrePhase::Armed => 1,
        OrePhase::Asked => 2,
        OrePhase::Mined(_) => 3,
        OrePhase::Dug => 3,
        OrePhase::Stepped => 4,
        OrePhase::Tunnelled(_) => 5,
        OrePhase::Over => 6,
    }
}

/// A turn ends within six steps: each step goes on within the turn, starts the
/// next turn or is the last. A bot that is stuck for more than 30 turns stops.
pub proof fn law_ore_turns_end(state: MineOre, seen: OreSeen)
    requires
        mine_ore_wf(state),
        state.turns < u32::MAX,
        state.phase != OrePhase::Over,
    ensures
        mine_ore_wf(mine_ore_next(state, seen).0),
        ({
            let (next, action) = mine_ore_next(state, seen);
            ||| ore_phase_rank(next.phase) > ore_phase_rank(state.phase)
            ||| next.phase == OrePhase::Top && state.phase != OrePhase::Top
        }),
        mine_ore_next(state, seen).0.phase == OrePhase::Over <==> mine_ore_next(state, seen).1 is Done,
        state.phase == OrePhase::Top && mine_ore_next(state, seen).0.phase != OrePhase::Over
            && seen.count <= state.last_count && seen.pos == state.last_pos ==> mine_ore_next(
            state,
            seen,
        ).0.stuck == state.stuck + 1,
{
}

/// Ore is mined, and the ground dug, only once a pickaxe is in hand: the bot gets
/// past the check only with one.
pub proof fn law_ore_is_not_mined_by_hand(state: MineOre, seen: OreSeen)
    requires
        state.phase == OrePhase::Armed,
        !seen.armed,
    ensures
        mine_ore_next(state, seen).1 == OreAction::Done(seen.count, OreEnd::NoPickaxe),
{
}

/// A spot is settled only by trying it: it is gone where it gave something, and
/// unreachable where it gave nothing.
pub proof fn law_ore_spots_are_settled_by_trying(
    state: MineOre,
    seen: OreSeen,
    pos: Pos,
    status: PoiStatus,
)
    requires
        mine_ore_next(state, seen).1 == OreAction::Mark(pos, status),
    ensures
        state.phase == OrePhase::Mined(pos),
        status == PoiStatus::Gone <==> seen.gained > 0,
        status == PoiStatus::Unreachable <==> seen.gained <= 0,
{
}

/// The bot explores only where the map has no answer.
pub proof fn law_map_is_asked_first(state: MineOre, seen: OreSeen)
    requires
        state.phase == OrePhase::Asked,
        seen.known is Some,
    ensures
        mine_ore_next(state, seen).1 == OreAction::MineVein(seen.known->0),
{
}

/// What the step reports of ore: a success exactly if the target was reached.
pub fn report_ore(n: i32, target: i32, ore: &str) -> (r: StepResult)
    ensures
        r.success == (n >= target),
        r.message@ == ratio_text("mined "@, n as int, target as int, " "@ + ore@),
{
    let unit = word_message(" ", ore, "");
    let message = ratio_message("mined ", n, target, unit.as_str());
    proof {
        reveal_strlit("");
        assert(unit@ =~= " "@ + ore@);
    }
    if n >= target {
        success(message.as_str())
    } else {
        failure(message.as_str())
    }
}

// ── gravel ──────────────────────────────────────────────────────────────────

#[derive(Debug, Clone, Copy, PartialEq, Eq, Structural)]
pub enum GravelPhase {
    Top,
    /// Has tried to dig down.
    Dug,
    Over,
}

#[derive(Debug, Clone, Copy, PartialEq, Eq)]
pub struct GravelSeen {
    pub flint: i32,
    pub late: bool,
    /// The last dig got the bot down.
    pub moved: bool,
}

#[derive(Debug, Clone, Copy, PartialEq, Eq)]
pub enum GravelAction {
    /// Walk to the gravel, dig it, collect the drops and do not try it again.
    Fetch(Pos),
    DigDown,
    Done(i32),
}

/// What `mine_gravel_for_flint` does next.
pub open spec fn mine_gravel_for_flint_next(
    phase: GravelPhase,
    target: i32,
    blocks: &Blocks,
    at: Pos,
    tried: Seq<Pos>,
    seen: GravelSeen,
) -> (GravelPhase, GravelAction) {
    if phase == GravelPhase::Over || (phase == GravelPhase::Dug && !seen.moved) || seen.flint
        >= target || seen.late {
        (GravelPhase::Over, GravelAction::Done(seen.flint))
    } else {
        match found_near(gravel_reach(), gravel_from(*blocks, at), at) {
            Some(pos) => {
                if tried.contains(pos) {
                    (GravelPhase::Dug, GravelAction::DigDown)
                } else {
                    (GravelPhase::Top, GravelAction::Fetch(pos))
                }
            },
            None => (GravelPhase::Dug, GravelAction::DigDown),
        }
    }
}

/// Mines gravel until there are `target` flint (gravel drops flint now and then),
/// and digs down where there is no fresh gravel. `tried` is the gravel that was
/// fetched before.
pub fn mine_gravel_for_flint(
    phase: GravelPhase,
    target: i32,
    blocks: &Blocks,
    at: Pos,
    tried: &Vec<Pos>,
    seen: GravelSeen,
) -> (r: (GravelPhase, GravelAction))
    requires
        has_room(at, 20),
    ensures
        r == mine_gravel_for_flint_next(phase, target, blocks, at, tried@, seen),
{
    if phase == GravelPhase::Over || (phase == GravelPhase::Dug && !seen.moved) || seen.flint
        >= target || seen.late {
        (GravelPhase::Over, GravelAction::Done(seen.flint))
    } else {
        match find_gravel(blocks, at) {
            Some(pos) => {
                if contains_pos(tried, pos) {
                    (GravelPhase::Dug, GravelAction::DigDown)
                } else {
                    (GravelPhase::Top, GravelAction::Fetch(pos))
                }
            },
            None => (GravelPhase::Dug, GravelAction::DigDown),
        }
    }
}

/// Only gravel is fetched, the nearest of it, and not twice; the task stops once there
/// is enough flint.
pub proof fn law_gravel_is_fetched_once(
    phase: GravelPhase,
    target: i32,
    blocks: &Blocks,
    at: Pos,
    tried: Seq<Pos>,
    seen: GravelSeen,
    pos: Pos,
)
    requires
        has_room(at, 20),
        mine_gravel_for_flint_next(phase, target, blocks, at, tried, seen).1 == GravelAction::Fetch(pos),
    ensures
        named_at(*blocks, "gravel"@, pos.0 as int, pos.1 as int, pos.2 as int),
        gravel_reach().picks(gravel_from(*blocks, at), (pos.0 - at.0, pos.1 - at.1, pos.2 - at.2)),
        !tried.contains(pos),
        seen.flint < target && !seen.late,
{
    let hit = gravel_from(*blocks, at);
    let d = choose|d: (int, int, int)| gravel_reach().picks(hit, d);
    assert(hit(d.0, d.1, d.2));
}

/// What the step reports of flint.
pub fn report_flint(n: i32, target: i32) -> (r: StepResult)
    ensures
        r.success == (n >= target),
        r.message@ == (if n >= target {
            count_text("got "@, n as int, " flint"@)
        } else {
            count_text("only "@, n as int, " flint"@)
        }),
{
    if n >= target {
        let message = count_message("got ", n, " flint");
        success(message.as_str())
    } else {
        let message = count_message("only ", n, " flint");
        failure(message.as_str())
    }
}

// ── stone ───────────────────────────────────────────────────────────────────

#[derive(Debug, Clone, Copy, PartialEq, Eq)]
pub enum StonePhase {
    Top,
    /// Has made sure of a pickaxe.
    Armed,
    /// Has walked to the stone at a place.
    At(Pos),
    /// Has dug at stone and collected the drops, with this much cobble before.
    Dug(i32),
    /// Has tried to dig down.
    Down,
    Over,
}

#[derive(Debug, Clone, Copy, PartialEq, Eq)]
pub struct MineStone {
    pub target: i32,
    /// Digs in a row that gave no cobblestone.
    pub no_progress: u32,
    pub phase: StonePhase,
}

#[derive(Debug, Clone, Copy, PartialEq, Eq)]
pub struct StoneSeen {
    pub cobble: i32,
    pub late: bool,
    /// A pickaxe is in hand.
    pub armed: bool,
    /// The last dig went through.
    pub dug: bool,
    /// The last dig down got the bot down.
    pub moved: bool,
}

#[derive(Debug, Clone, Copy, PartialEq, Eq, Structural)]
pub enum StoneEnd {
    /// The target is reached, or the time is up.
    Finished,
    NoPickaxe,
    Stuck,
    /// A dig failed.
    Blocked,
}

#[derive(Debug, Clone, Copy, PartialEq, Eq)]
pub enum StoneAction {
    EnsurePickaxe,
    /// Walk to the stone.
    WalkTo(Pos),
    /// Dig the stone and collect the drops.
    Dig(Pos),
    DigDown,
    /// Go on, and tell how much cobblestone there is if there is more.
    GoOn(bool),
    Done(i32, StoneEnd),
}

/// How far out stone is looked for.
pub const STONE_REACH: i32 = 4;

pub open spec fn stone_start(target: i32) -> MineStone {
    MineStone { target, no_progress: 0, phase: StonePhase::Top }
}

pub fn start_mine_stone(target: i32) -> (r: MineStone)
    ensures
        r == stone_start(target),
{
    MineStone { target, no_progress: 0, phase: StonePhase::Top }
}

/// The start of a turn of `mine_stone`.
pub open spec fn mine_stone_top_next(state: MineStone, seen: StoneSeen) -> (MineStone, StoneAction) {
    if seen.cobble < state.target && !seen.late {
        (MineStone { phase: StonePhase::Armed, ..state }, StoneAction::EnsurePickaxe)
    } else {
        (
            MineStone { phase: StonePhase::Over, ..state },
            StoneAction::Done(seen.cobble, StoneEnd::Finished),
        )
    }
}

/// The start of a turn of `mine_stone`.
fn mine_stone_top(state: MineStone, seen: StoneSeen) -> (r: (MineStone, StoneAction))
    ensures
        r == mine_stone_top_next(state, seen),
{
    if seen.cobble < state.target && !seen.late {
        (MineStone { phase: StonePhase::Armed, ..state }, StoneAction::EnsurePickaxe)
    } else {
        (
            MineStone { phase: StonePhase::Over, ..state },
            StoneAction::Done(seen.cobble, StoneEnd::Finished),
        )
    }
}

/// What `mine_stone` does next.
pub open spec fn mine_stone_next(state: MineStone, blocks: &Blocks, at: Pos, seen: StoneSeen) -> (
    MineStone,
    StoneAction,
) {
    match state.phase {
        StonePhase::Top => mine_stone_top_next(state, seen),
        StonePhase::Armed => {
            if !seen.armed {
                (
                    MineStone { phase: StonePhase::Over, ..state },
                    StoneAction::Done(seen.cobble, StoneEnd::NoPickaxe),
                )
            } else if state.no_progress > 25 {
                (
                    MineStone { phase: StonePhase::Over, ..state },
                    StoneAction::Done(seen.cobble, StoneEnd::Stuck),
                )
            } else {
                match found_near(cube(STONE_REACH), stone_from(*blocks, at), at) {
                    Some(pos) => (
                        MineStone { phase: StonePhase::At(pos), ..state },
                        StoneAction::WalkTo(pos),
                    ),
                    None => (MineStone { phase: StonePhase::Down, ..state }, StoneAction::DigDown),
                }
            }
        },
        StonePhase::At(pos) => (
            MineStone { phase: StonePhase::Dug(seen.cobble), ..state },
            StoneAction::Dig(pos),
        ),
        StonePhase::Dug(before) => {
            if !seen.dug {
                (
                    MineStone { phase: StonePhase::Over, ..state },
                    StoneAction::Done(seen.cobble, StoneEnd::Blocked),
                )
            } else if seen.cobble > before {
                (
                    MineStone { no_progress: 0, phase: StonePhase::Top, ..state },
                    StoneAction::GoOn(true),
                )
            } else if state.no_progress >= 4 {
                (
                    MineStone {
                        no_progress: (state.no_progress + 1) as u32,
                        phase: StonePhase::Down,
                        ..state
                    },
                    StoneAction::DigDown,
                )
            } else {
                (
                    MineStone {
                        no_progress: (state.no_progress + 1) as u32,
                        phase: StonePhase::Top,
                        ..state
                    },
                    StoneAction::GoOn(false),
                )
            }
        },
        StonePhase::Down => {
            if seen.moved {
                mine_stone_top_next(state, seen)
            } else {
                (
                    MineStone { phase: StonePhase::Over, ..state },
                    StoneAction::Done(seen.cobble, StoneEnd::Blocked),
                )
            }
        },
        StonePhase::Over => (state, StoneAction::Done(seen.cobble, StoneEnd::Finished)),
    }
}

/// Mines `target` cobblestone: digs the nearest stone within reach, and digs down
/// where there is none or where five digs in a row have given nothing. Stops without
/// a pickaxe (stone mined by hand drops nothing) and after 26 such digs.
pub fn mine_stone(state: MineStone, blocks: &Blocks, at: Pos, seen: StoneSeen) -> (r: (
    MineStone,
    StoneAction,
))
    requires
        state.no_progress < u32::MAX,
        has_room(at, STONE_REACH as int),
    ensures
        r == mine_stone_next(state, blocks, at, seen),
{
    match state.phase {
        StonePhase::Top => mine_stone_top(state, seen),
        StonePhase::Armed => {
            if !seen.armed {
                (
                    MineStone { phase: StonePhase::Over, ..state },
                    StoneAction::Done(seen.cobble, StoneEnd::NoPickaxe),
                )
            } else if state.no_progress > 25 {
                (
                    MineStone { phase: StonePhase::Over, ..state },
                    StoneAction::Done(seen.cobble, StoneEnd::Stuck),
                )
            } else {
                match find_stone(blocks, at, STONE_REACH) {
                    Some(pos) => (
                        MineStone { phase: StonePhase::At(pos), ..state },
                        StoneAction::WalkTo(pos),
                    ),
                    None => (MineStone { phase: StonePhase::Down, ..state }, StoneAction::DigDown),
                }
            }
        },
        StonePhase::At(pos) => (
            MineStone { phase: StonePhase::Dug(seen.cobble), ..state },
            StoneAction::Dig(pos),
        ),
        StonePhase::Dug(before) => {
            if !seen.dug {
                (
                    MineStone { phase: StonePhase::Over, ..state },
                    StoneAction::Done(seen.cobble, StoneEnd::Blocked),
                )
            } else if seen.cobble > before {
                (
                    MineStone { no_progress: 0, phase: StonePhase::Top, ..state },
                    StoneAction::GoOn(true),
                )
            } else if state.no_progress >= 4 {
                (
                    MineStone {
                        no_progress: (state.no_progress + 1) as u32,
                        phase: StonePhase::Down,
                        ..state
                    },
                    StoneAction::DigDown,
                )
            } else {
                (
                    MineStone {
                        no_progress: (state.no_progress + 1) as u32,
                        phase: StonePhase::Top,
                        ..state
                    },
                    StoneAction::GoOn(false),
                )
            }
        },
        StonePhase::Down => {
            if seen.moved {
                mine_stone_top(state, seen)
            } else {
                (
                    MineStone { phase: StonePhase::Over, ..state },
                    StoneAction::Done(seen.cobble, StoneEnd::Blocked),
                )
            }
        },
        StonePhase::Over => (state, StoneAction::Done(seen.cobble, StoneEnd::Finished)),
    }
}

/// `mine_stone` never counts more than 26 digs without progress.
pub open spec fn mine_stone_wf(state: MineStone) -> bool {
    &&& state.no_progress <= 26
    &&& state.phase is Dug || state.phase is At ==> state.no_progress <= 25
}

/// A dig that gives nothing is counted, and after 26 of them no more stone is dug.
pub proof fn law_stone_digs_are_counted(state: MineStone, blocks: &Blocks, at: Pos, seen: StoneSeen)
    ensures
        mine_stone_wf(stone_start(state.target)),
        mine_stone_wf(state) ==> mine_stone_wf(mine_stone_next(state, blocks, at, seen).0),
{
}

/// Stone is not mined by hand, nor after 26 digs without progress: the bot walks only to
/// stone, the nearest of it, and only with a pickaxe in hand, and digs only where it has
/// walked to.
pub proof fn law_stone_needs_a_pickaxe(
    state: MineStone,
    blocks: &Blocks,
    at: Pos,
    seen: StoneSeen,
    pos: Pos,
)
    requires
        has_room(at, STONE_REACH as int),
    ensures
        mine_stone_next(state, blocks, at, seen).1 == StoneAction::WalkTo(pos) ==> {
            &&& state.phase == StonePhase::Armed && seen.armed && state.no_progress <= 25
            &&& stone_at(*blocks, pos.0 as int, pos.1 as int, pos.2 as int)
            &&& cube(STONE_REACH).picks(
                stone_from(*blocks, at),
                (pos.0 - at.0, pos.1 - at.1, pos.2 - at.2),
            )
        },
        mine_stone_next(state, blocks, at, seen).0.phase == StonePhase::At(pos) ==> mine_stone_next(
            state,
            blocks,
            at,
            seen,
        ).1 == StoneAction::WalkTo(pos),
        mine_stone_next(state, blocks, at, seen).1 == StoneAction::Dig(pos) ==> state.phase
            == StonePhase::At(pos),
{
    let hit = stone_from(*blocks, at);
    if exists|d: (int, int, int)| cube(STONE_REACH).picks(hit, d) {
        let d = choose|d: (int, int, int)| cube(STONE_REACH).picks(hit, d);
        assert(hit(d.0, d.1, d.2));
    }
}

/// The task ends with fewer than the target only out of time, without a pickaxe,
/// stuck or blocked.
pub proof fn law_stone_stops_short_for_a_reason(
    state: MineStone,
    blocks: &Blocks,
    at: Pos,
    seen: StoneSeen,
    n: i32,
)
    requires
        mine_stone_next(state, blocks, at, seen).1 == StoneAction::Done(n, StoneEnd::Finished),
        state.phase != StonePhase::Over,
    ensures
        n == seen.cobble,
        n >= state.target || seen.late,
{
}

/// What the step reports of stone: a success exactly if the target was reached.
pub fn report_stone(n: i32, target: i32) -> (r: StepResult)
    ensures
        r.success == (n >= target),
        r.message@ == ratio_text("mined "@, n as int, target as int, " cobblestone"@),
{
    let message = ratio_message("mined ", n, target, " cobblestone");
    if n >= target {
        success(message.as_str())
    } else {
        failure(message.as_str())
    }
}

// ── what holds of every step ────────────────────────────────────────────────

/// The bot digs or drops only where no cell that the hole opens to holds liquid: the block
/// itself, the one below and the four beside it.
pub proof fn law_liquid_around_is_noticed(blocks: Blocks, x: int, y: int, z: int, dx: int, dy: int, dz: int)
    requires
        (dx == 0 && dz == 0 && -1 <= dy <= 0) || (dy == 0 && (dx == 0 && (dz == 1 || dz == -1) || dz == 0
            && (dx == 1 || dx == -1))),
    ensures
        liquid_at(blocks, x + dx, y + dy, z + dz) ==> liquid_touches(blocks, x, y, z),
{
}

/// Nothing farther off keeps the bot from digging.
pub proof fn law_only_liquid_around_is_noticed(blocks: Blocks, x: int, y: int, z: int)
    requires
        liquid_touches(blocks, x, y, z),
    ensures
        exists|dx: int, dy: int, dz: int|
            ((dx == 0 && dz == 0 && -1 <= dy <= 0) || (dy == 0 && dx * dx + dz * dz == 1))
                && #[trigger] liquid_at(blocks, x + dx, y + dy, z + dz),
{
    if liquid_at(blocks, x, y, z) {
        assert(liquid_at(blocks, x + 0, y + 0, z + 0));
    } else if liquid_at(blocks, x, y - 1, z) {
        assert(liquid_at(blocks, x + 0, y + (-1), z + 0));
    } else if liquid_at(blocks, x + 1, y, z) {
        assert(liquid_at(blocks, x + 1, y + 0, z + 0));
    } else if liquid_at(blocks, x - 1, y, z) {
        assert(liquid_at(blocks, x + (-1), y + 0, z + 0));
    } else if liquid_at(blocks, x, y, z + 1) {
        assert(liquid_at(blocks, x + 0, y + 0, z + 1));
    } else {
        assert(liquid_at(blocks, x + 0, y + 0, z + (-1)));
    }
}

/// A drop is deep if the three blocks below are air, whatever is farther down.
pub proof fn law_a_deep_drop_is_three_blocks(states: States, x: int, y: int, z: int)
    ensures
        over_a_drop(states, x, y, z) <==> forall|d: int|
            1 <= d <= 3 ==> #[trigger] block_state(states, x, y - d, z) == 0,
{
    if forall|d: int| 1 <= d <= 3 ==> #[trigger] block_state(states, x, y - d, z) == 0 {
        assert(block_state(states, x, y - 1, z) == 0);
        assert(block_state(states, x, y - 2, z) == 0);
        assert(block_state(states, x, y - 3, z) == 0);
    }
}

/// The bot goes down wherever that is safe: it refuses exactly next to liquid, over a deep
/// drop and at the bottom of the world, drops where the cell is open and digs where it is
/// not. A dig that went through is waited for, and what is reported is whether the bot has
/// come down.
pub proof fn law_digging_down_comes_to_an_answer(
    phase: DownPhase,
    blocks: &Blocks,
    states: &States,
    block: Pos,
    min_y: i32,
    seen: DownSeen,
)
    ensures
        ({
            let (next, action) = dig_down_next(phase, blocks, states, block, min_y, seen);
            let safe = !liquid_touches(*blocks, block.0 as int, block.1 as int, block.2 as int)
                && !over_a_drop(*states, block.0 as int, block.1 as int, block.2 as int) && block.1 > min_y
                + 4;
            let open = block_state(*states, block.0 as int, block.1 as int, block.2 as int) == 0;
            &&& next == DownPhase::Over <==> action is Done
            &&& phase == DownPhase::Start ==> {
                &&& action == DownAction::Done(false) <==> !safe
                &&& action == DownAction::Wait <==> safe && open
                &&& action == DownAction::Dig(block) <==> safe && !open
                &&& action == DownAction::Wait ==> next == DownPhase::Fallen
                &&& action is Dig ==> next == DownPhase::Dug
            }
            &&& phase == DownPhase::Fallen ==> action == DownAction::Done(true)
            &&& phase == DownPhase::Dug ==> if seen.dug {
                action == DownAction::Wait && next == DownPhase::Landed
            } else {
                action == DownAction::Done(false)
            }
            &&& phase == DownPhase::Landed ==> action == DownAction::Done(seen.lower)
            &&& phase == DownPhase::Over ==> action == DownAction::Done(false)
        }),
{
}

/// A stair step is dug exactly where the world goes on below it and none of the four cells
/// that it opens or stands on holds liquid.
pub proof fn law_a_step_is_safe_where_it_is_dry(blocks: Blocks, at: Pos, min_y: int, dx: i32, dz: i32)
    ensures
        step_is_safe(blocks, at, min_y, dx, dz) <==> at.1 - 2 > min_y + 4 && forall|dy: int|
            -2 <= dy <= 1 ==> !(#[trigger] liquid_at(blocks, at.0 + dx, at.1 + dy, at.2 + dz)),
{
    if forall|dy: int| -2 <= dy <= 1 ==> !(#[trigger] liquid_at(blocks, at.0 + dx, at.1 + dy, at.2 + dz)) {
        assert(!liquid_at(blocks, at.0 + dx, at.1 + (-2), at.2 + dz));
        assert(!liquid_at(blocks, at.0 + dx, at.1 + (-1), at.2 + dz));
        assert(!liquid_at(blocks, at.0 + dx, at.1 + 0, at.2 + dz));
        assert(!liquid_at(blocks, at.0 + dx, at.1 + 1, at.2 + dz));
    }
}

/// The state after a run of observations of a stair step, and the last thing it did.
pub open spec fn descend_step_run(
    blocks: &Blocks,
    at: Pos,
    min_y: i32,
    way: (i32, i32),
    seen: Seq<StairSeen>,
) -> (StairPhase, StairAction)
    decreases seen.len(),
{
    if seen.len() == 0 {
        (StairPhase::Start, StairAction::Done(false))
    } else {
        let before = descend_step_run(blocks, at, min_y, way, seen.drop_last()).0;
        descend_step_next(before, blocks, at, min_y, way, seen.last())
    }
}

/// A step that is safe is opened at the head, at the feet and below, in that order, and
/// walked onto. The bot helps itself along only where the pathfinder did not, and in the
/// end it says whether it stands lower than before. A step that is not safe is refused.
pub proof fn law_a_stair_step_is_opened_and_walked(
    blocks: &Blocks,
    at: Pos,
    min_y: i32,
    way: (i32, i32),
    seen: Seq<StairSeen>,
)
    requires
        seen.len() == 6,
        has_room(at, 3),
        -1 <= way.0 <= 1,
        -1 <= way.1 <= 1,
    ensures
        ({
            let (x, z) = ((at.0 + way.0) as i32, (at.2 + way.1) as i32);
            let did = |k: int| descend_step_run(blocks, at, min_y, way, seen.take(k)).1;
            if step_is_safe(*blocks, at, min_y as int, way.0, way.1) {
                &&& did(1) == StairAction::Dig((x, (at.1 + 1) as i32, z))
                &&& did(2) == StairAction::Dig((x, at.1, z))
                &&& did(3) == StairAction::Dig((x, (at.1 - 1) as i32, z))
                &&& did(4) == StairAction::Walk((x, (at.1 - 1) as i32, z))
                &&& seen[4].moved ==> did(5) == StairAction::Done(seen[4].lower)
                &&& !seen[4].moved ==> did(5) == StairAction::Nudge((x, (at.1 - 1) as i32, z)) && did(6)
                    == StairAction::Done(seen[5].lower)
            } else {
                did(1) == StairAction::Done(false)
            }
        }),
{
    reveal_with_fuel(descend_step_run, 8);
    assert forall|k: int| 1 <= k <= 6 implies (#[trigger] seen.take(k)).drop_last() =~= seen.take(k - 1)
        && seen.take(k).last() == seen[k - 1] by {}
    assert(seen.take(1).drop_last() =~= seen.take(0));
    assert(seen.take(2).drop_last() =~= seen.take(1));
    assert(seen.take(3).drop_last() =~= seen.take(2));
    assert(seen.take(4).drop_last() =~= seen.take(3));
    assert(seen.take(5).drop_last() =~= seen.take(4));
    assert(seen.take(6).drop_last() =~= seen.take(5));
}

/// Stone is what drops cobblestone, and what cobblestone makes: these blocks and no others.
pub proof fn law_these_blocks_are_stone(n: Seq<char>)
    ensures
        is_stone_name(n) <==> seq![
            "stone"@,
            "cobblestone"@,
            "deepslate"@,
            "cobbled_deepslate"@,
            "andesite"@,
            "diorite"@,
            "granite"@,
            "tuff"@,
        ].contains(n),
        cobble_name()(n) <==> seq!["cobblestone"@, "cobbled_deepslate"@].contains(n),
{
    let stones = seq![
        "stone"@,
        "cobblestone"@,
        "deepslate"@,
        "cobbled_deepslate"@,
        "andesite"@,
        "diorite"@,
        "granite"@,
        "tuff"@,
    ];
    assert(stones[0] == "stone"@ && stones[1] == "cobblestone"@ && stones[2] == "deepslate"@ && stones[3]
        == "cobbled_deepslate"@ && stones[4] == "andesite"@ && stones[5] == "diorite"@ && stones[6]
        == "granite"@ && stones[7] == "tuff"@);
    let drops = seq!["cobblestone"@, "cobbled_deepslate"@];
    assert(drops[0] == "cobblestone"@ && drops[1] == "cobbled_deepslate"@);
}

/// Stone and gravel are looked for in every direction the same way: a search around the
/// bot covers a cell exactly if no side is farther off than it reaches.
pub proof fn law_searches_reach_so_far(r: i32, dx: int, dy: int, dz: int)
    requires
        i32::MIN < r,
    ensures
        cube(r).covers(dx, dy, dz) <==> -r <= dx <= r && -r <= dy <= r && -r <= dz <= r,
        cube(r).cost(dx, dy, dz) == dx * dx + dy * dy + dz * dz,
        gravel_reach().covers(dx, dy, dz) <==> -20 <= dx <= 20 && -12 <= dy <= 6 && -20 <= dz <= 20,
        gravel_reach().cost(dx, dy, dz) == dx * dx + dy * dy + dz * dz,
{
}

/// A pickaxe is said to be in hand only where the last one that was tried is, or one was
/// held from the start. The bot is left unarmed with pickaxes only once all that it carries
/// have had their turn.
pub proof fn law_armed_means_armed(
    tried: usize,
    held: Option<String>,
    slots: Seq<Option<Stack>>,
    selected: bool,
    other: Pickaxe,
)
    ensures
        equip_pickaxe_next(tried, slots, selected).1 == EquipAction::Done(true) <==> tried > 0 && selected,
        equip_pickaxe_next(tried, slots, selected).1 == EquipAction::Unconfirmed && carries(slots, other)
            ==> pickaxe_place(other) < tried,
        equip_pickaxe_next(tried, slots, selected).1 == EquipAction::Unconfirmed ==> exists|p: Pickaxe|
            #[trigger] carries(slots, p),
        tried == 0 && (held matches Some(name) && is_tail("_pickaxe"@, name@)) ==> ensure_pickaxe_next(
            tried,
            held,
            slots,
            selected,
        ).1 == EquipAction::Done(true),
        !(tried == 0 && (held matches Some(name) && is_tail("_pickaxe"@, name@)))
            ==> ensure_pickaxe_next(tried, held, slots, selected) == equip_pickaxe_next(
            tried,
            slots,
            selected,
        ),
{
    lemma_first_carried(slots, tried as int);
    lemma_first_carried(slots, 0);
    assert(PICKAXES[pickaxe_place(other)] == other);
}

/// The pickaxe that is selected is the next to be asked after: a bot that holds it is done,
/// and one that does not goes on behind it.
pub proof fn law_a_pickaxe_has_one_turn(tried: usize, slots: Seq<Option<Stack>>, selected: bool, p: Pickaxe)
    requires
        equip_pickaxe_next(tried, slots, selected).1 == EquipAction::Select(p),
    ensures
        equip_pickaxe_next(tried, slots, selected).0 == pickaxe_place(p) + 1,
        carries(slots, p) <==> exists|i: int| 0 <= i < slots.len() && slot_named(#[trigger] slots[i], p.text()),
{
    lemma_first_carried(slots, tried as int);
    let k = first_carried(slots, tried as int);
    assert(PICKAXES[k] == p);
}

/// What a pickaxe is called and what it can mine.
pub proof fn law_pickaxes_by_name(n: Seq<char>)
    ensures
        Pickaxe::Netherite.text() == "netherite_pickaxe"@,
        Pickaxe::Diamond.text() == "diamond_pickaxe"@,
        Pickaxe::Iron.text() == "iron_pickaxe"@,
        Pickaxe::Stone.text() == "stone_pickaxe"@,
        Pickaxe::Golden.text() == "golden_pickaxe"@,
        Pickaxe::Wooden.text() == "wooden_pickaxe"@,
        pickaxe_rank_of(n) == 4 <==> n == "diamond_pickaxe"@ || n == "netherite_pickaxe"@,
        pickaxe_rank_of(n) == 3 <==> n == "iron_pickaxe"@,
        pickaxe_rank_of(n) == 2 <==> n == "stone_pickaxe"@,
        pickaxe_rank_of(n) == 1 <==> n == "wooden_pickaxe"@ || n == "golden_pickaxe"@,
        0 <= pickaxe_rank_of(n) <= 4,
{
    reveal_strlit("netherite_pickaxe");
    reveal_strlit("diamond_pickaxe");
    reveal_strlit("iron_pickaxe");
    reveal_strlit("stone_pickaxe");
    reveal_strlit("golden_pickaxe");
    reveal_strlit("wooden_pickaxe");
    assert("netherite_pickaxe"@[0] == 'n' && "diamond_pickaxe"@[0] == 'd' && "iron_pickaxe"@[0] == 'i'
        && "stone_pickaxe"@[0] == 's' && "golden_pickaxe"@[0] == 'g' && "wooden_pickaxe"@[0] == 'w');
}

/// The best rank is that of something carried.
pub proof fn law_the_best_rank_is_carried(slots: Seq<Option<Stack>>)
    ensures
        best_rank(slots) > 0 ==> exists|i: int|
            0 <= i < slots.len() && (#[trigger] slots[i] matches Some(stack) && pickaxe_rank_of(stack.name@)
                == best_rank(slots)),
        best_rank(slots) >= 0,
    decreases slots.len(),
{
    if slots.len() > 0 {
        law_the_best_rank_is_carried(slots.drop_last());
        if best_rank(slots.drop_last()) == best_rank(slots) && best_rank(slots) > 0 {
            let i = choose|i: int|
                0 <= i < slots.drop_last().len() && (#[trigger] slots.drop_last()[i] matches Some(stack)
                    && pickaxe_rank_of(stack.name@) == best_rank(slots.drop_last()));
            assert(slots[i] == slots.drop_last()[i]);
        } else {
            assert(slots[slots.len() - 1] == slots.last());
        }
    }
}

/// An ore family is its block in stone and its block in deepslate.
pub proof fn law_ore_families(name: Seq<char>, ore: Seq<char>)
    ensures
        ore == "coal"@ ==> (ore_matches(name, ore) <==> name == "coal_ore"@ || name == "deepslate_coal_ore"@),
        ore == "iron"@ ==> (ore_matches(name, ore) <==> name == "iron_ore"@ || name == "deepslate_iron_ore"@),
        ore == "gold"@ ==> (ore_matches(name, ore) <==> name == "gold_ore"@ || name == "deepslate_gold_ore"@),
        ore_matches(name, ore) ==> ore == "coal"@ || ore == "iron"@ || ore == "gold"@,
        ore == "coal"@ ==> ore_kind_of(ore) == PoiKind::CoalOre,
        ore == "iron"@ ==> ore_kind_of(ore) == PoiKind::IronOre,
        ore == "gold"@ ==> ore_kind_of(ore) == PoiKind::GoldOre,
        ore == "diamond"@ ==> ore_kind_of(ore) == PoiKind::DiamondOre,
{
    reveal_strlit("coal");
    reveal_strlit("iron");
    reveal_strlit("gold");
    reveal_strlit("diamond");
    assert("coal"@[0] == 'c' && "iron"@[0] == 'i' && "gold"@[0] == 'g' && "diamond"@[0] == 'd');
}

/// An ore is noted by what its block is called, under its own kind and with the pickaxe that
/// it takes; nothing else is noted.
pub proof fn law_ores_are_noted_by_name(n: Seq<char>)
    ensures
        occurs_in("iron_ore"@, n) ==> kind_and_tier(n) == Some((PoiKind::IronOre, 2i32)),
        kind_and_tier(n) matches Some(ore) ==> match ore.0 {
            PoiKind::IronOre => occurs_in("iron_ore"@, n) && ore.1 == 2,
            PoiKind::CoalOre => occurs_in("coal_ore"@, n) && ore.1 == 1,
            PoiKind::CopperOre => occurs_in("copper_ore"@, n) && ore.1 == 2,
            PoiKind::GoldOre => occurs_in("gold_ore"@, n) && ore.1 == 3,
            PoiKind::DiamondOre => occurs_in("diamond_ore"@, n) && ore.1 == 3,
            PoiKind::RedstoneOre => occurs_in("redstone_ore"@, n) && ore.1 == 3,
            PoiKind::LapisOre => occurs_in("lapis_ore"@, n) && ore.1 == 2,
            _ => false,
        },
        kind_and_tier(n) is None <==> !occurs_in("iron_ore"@, n) && !occurs_in("coal_ore"@, n) && !occurs_in(
            "copper_ore"@,
            n,
        ) && !occurs_in("gold_ore"@, n) && !occurs_in("diamond_ore"@, n) && !occurs_in("redstone_ore"@, n)
            && !occurs_in("lapis_ore"@, n),
{
}

/// A state is an ore exactly if a block of the registry that is an ore has it, and then it
/// is one of those ores.
pub proof fn law_ore_states_are_those_of_ore_blocks(kinds: Seq<BlockKind>, s: u32)
    ensures
        ore_of_state(kinds, s) is Some <==> exists|i: int|
            0 <= i < kinds.len() && (#[trigger] kinds[i]).min_state_id <= s <= kinds[i].max_state_id
                && kind_and_tier(kinds[i].name@) is Some,
        ore_of_state(kinds, s) matches Some(ore) ==> exists|i: int|
            0 <= i < kinds.len() && (#[trigger] kinds[i]).min_state_id <= s <= kinds[i].max_state_id
                && kind_and_tier(kinds[i].name@) == Some(ore),
    decreases kinds.len(),
{
    if kinds.len() > 0 {
        let rest = kinds.drop_last();
        law_ore_states_are_those_of_ore_blocks(rest, s);
        assert forall|i: int| 0 <= i < rest.len() implies #[trigger] rest[i] == kinds[i] by {}
        if ore_of_state(rest, s) is Some {
            let i = choose|i: int|
                0 <= i < rest.len() && (#[trigger] rest[i]).min_state_id <= s <= rest[i].max_state_id
                    && kind_and_tier(rest[i].name@) == ore_of_state(rest, s);
            assert(kinds[i] == rest[i]);
        }
        assert(kinds[kinds.len() - 1] == kinds.last());
        if exists|i: int|
            0 <= i < kinds.len() && (#[trigger] kinds[i]).min_state_id <= s <= kinds[i].max_state_id
                && kind_and_tier(kinds[i].name@) is Some {
            let i = choose|i: int|
                0 <= i < kinds.len() && (#[trigger] kinds[i]).min_state_id <= s <= kinds[i].max_state_id
                    && kind_and_tier(kinds[i].name@) is Some;
            if i < rest.len() {
                assert(rest[i] == kinds[i]);
            }
        }
    }
}

/// A vein spreads over faces: the cells around an open one are exactly those that touch it.
pub proof fn law_veins_spread_over_faces(p: Pos, q: Pos)
    requires
        has_room(p, 1),
    ensures
        neighbours(p).contains(q) <==> (q.0 - p.0) * (q.0 - p.0) + (q.1 - p.1) * (q.1 - p.1) + (q.2 - p.2) * (
        q.2 - p.2) == 1,
        touches(q, p) <==> neighbours(p).contains(q),
{
    let n = neighbours(p);
    assert(n[0] == ((p.0 + 1) as i32, p.1, p.2));
    assert(n[1] == ((p.0 - 1) as i32, p.1, p.2));
    assert(n[2] == (p.0, (p.1 + 1) as i32, p.2));
    assert(n[3] == (p.0, (p.1 - 1) as i32, p.2));
    assert(n[4] == (p.0, p.1, (p.2 + 1) as i32));
    assert(n[5] == (p.0, p.1, (p.2 - 1) as i32));
    let (a, b, c) = (q.0 - p.0, q.1 - p.1, q.2 - p.2);
    assert(a * a + b * b + c * c == 1 <==> ((a == 1 || a == -1) && b == 0 && c == 0) || ((b == 1 || b == -1)
        && a == 0 && c == 0) || ((c == 1 || c == -1) && a == 0 && b == 0)) by (nonlinear_arith);
}

/// What is left of the frontier is what stood before the position that is taken.
pub proof fn law_the_frontier_is_worked_off(frontier: Seq<Pos>, seen: Seq<Pos>)
    ensures
        ({
            let (rest, found) = next_unseen(frontier, seen);
            &&& rest.len() <= frontier.len()
            &&& rest == frontier.take(rest.len() as int)
            &&& found matches Some(p) ==> rest.len() < frontier.len() && p == frontier[rest.len() as int]
                && forall|i: int| rest.len() < i < frontier.len() ==> seen.contains(#[trigger] frontier[i])
            &&& found is None ==> rest.len() == 0
        }),
    decreases frontier.len(),
{
    if frontier.len() > 0 {
        if seen.contains(frontier.last()) {
            law_the_frontier_is_worked_off(frontier.drop_last(), seen);
            let rest = next_unseen(frontier, seen).0;
            assert(frontier.drop_last().take(rest.len() as int) =~= frontier.take(rest.len() as int));
            assert forall|i: int| rest.len() < i < frontier.len() && next_unseen(frontier, seen).1 is Some implies
                seen.contains(#[trigger] frontier[i]) by {
                if i < frontier.len() - 1 {
                    assert(frontier.drop_last()[i] == frontier[i]);
                }
            }
        } else {
            assert(frontier.drop_last() =~= frontier.take(frontier.len() - 1));
        }
    } else {
        assert(frontier =~= frontier.take(0));
    }
}

/// Ore is mined until there is enough of it: the task ends with what there is, because the
/// target is reached or the time is up, because the bot has been in one place without more
/// ore for over 30 turns, or for want of a pickaxe, and it ends for each of these.
pub proof fn law_ore_ends_for_a_reason(state: MineOre, seen: OreSeen)
    requires
        state.phase != OrePhase::Over,
        state.turns < u32::MAX,
        state.stuck < u32::MAX,
    ensures
        ({
            let action = mine_ore_next(state, seen).1;
            let idle = seen.count <= state.last_count && seen.pos == state.last_pos;
            let short = seen.count < state.target && !seen.late;
            &&& action matches OreAction::Done(n, end) ==> n == seen.count
            &&& (action matches OreAction::Done(n, end) && end == OreEnd::Finished) <==> state.phase
                == OrePhase::Top && !short
            &&& (action matches OreAction::Done(n, end) && end == OreEnd::Stuck) <==> state.phase
                == OrePhase::Top && short && idle && state.stuck >= 30
            &&& (action matches OreAction::Done(n, end) && end == OreEnd::NoPickaxe) <==> state.phase
                == OrePhase::Armed && !seen.armed
        }),
{
}

/// While there is too little ore and time to get more, a turn begins with a pickaxe in hand.
/// A bot that has got more ore or has moved since the last turn counts as fresh, any other
/// as stuck for one turn more.
pub proof fn law_ore_turns_go_on(state: MineOre, seen: OreSeen)
    requires
        state.phase == OrePhase::Top,
        seen.count < state.target,
        !seen.late,
        state.turns < u32::MAX,
        state.stuck < 30,
    ensures
        ({
            let (next, action) = mine_ore_next(state, seen);
            &&& action == OreAction::EnsurePickaxe
            &&& next.phase == OrePhase::Armed
            &&& next.turns == state.turns + 1
            &&& next.last_count == seen.count && next.last_pos == seen.pos
            &&& seen.count > state.last_count || seen.pos != state.last_pos ==> next.stuck == 0
            &&& !(seen.count > state.last_count || seen.pos != state.last_pos) ==> next.stuck == state.stuck
                + 1
        }),
{
}

/// Within a turn the bot does the next best thing: it mines what the map knows, and where
/// that knows nothing it goes down to the ore, by digging, else by a step, else on to the
/// south, and searches south once it is deep enough. Every way leads to the next turn.
pub proof fn law_ore_is_searched_for_south_and_down(state: MineOre, seen: OreSeen)
    ensures
        ({
            let (next, action) = mine_ore_next(state, seen);
            &&& next.target == state.target && next.depth == state.depth
            &&& state.phase != OrePhase::Top ==> next.turns == state.turns && next.stuck == state.stuck
                && next.last_count == state.last_count && next.last_pos == state.last_pos
            &&& state.phase == OrePhase::Armed && seen.armed ==> action == OreAction::Ask(
                state.turns % 4 == 1,
            ) && next.phase == OrePhase::Asked
            &&& state.phase == OrePhase::Asked ==> match seen.known {
                Some(p) => action == OreAction::MineVein(p) && next.phase == OrePhase::Mined(p),
                None => if seen.pos.1 > state.depth + 2 {
                    action == OreAction::DigDown && next.phase == OrePhase::Dug
                } else {
                    action == OreAction::Tunnel(0, 1) && next.phase == OrePhase::Tunnelled(true)
                },
            }
            &&& state.phase is Mined ==> action is Mark && next.phase == OrePhase::Top
            &&& state.phase == OrePhase::Dug && !seen.moved ==> action == OreAction::StepDown(0, 1)
                && next.phase == OrePhase::Stepped
            &&& state.phase == OrePhase::Stepped && !seen.moved ==> action == OreAction::Tunnel(0, 1)
                && next.phase == OrePhase::Tunnelled(false)
            &&& (state.phase == OrePhase::Dug || state.phase == OrePhase::Stepped) && seen.moved ==> action
                == OreAction::NoteDescent(state.turns % 8 == 0) && next.phase == OrePhase::Top
            &&& state.phase == OrePhase::Tunnelled(true) ==> action == OreAction::NoteSearch(
                seen.moved,
                state.turns % 8 == 0,
            ) && next.phase == OrePhase::Top
            &&& state.phase == OrePhase::Tunnelled(false) ==> action == OreAction::NoteDescent(
                state.turns % 8 == 0,
            ) && next.phase == OrePhase::Top
        }),
{
}

/// A new task starts with a turn, and counts nothing against the bot.
pub proof fn law_ore_starts_afresh(target: i32, depth: i32, count: i32, pos: Pos, seen: OreSeen)
    ensures
        ({
            let start = mine_ore_start(target, depth, count, pos);
            &&& start.target == target && start.depth == depth && start.stuck == 0 && start.turns == 0
            &&& start.last_count == count && start.last_pos == pos
            &&& seen.count < target && !seen.late ==> mine_ore_next(start, seen).1 == OreAction::EnsurePickaxe
            &&& seen.count >= target ==> mine_ore_next(start, seen).1 == OreAction::Done(
                seen.count,
                OreEnd::Finished,
            )
        }),
{
}

/// The state after a run of turns.
pub open spec fn mine_ore_run(state: MineOre, seen: Seq<OreSeen>) -> MineOre
    decreases seen.len(),
{
    if seen.len() == 0 {
        state
    } else {
        mine_ore_next(mine_ore_run(state, seen.drop_last()), seen.last()).0
    }
}

proof fn lemma_mine_ore_run(state: MineOre, seen: Seq<OreSeen>)
    requires
        state.turns + seen.len() < u32::MAX,
        state.stuck + seen.len() < u32::MAX,
    ensures
        mine_ore_run(state, seen).target == state.target,
        mine_ore_run(state, seen).turns <= state.turns + seen.len(),
        mine_ore_run(state, seen).stuck <= state.stuck + seen.len(),
    decreases seen.len(),
{
    if seen.len() > 0 {
        lemma_mine_ore_run(state, seen.drop_last());
    }
}

/// Over a whole run the task reports ore as finished only with the target of its start
/// reached or the time up.
pub proof fn law_ore_runs_reach_the_target(
    target: i32,
    depth: i32,
    count: i32,
    pos: Pos,
    seen: Seq<OreSeen>,
    last: OreSeen,
    n: i32,
)
    requires
        seen.len() < 0x7fff_ffff,
        mine_ore_run(mine_ore_start(target, depth, count, pos), seen).phase != OrePhase::Over,
        mine_ore_next(mine_ore_run(mine_ore_start(target, depth, count, pos), seen), last).1
            == OreAction::Done(n, OreEnd::Finished),
    ensures
        n == last.count,
        n >= target || last.late,
{
    lemma_mine_ore_run(mine_ore_start(target, depth, count, pos), seen);
}

/// Gravel is fetched until there is enough flint: the task ends exactly if there is, if the
/// time is up or if the bot can get no farther down. Otherwise it fetches the nearest gravel
/// that it has not tried, and where that has been tried or there is none it digs down.
pub proof fn law_flint_ends_for_a_reason(
    phase: GravelPhase,
    target: i32,
    blocks: &Blocks,
    at: Pos,
    tried: Seq<Pos>,
    seen: GravelSeen,
)
    ensures
        ({
            let (next, action) = mine_gravel_for_flint_next(phase, target, blocks, at, tried, seen);
            let nearest = found_near(gravel_reach(), gravel_from(*blocks, at), at);
            let over = phase == GravelPhase::Over || seen.flint >= target || seen.late || (phase
                == GravelPhase::Dug && !seen.moved);
            &&& action is Done <==> over
            &&& action matches GravelAction::Done(n) ==> n == seen.flint && next == GravelPhase::Over
            &&& !over && (nearest matches Some(p) && !tried.contains(p)) ==> action == GravelAction::Fetch(
                nearest->0,
            ) && next == GravelPhase::Top
            &&& !over && !(nearest matches Some(p) && !tried.contains(p)) ==> action
                == GravelAction::DigDown && next == GravelPhase::Dug
        }),
{
}

/// Stone is mined until there is enough of it: the task ends with what there is, because the
/// target is reached or the time is up, for want of a pickaxe, after more than 25 digs that
/// gave nothing, or because a dig failed, and it ends for each of these.
pub proof fn law_stone_ends_for_a_reason(state: MineStone, blocks: &Blocks, at: Pos, seen: StoneSeen)
    requires
        state.phase != StonePhase::Over,
    ensures
        ({
            let (next, action) = mine_stone_next(state, blocks, at, seen);
            let top = state.phase == StonePhase::Top || (state.phase == StonePhase::Down && seen.moved);
            let short = seen.cobble < state.target && !seen.late;
            &&& next.phase == StonePhase::Over <==> action is Done
            &&& next.target == state.target
            &&& action matches StoneAction::Done(n, end) ==> n == seen.cobble
            &&& (action matches StoneAction::Done(n, end) && end == StoneEnd::Finished) <==> top && !short
            &&& (action matches StoneAction::Done(n, end) && end == StoneEnd::NoPickaxe) <==> state.phase
                == StonePhase::Armed && !seen.armed
            &&& (action matches StoneAction::Done(n, end) && end == StoneEnd::Stuck) <==> state.phase
                == StonePhase::Armed && seen.armed && state.no_progress > 25
            &&& (action matches StoneAction::Done(n, end) && end == StoneEnd::Blocked) <==> (state.phase is Dug
                && !seen.dug) || (state.phase == StonePhase::Down && !seen.moved)
            &&& action == StoneAction::EnsurePickaxe <==> top && short
            &&& action == StoneAction::EnsurePickaxe ==> next.phase == StonePhase::Armed && next.no_progress
                == state.no_progress
        }),
{
}

/// An armed bot digs the nearest stone where there is some in reach and down where there is
/// none. A dig that gave cobblestone starts the next turn with a clean slate; one that gave
/// none is counted, and from the fifth on the bot goes down instead.
pub proof fn law_stone_digs_lead_on(state: MineStone, blocks: &Blocks, at: Pos, seen: StoneSeen)
    requires
        mine_stone_wf(state),
    ensures
        ({
            let (next, action) = mine_stone_next(state, blocks, at, seen);
            let nearest = found_near(cube(STONE_REACH), stone_from(*blocks, at), at);
            &&& state.phase == StonePhase::Armed && seen.armed && state.no_progress <= 25 ==> next.no_progress
                == state.no_progress && match nearest {
                Some(p) => action == StoneAction::WalkTo(p) && next.phase == StonePhase::At(p),
                None => action == StoneAction::DigDown && next.phase == StonePhase::Down,
            }
            &&& state.phase matches StonePhase::At(p) ==> action == StoneAction::Dig(p) && next.phase
                == StonePhase::Dug(seen.cobble) && next.no_progress == state.no_progress
            &&& state.phase matches StonePhase::Dug(before) ==> (seen.dug ==> {
                &&& seen.cobble > before ==> action == StoneAction::GoOn(true) && next.phase
                    == StonePhase::Top && next.no_progress == 0
                &&& seen.cobble <= before ==> next.no_progress == state.no_progress + 1
                &&& seen.cobble <= before && next.no_progress < 5 ==> action == StoneAction::GoOn(false)
                    && next.phase == StonePhase::Top
                &&& seen.cobble <= before && next.no_progress >= 5 ==> action == StoneAction::DigDown
                    && next.phase == StonePhase::Down
            })
        }),
{
}

/// The state after a run of turns.
pub open spec fn mine_stone_run(state: MineStone, seen: Seq<(&Blocks, Pos, StoneSeen)>) -> MineStone
    decreases seen.len(),
{
    if seen.len() == 0 {
        state
    } else {
        mine_stone_next(
            mine_stone_run(state, seen.drop_last()),
            seen.last().0,
            seen.last().1,
            seen.last().2,
        ).0
    }
}

proof fn lemma_mine_stone_run(state: MineStone, seen: Seq<(&Blocks, Pos, StoneSeen)>)
    ensures
        mine_stone_run(state, seen).target == state.target,
    decreases seen.len(),
{
    if seen.len() > 0 {
        lemma_mine_stone_run(state, seen.drop_last());
    }
}

/// Over a whole run the task reports stone as finished only with the target of its start
/// reached or the time up.
pub proof fn law_stone_runs_reach_the_target(
    target: i32,
    seen: Seq<(&Blocks, Pos, StoneSeen)>,
    blocks: &Blocks,
    at: Pos,
    last: StoneSeen,
    n: i32,
)
    requires
        mine_stone_run(stone_start(target), seen).phase != StonePhase::Over,
        mine_stone_next(mine_stone_run(stone_start(target), seen), blocks, at, last).1 == StoneAction::Done(
            n,
            StoneEnd::Finished,
        ),
    ensures
        n == last.cobble,
        n >= target || last.late,
        stone_start(target).phase == StonePhase::Top,
        stone_start(target).no_progress == 0,
{
    lemma_mine_stone_run(stone_start(target), seen);
}

/// A stair step and a dig down are over exactly with their answer, and stay over.
pub proof fn law_a_step_down_is_over_with_its_answer(
    phase: StairPhase,
    blocks: &Blocks,
    at: Pos,
    min_y: i32,
    way: (i32, i32),
    seen: StairSeen,
)
    ensures
        ({
            let (next, action) = descend_step_next(phase, blocks, at, min_y, way, seen);
            &&& next == StairPhase::Over <==> action is Done
            &&& phase == StairPhase::Over ==> action == StairAction::Done(false)
        }),
{
}

/// A vein looks at a position of its frontier that it has not looked at, and notes that it
/// has; it is done exactly where there is no such position left.
pub proof fn law_a_vein_looks_at_all_its_frontier(vein: Vein, action: VeinAction, frontier: Seq<Pos>, seen: Seq<Pos>)
    requires
        vein.took_next(action, frontier, seen),
    ensures
        match action {
            VeinAction::Look(p) => {
                &&& frontier.contains(p) && !seen.contains(p)
                &&& vein.seen@ == seen.push(p)
                &&& vein.phase == VeinPhase::Looked(p)
                &&& vein.frontier@.len() < frontier.len()
            },
            VeinAction::Done => {
                &&& forall|i: int| 0 <= i < frontier.len() ==> seen.contains(#[trigger] frontier[i])
                &&& vein.seen@ == seen
                &&& vein.phase == VeinPhase::Next
                &&& vein.frontier@.len() == 0
            },
            VeinAction::Dig(_) => false,
        },
{
    law_vein_looks_once(frontier, seen);
    law_the_frontier_is_worked_off(frontier, seen);
}

/// Every ore up to ten blocks away on each axis is on the map after a look around that was
/// stored, with its kind, and with the tool it needs unless the place was settled; what is no
/// ore, or farther away, stays as it was.
pub proof fn law_ores_in_sight_are_noted(
    before: Map<Pos, Row>,
    after: Map<Pos, Row>,
    states: States,
    at: Pos,
    ores: Map<u32, (PoiKind, i32)>,
    from: int,
    to: int,
    complete: bool,
    p: Pos,
)
    requires
        notes_ores(before, after, states, at, ores, from, to, complete),
    ensures
        ({
            let state = block_state(states, p.0 as int, p.1 as int, p.2 as int);
            let near = -10 <= p.0 - at.0 <= 10 && -10 <= p.1 - at.1 <= 10 && -10 <= p.2 - at.2 <= 10;
            &&& near && ores.contains_key(state) <==> ore_cells(states, at, ores).contains(p)
            &&& near && ores.contains_key(state) && complete ==> after.contains_key(p) && after[p].0 == Some(
                ores[state].0.text(),
            ) && (after[p].3 matches Some(t) && from < t <= to)
            &&& near && ores.contains_key(state) && complete && !before.contains_key(p) ==> after[p].1 == Some(
                "needs_tool"@,
            ) && after[p].2 == Some(ores[state].1)
            &&& !(near && ores.contains_key(state)) ==> (after.contains_key(p) <==> before.contains_key(p)) && (
            before.contains_key(p) ==> after[p] == before[p])
        }),
{
    let state = block_state(states, p.0 as int, p.1 as int, p.2 as int);
    assert(row_at(after, p) == row_at(after, p));
    if is_ore_cell(states, at, ores, p) && complete {
        assert(is_sighting(before, after, p, ores[state], from, to));
        let t = choose|t: i64|
            from < t <= to && row_at(after, p) == Some(
                #[trigger] observed_row(row_at(before, p), ores[state].0, PoiStatus::NeedsTool(ores[state].1), t),
            );
        assert(after.contains_key(p));
    }
}

/// A look around is logged with how many ores there are and where the bot was; a block is of
/// an ore only where it is known.
pub proof fn law_looks_are_logged_with_their_place(n: int, at: Pos, name: String, ore: Seq<char>)
    ensures
        sighting_text(n, at) == number(n) + (" ore blocks near ("@ + (number(at.0 as int) + (","@ + (number(
            at.1 as int,
        ) + (","@ + (number(at.2 as int) + ")"@)))))),
        !is_ore_block(None, ore),
        is_ore_block(Some(name), ore) <==> ore_matches(name@, ore),
{
    assert(sighting_text(n, at) =~= number(n) + (" ore blocks near ("@ + (number(at.0 as int) + (","@ + (number(
        at.1 as int,
    ) + (","@ + (number(at.2 as int) + ")"@)))))));
}

/// A vein hangs together: a position belongs to it if it was found there or shares a face with
/// one that was looked at, and only then.
pub proof fn law_veins_hang_together(start: Pos, seen: Seq<Pos>, p: Pos, q: Pos)
    ensures
        belongs(start, seen, start),
        seen.contains(q) && touches(p, q) ==> belongs(start, seen, p),
        belongs(start, seen, p) && p != start ==> exists|i: int|
            0 <= i < seen.len() && touches(p, #[trigger] seen[i]),
        touches(p, q) <==> (p.0 - q.0) * (p.0 - q.0) + (p.1 - q.1) * (p.1 - q.1) + (p.2 - q.2) * (p.2 - q.2)
            == 1,
{
    if seen.contains(q) && touches(p, q) {
        let i = choose|i: int| 0 <= i < seen.len() && seen[i] == q;
        assert(touches(p, seen[i]));
    }
    let (a, b, c) = (p.0 - q.0, p.1 - q.1, p.2 - q.2);
    assert(a * a + b * b + c * c == 1 <==> ((a == 1 || a == -1) && b == 0 && c == 0) || ((b == 1 || b == -1)
        && a == 0 && c == 0) || ((c == 1 || c == -1) && a == 0 && b == 0)) by (nonlinear_arith);
}

} // verus!
