//! Wood gathering: find the genuinely nearest log, walk to it, chop the tree,
//! collect the drops, repeat. Where no log is anywhere in view, explore and start
//! the scan over.

use crate::memory::{recorded_row, PoiKind, PoiStatus, Pos, WorldMemory};
use crate::scan::{found_near, lemma_found_near, Search};
use crate::survival::{thrash, thrash_next, ThrashAction};
use crate::tasks::log_search::contains_pos;
use crate::tasks::report::{ratio_message, ratio_text};
use crate::types::{failure, success, StepResult};
use crate::world::{
    has_room, is_lava_at, is_liquid_at, is_log_at, lava_at, liquid_at, log_at, Blocks,
};
use vstd::prelude::*;

verus! {

/// Is the bot's feet cell in water or lava?
pub fn in_liquid(blocks: &Blocks, feet: Pos) -> (r: bool)
    ensures
        r == liquid_at(*blocks, feet.0 as int, feet.1 as int, feet.2 as int),
{
    is_liquid_at(blocks, feet.0, feet.1, feet.2)
}

pub open spec fn lava_from(blocks: Blocks, at: Pos) -> spec_fn(int, int, int) -> bool {
    |dx: int, dy: int, dz: int| lava_at(blocks, at.0 + dx, at.1 + dy, at.2 + dz)
}

/// There is lava within `r` blocks (horizontally, one up or down) of a place.
pub open spec fn near_lava(blocks: Blocks, at: Pos, r: int) -> bool {
    exists|dx: int, dy: int, dz: int|
        -r <= dx <= r && -1 <= dy <= 1 && -r <= dz <= r && #[trigger] lava_at(
            blocks,
            at.0 + dx,
            at.1 + dy,
            at.2 + dz,
        )
}

/// Any lava within `r` blocks (horizontally, one up or down) of the bot: keeps
/// the walk to the drops from stepping into a lava pool.
pub fn lava_near(blocks: &Blocks, at: Pos, r: i32) -> (found: bool)
    requires
        i32::MIN < r,
        has_room(at, r as int),
        has_room(at, 1),
    ensures
        found == near_lava(*blocks, at, r as int),
{
    let search = Search { lo: (-r, -1, -r), hi: (r, 1, r), columns: false, shun_below: false };
    let test = |dx: i32, dy: i32, dz: i32| -> (b: bool)
        requires search.covers(dx as int, dy as int, dz as int)
        ensures b == lava_at(*blocks, at.0 + dx, at.1 + dy, at.2 + dz)
    {
        is_lava_at(blocks, at.0 + dx, at.1 + dy, at.2 + dz)
    };
    let hit = search.nearest(test, Ghost(lava_from(*blocks, at)));
    proof {
        match hit {
            Some(d) => {
                assert(lava_at(*blocks, at.0 + d.0, at.1 + d.1, at.2 + d.2));
            },
            None => {
                assert forall|dx: int, dy: int, dz: int|
                    -r <= dx <= r && -1 <= dy <= 1 && -r <= dz <= r implies !(#[trigger] lava_at(
                    *blocks,
                    at.0 + dx,
                    at.1 + dy,
                    at.2 + dz,
                )) by {
                    assert(search.covers(dx, dy, dz));
                    assert(!(lava_from(*blocks, at))(dx, dy, dz));
                }
            },
        }
    }
    hit.is_some()
}

/// How near lava is too near to walk on.
pub const LAVA_REACH: i32 = 2;

/// The box in which the next log of a trunk is looked for.
pub open spec fn trunk_reach() -> Search {
    Search { lo: (-4i32, -4i32, -4i32), hi: (4, 4, 4), columns: true, shun_below: true }
}

/// A log that has not been given up.
pub open spec fn trunk_from(blocks: Blocks, at: Pos, given_up: Seq<Pos>) -> spec_fn(
    int,
    int,
    int,
) -> bool {
    |dx: int, dy: int, dz: int|
        log_at(blocks, at.0 + dx, at.1 + dy, at.2 + dz) && !given_up.contains(
            ((at.0 + dx) as i32, (at.1 + dy) as i32, (at.2 + dz) as i32),
        )
}

/// Nearest log within chopping reach of the bot, 4 blocks to each side, up and down (sees
/// trunks through their own leaves). Logs well below the feet count as farther away.
pub fn find_trunk_raw(blocks: &Blocks, at: Pos, given_up: &Vec<Pos>) -> (r: Option<Pos>)
    requires
        has_room(at, 4),
    ensures
        r matches Some(p) ==> trunk_reach().picks(
            trunk_from(*blocks, at, given_up@),
            (p.0 - at.0, p.1 - at.1, p.2 - at.2),
        ),
        r is None ==> trunk_reach().misses(trunk_from(*blocks, at, given_up@)),
        r == found_near(trunk_reach(), trunk_from(*blocks, at, given_up@), at),
{
    let search = Search { lo: (-4, -4, -4), hi: (4, 4, 4), columns: true, shun_below: true };
    let test = |dx: i32, dy: i32, dz: i32| -> (b: bool)
        requires search.covers(dx as int, dy as int, dz as int)
        ensures b == (trunk_from(*blocks, at, given_up@))(dx as int, dy as int, dz as int)
    {
        let p: Pos = (at.0 + dx, at.1 + dy, at.2 + dz);
        is_log_at(blocks, p.0, p.1, p.2) && !contains_pos(given_up, p)
    };
    let found: Option<Pos> = match search.nearest(test, Ghost(trunk_from(*blocks, at, given_up@))) {
        Some(d) => Some((at.0 + d.0, at.1 + d.1, at.2 + d.2)),
        None => None,
    };
    proof {
        lemma_found_near(trunk_reach(), trunk_from(*blocks, at, given_up@), at, found);
    }
    found
}

/// How many ticks the bot thrashes to get out of water.
pub const ESCAPE_TICKS: u32 = 40;

/// Thrashes out of water or lava onto solid ground, for up to `left` ticks. `lost` says
/// whether the connection was lost on the last one.
pub fn escape_water(left: u32, blocks: &Blocks, feet: Pos, on_ground: bool, lost: bool) -> (r: (
    u32,
    ThrashAction,
))
    ensures
        r == thrash_next(
            left,
            !liquid_at(*blocks, feet.0 as int, feet.1 as int, feet.2 as int),
            on_ground,
            lost,
        ),
{
    thrash(left, !in_liquid(blocks, feet), on_ground, lost)
}

// ── picking up what a tree dropped ──────────────────────────────────────────

#[derive(Debug, Clone, Copy, PartialEq, Eq, Structural)]
pub struct CollectSeen {
    /// There is a dropped item within range.
    pub item: bool,
    /// The item is at the bot's feet.
    pub touching: bool,
    /// The connection was lost on the last walk.
    pub lost: bool,
}

#[derive(Debug, Clone, Copy, PartialEq, Eq, Structural)]
pub enum CollectAction {
    /// Wait for the item to be picked up.
    Wait,
    /// Walk toward the item for one tick.
    Walk,
    Stop,
}

/// How many turns picking up what a tree dropped takes at most.
pub const COLLECT_TURNS: u32 = 40;

/// What `collect_all` does next.
pub open spec fn collect_all_next(left: u32, blocks: &Blocks, at: Pos, seen: CollectSeen) -> (
    u32,
    CollectAction,
) {
    if left == 0 || seen.lost || !seen.item {
        (left, CollectAction::Stop)
    } else if seen.touching {
        ((left - 1) as u32, CollectAction::Wait)
    } else if near_lava(*blocks, at, LAVA_REACH as int) {
        (left, CollectAction::Stop)
    } else {
        ((left - 1) as u32, CollectAction::Walk)
    }
}

/// Walks to and picks up every dropped item within range (after felling a tree).
/// `left` is how many more turns there are.
pub fn collect_all(left: u32, blocks: &Blocks, at: Pos, seen: CollectSeen) -> (r: (u32, CollectAction))
    requires
        has_room(at, LAVA_REACH as int),
    ensures
        r == collect_all_next(left, blocks, at, seen),
{
    if left == 0 || seen.lost || !seen.item {
        (left, CollectAction::Stop)
    } else if seen.touching {
        ((left - 1) as u32, CollectAction::Wait)
    } else if lava_near(blocks, at, LAVA_REACH) {
        (left, CollectAction::Stop)
    } else {
        ((left - 1) as u32, CollectAction::Walk)
    }
}

/// The bot never walks toward an item with lava near.
pub proof fn law_no_collecting_near_lava(left: u32, blocks: &Blocks, at: Pos, seen: CollectSeen)
    requires
        near_lava(*blocks, at, LAVA_REACH as int),
    ensures
        collect_all_next(left, blocks, at, seen).1 != CollectAction::Walk,
{
}

// ── felling one tree ────────────────────────────────────────────────────────

#[derive(Debug, Clone, Copy, PartialEq, Eq)]
pub enum ChopPhase {
    /// About to look for the next log.
    Look,
    /// Has dug at a log.
    Dug(Pos),
    /// Has stepped toward a log.
    Nudged(Pos),
    Over,
}

/// How a dig went.
#[derive(Debug, Clone, Copy, PartialEq, Eq, Structural)]
pub enum DigResult {
    Broke,
    OutOfReach,
    Failed,
}

#[derive(Debug, Clone, Copy, PartialEq, Eq)]
pub struct Chop {
    pub left: u32,
    pub idle: u32,
    pub phase: ChopPhase,
}

#[derive(Debug, Clone, Copy, PartialEq, Eq, Structural)]
pub struct ChopSeen {
    pub dug: DigResult,
    /// The last step brought the bot nearer.
    pub closer: bool,
}

#[derive(Debug, Clone, Copy, PartialEq, Eq)]
pub enum ChopAction {
    DigToward(Pos),
    /// Step toward the log.
    Nudge(Pos),
    /// Give the log up and look for another.
    GiveUp(Pos),
    /// Look for the next log.
    LookAgain,
    /// Collect the drops; the tree is done with.
    Collect,
}

pub open spec fn chop_start() -> Chop {
    Chop { left: 60, idle: 0, phase: ChopPhase::Look }
}

/// A tree gets at most 60 turns.
pub fn start_chop() -> (r: Chop)
    ensures
        r == chop_start(),
{
    Chop { left: 60, idle: 0, phase: ChopPhase::Look }
}

/// What `chop` does next.
pub open spec fn chop_next(
    state: Chop,
    blocks: &Blocks,
    at: Pos,
    given_up: Seq<Pos>,
    seen: ChopSeen,
) -> (Chop, ChopAction) {
    match state.phase {
        ChopPhase::Look => {
            match found_near(trunk_reach(), trunk_from(*blocks, at, given_up), at) {
                Some(pos) => {
                    if state.left == 0 {
                        (Chop { phase: ChopPhase::Over, ..state }, ChopAction::Collect)
                    } else {
                        (
                            Chop { left: (state.left - 1) as u32, phase: ChopPhase::Dug(pos), ..state },
                            ChopAction::DigToward(pos),
                        )
                    }
                },
                None => (Chop { phase: ChopPhase::Over, ..state }, ChopAction::Collect),
            }
        },
        ChopPhase::Dug(pos) => {
            match seen.dug {
                DigResult::Broke => (
                    Chop { idle: 0, phase: ChopPhase::Look, ..state },
                    ChopAction::LookAgain,
                ),
                DigResult::OutOfReach => {
                    if near_lava(*blocks, at, LAVA_REACH as int) {
                        (Chop { phase: ChopPhase::Over, ..state }, ChopAction::Collect)
                    } else {
                        (Chop { phase: ChopPhase::Nudged(pos), ..state }, ChopAction::Nudge(pos))
                    }
                },
                DigResult::Failed => (
                    Chop { phase: ChopPhase::Over, ..state },
                    ChopAction::Collect,
                ),
            }
        },
        ChopPhase::Nudged(pos) => {
            if seen.closer {
                (Chop { idle: 0, phase: ChopPhase::Look, ..state }, ChopAction::LookAgain)
            } else if state.idle >= 6 {
                (Chop { idle: 0, phase: ChopPhase::Look, ..state }, ChopAction::GiveUp(pos))
            } else {
                (
                    Chop { idle: (state.idle + 1) as u32, phase: ChopPhase::Look, ..state },
                    ChopAction::LookAgain,
                )
            }
        },
        ChopPhase::Over => (state, ChopAction::Collect),
    }
}

/// Fells the tree the bot is standing at: breaks every reachable trunk log, then
/// collects the drops. A log that seven turns in a row get no nearer to is given up;
/// `given_up` is the logs of which that holds.
pub fn chop(
    state: Chop,
    blocks: &Blocks,
    at: Pos,
    given_up: &Vec<Pos>,
    seen: ChopSeen,
) -> (r: (Chop, ChopAction))
    requires
        has_room(at, 4),
    ensures
        r == chop_next(state, blocks, at, given_up@, seen),
{
    match state.phase {
        ChopPhase::Look => {
            match find_trunk_raw(blocks, at, given_up) {
                Some(pos) => {
                    if state.left == 0 {
                        (Chop { phase: ChopPhase::Over, ..state }, ChopAction::Collect)
                    } else {
                        (
                            Chop { left: (state.left - 1) as u32, phase: ChopPhase::Dug(pos), ..state },
                            ChopAction::DigToward(pos),
                        )
                    }
                },
                None => (Chop { phase: ChopPhase::Over, ..state }, ChopAction::Collect),
            }
        },
        ChopPhase::Dug(pos) => {
            match seen.dug {
                DigResult::Broke => (
                    Chop { idle: 0, phase: ChopPhase::Look, ..state },
                    ChopAction::LookAgain,
                ),
                DigResult::OutOfReach => {
                    if lava_near(blocks, at, LAVA_REACH) {
                        (Chop { phase: ChopPhase::Over, ..state }, ChopAction::Collect)
                    } else {
                        (Chop { phase: ChopPhase::Nudged(pos), ..state }, ChopAction::Nudge(pos))
                    }
                },
                DigResult::Failed => (
                    Chop { phase: ChopPhase::Over, ..state },
                    ChopAction::Collect,
                ),
            }
        },
        ChopPhase::Nudged(pos) => {
            if seen.closer {
                (Chop { idle: 0, phase: ChopPhase::Look, ..state }, ChopAction::LookAgain)
            } else if state.idle >= 6 {
                (Chop { idle: 0, phase: ChopPhase::Look, ..state }, ChopAction::GiveUp(pos))
            } else {
                (
                    Chop { idle: (state.idle + 1) as u32, phase: ChopPhase::Look, ..state },
                    ChopAction::LookAgain,
                )
            }
        },
        ChopPhase::Over => (state, ChopAction::Collect),
    }
}

/// How many turns of the machine are left at most.
pub open spec fn chop_budget(state: Chop) -> int {
    3 * state.left + (match state.phase {
        ChopPhase::Look => 2int,
        ChopPhase::Dug(_) => 4int,
        ChopPhase::Nudged(_) => 3int,
        ChopPhase::Over => 0int,
    })
}

/// Felling a tree ends.
pub proof fn law_chopping_ends(
    state: Chop,
    blocks: &Blocks,
    at: Pos,
    given_up: Seq<Pos>,
    seen: ChopSeen,
)
    requires
        state.phase != ChopPhase::Over,
    ensures
        ({
            let (next, action) = chop_next(state, blocks, at, given_up, seen);
            &&& chop_budget(next) < chop_budget(state)
            &&& action == ChopAction::Collect <==> next.phase == ChopPhase::Over
        }),
{
}

/// What is before the bot at one step of felling a tree.
pub type ChopView<'a> = (&'a Blocks, Pos, Seq<Pos>, ChopSeen);

/// The state after a run of observations.
pub open spec fn chop_run(state: Chop, seen: Seq<ChopView>) -> Chop
    decreases seen.len(),
{
    if seen.len() == 0 {
        state
    } else {
        let (blocks, at, given_up, now) = seen.last();
        chop_next(chop_run(state, seen.drop_last()), blocks, at, given_up, now).0
    }
}

proof fn lemma_chop_run(state: Chop, seen: Seq<ChopView>)
    ensures
        chop_run(state, seen).phase == ChopPhase::Over
            || chop_budget(chop_run(state, seen)) + seen.len() <= chop_budget(state),
    decreases seen.len(),
{
    if seen.len() > 0 {
        lemma_chop_run(state, seen.drop_last());
    }
}

/// Whatever the bot sees, a tree is done with after 182 steps.
pub proof fn law_a_tree_takes_a_bounded_time(seen: Seq<ChopView>)
    requires
        seen.len() >= 182,
    ensures
        chop_run(chop_start(), seen).phase == ChopPhase::Over,
{
    lemma_chop_run(chop_start(), seen);
}

/// The bot never steps toward a log with lava near.
pub proof fn law_no_stepping_near_lava(
    state: Chop,
    blocks: &Blocks,
    at: Pos,
    given_up: Seq<Pos>,
    seen: ChopSeen,
    pos: Pos,
)
    requires
        near_lava(*blocks, at, LAVA_REACH as int),
    ensures
        chop_next(state, blocks, at, given_up, seen).1 != ChopAction::Nudge(pos),
{
}

/// The bot digs only toward logs that it has not given up, and the tree is done with
/// only where there is no such log in reach, the turns are over, a dig failed or lava is
/// near.
pub proof fn law_only_logs_are_chopped(
    state: Chop,
    blocks: &Blocks,
    at: Pos,
    given_up: Seq<Pos>,
    seen: ChopSeen,
    pos: Pos,
)
    requires
        has_room(at, 4),
    ensures
        ({
            let action = chop_next(state, blocks, at, given_up, seen).1;
            let trunk = found_near(trunk_reach(), trunk_from(*blocks, at, given_up), at);
            &&& action == ChopAction::DigToward(pos) ==> trunk == Some(pos) && log_at(
                *blocks,
                pos.0 as int,
                pos.1 as int,
                pos.2 as int,
            ) && !given_up.contains(pos)
            &&& action == ChopAction::Collect ==> match state.phase {
                ChopPhase::Look => trunk is None || state.left == 0,
                ChopPhase::Dug(_) => seen.dug == DigResult::Failed || (seen.dug == DigResult::OutOfReach
                    && near_lava(*blocks, at, LAVA_REACH as int)),
                ChopPhase::Nudged(_) => false,
                ChopPhase::Over => true,
            }
        }),
{
    let hit = trunk_from(*blocks, at, given_up);
    if exists|d: (int, int, int)| trunk_reach().picks(hit, d) {
        let d = choose|d: (int, int, int)| trunk_reach().picks(hit, d);
        assert(hit(d.0, d.1, d.2));
    }
}

// ── exploring ───────────────────────────────────────────────────────────────

/// Max blocks the bot will wander from where it started gathering before it turns
/// back, so that it never marches off into ungenerated chunks.
pub const ROAM_LIMIT: i32 = 240;

/// The eight compass directions, south (+Z) first.
pub open spec fn compass(i: int) -> (i32, i32) {
    if i == 0 {
        (0, 1)
    } else if i == 1 {
        (1, 1)
    } else if i == 2 {
        (1, 0)
    } else if i == 3 {
        (1, -1i32)
    } else if i == 4 {
        (0, -1i32)
    } else if i == 5 {
        (-1i32, -1i32)
    } else if i == 6 {
        (-1i32, 0)
    } else {
        (-1i32, 1)
    }
}

pub open spec fn sign(n: int) -> i32 {
    if n < 0 {
        -1i32
    } else if n == 0 {
        0
    } else {
        1
    }
}

/// The square of the distance to where the bot started.
pub open spec fn home2(at: (i32, i32), home: (i32, i32)) -> int {
    (at.0 - home.0) * (at.0 - home.0) + (at.1 - home.1) * (at.1 - home.1)
}

pub open spec fn too_far(at: (i32, i32), home: (i32, i32)) -> bool {
    home2(at, home) > ROAM_LIMIT * ROAM_LIMIT
}

/// Where a sweep goes: toward home from beyond the roam budget, else in the
/// direction of the compass that is the sweep's turn.
pub open spec fn heading(sweep: u32, at: (i32, i32), home: (i32, i32)) -> (i32, i32) {
    if too_far(at, home) {
        (sign(home.0 - at.0), sign(home.1 - at.1))
    } else {
        compass((sweep % 8) as int)
    }
}

fn sign_of(n: i64) -> (r: i32)
    ensures
        r == sign(n as int),
{
    if n < 0 {
        -1
    } else if n == 0 {
        0
    } else {
        1
    }
}

/// Whether the bot has wandered beyond its roam budget.
pub fn is_too_far(at: (i32, i32), home: (i32, i32)) -> (r: bool)
    ensures
        r == too_far(at, home),
{
    let dx: i128 = at.0 as i128 - home.0 as i128;
    let dz: i128 = at.1 as i128 - home.1 as i128;
    assert(0 <= dx * dx <= 0x1_0000_0000_0000_0000 && 0 <= dz * dz <= 0x1_0000_0000_0000_0000)
        by (nonlinear_arith)
        requires
            -0x1_0000_0000 <= dx <= 0x1_0000_0000,
            -0x1_0000_0000 <= dz <= 0x1_0000_0000,
    ;
    dx * dx + dz * dz > 57600
}

/// The direction of a sweep for fresh terrain. It rotates with each sweep, south
/// first, instead of marching one fixed way off the map, and turns back home once
/// the bot has wandered too far.
pub fn explore_direction(sweep: u32, at: (i32, i32), home: (i32, i32)) -> (r: (i32, i32))
    ensures
        r == heading(sweep, at, home),
{
    if is_too_far(at, home) {
        (sign_of(home.0 as i64 - at.0 as i64), sign_of(home.1 as i64 - at.1 as i64))
    } else {
        let i: u32 = sweep % 8;
        if i == 0 {
            (0, 1)
        } else if i == 1 {
            (1, 1)
        } else if i == 2 {
            (1, 0)
        } else if i == 3 {
            (1, -1)
        } else if i == 4 {
            (0, -1)
        } else if i == 5 {
            (-1, -1)
        } else if i == 6 {
            (-1, 0)
        } else {
            (-1, 1)
        }
    }
}

/// Eight sweeps in a row go in eight different directions, and the first goes
/// south.
pub proof fn law_sweeps_rotate(a: u32, b: u32, at: (i32, i32), home: (i32, i32))
    requires
        !too_far(at, home),
        a < b < a + 8,
    ensures
        heading(a, at, home) != heading(b, at, home),
        heading(0, at, home) == (0i32, 1i32),
        heading(a, at, home).0 != 0 || heading(a, at, home).1 != 0,
{
}

/// Beyond the roam budget the bot heads home: on each axis it moves toward home
/// or is level with it, and on one axis it moves.
pub proof fn law_wanderer_heads_home(sweep: u32, at: (i32, i32), home: (i32, i32))
    requires
        too_far(at, home),
    ensures
        heading(sweep, at, home).0 == sign(home.0 - at.0),
        heading(sweep, at, home).1 == sign(home.1 - at.1),
        heading(sweep, at, home) != (0i32, 0i32),
{
    if home.0 == at.0 && home.1 == at.1 {
        assert((at.0 - home.0) * (at.0 - home.0) == 0 * 0);
        assert((at.1 - home.1) * (at.1 - home.1) == 0 * 0);
    }
}

#[derive(Debug, Clone, Copy, PartialEq, Eq, Structural)]
pub enum ExploreAction {
    /// Walk to within three blocks of this column.
    Hop(i32, i32),
    Stop,
}

/// What `explore` does next.
pub open spec fn explore_next(
    hops: u32,
    way: (i32, i32),
    at: (i32, i32),
    blocked: bool,
) -> (u32, ExploreAction) {
    if hops == 0 || blocked {
        (hops, ExploreAction::Stop)
    } else {
        (
            (hops - 1) as u32,
            ExploreAction::Hop((at.0 + way.0 * 16) as i32, (at.1 + way.1 * 16) as i32),
        )
    }
}

/// How many hops a sweep has.
pub const HOPS: u32 = 3;

/// One sweep of three hops in direction `way`, 16 blocks each. `hops` is how many
/// hops there are left; a hop that is blocked ends the sweep.
pub fn explore(hops: u32, way: (i32, i32), at: (i32, i32), blocked: bool) -> (r: (u32, ExploreAction))
    requires
        -1 <= way.0 <= 1,
        -1 <= way.1 <= 1,
        i32::MIN + 16 <= at.0 <= i32::MAX - 16,
        i32::MIN + 16 <= at.1 <= i32::MAX - 16,
    ensures
        r == explore_next(hops, way, at, blocked),
{
    if hops == 0 || blocked {
        (hops, ExploreAction::Stop)
    } else {
        (
            (hops - 1) as u32,
            ExploreAction::Hop((at.0 + way.0 * 16) as i32, (at.1 + way.1 * 16) as i32),
        )
    }
}

/// Whether to make another of the short hops toward a far tree: two at most, none
/// once the tree is near or after a hop that was blocked.
pub fn move_toward(hops: u32, near: bool, blocked: bool) -> (r: bool)
    ensures
        r == (hops < 2 && !near && !blocked),
{
    hops < 2 && !near && !blocked
}

// ── the task ────────────────────────────────────────────────────────────────

#[derive(Debug, Clone, Copy, PartialEq, Eq)]
pub enum WoodPhase {
    /// Between two cycles.
    Top,
    /// Has looked around for the nearest tree.
    Looked,
    /// Has walked some way toward a far tree.
    Approached(Pos),
    /// Has asked the pathfinder for a way to the tree.
    Asked(Pos),
    /// Has walked to the tree and chopped.
    Chopped(Pos),
    Over,
}

#[derive(Debug, Clone, Copy, PartialEq, Eq)]
pub struct GatherWood {
    pub target: i32,
    pub cycles: u32,
    /// Sweeps in a row that found no wood.
    pub sweeps: u32,
    pub phase: WoodPhase,
}

#[derive(Debug, Clone, Copy, PartialEq, Eq)]
pub struct WoodSeen {
    pub logs: i32,
    pub nearest: Option<Pos>,
    /// The nearest tree is more than 40 blocks away.
    pub far: bool,
    /// The approach brought the bot less than four blocks nearer.
    pub no_closer: bool,
    pub reachable: bool,
    /// Logs gained by the last chop.
    pub gained: i32,
}

/// Why a tree is remembered as unreachable.
#[derive(Debug, Clone, Copy, PartialEq, Eq, Structural)]
pub enum TreeFault {
    NoApproach,
    Unreachable,
    Unfelled,
}

impl TreeFault {
    pub open spec fn text(self) -> Seq<char> {
        match self {
            TreeFault::NoApproach => "no_approach"@,
            TreeFault::Unreachable => "unreachable"@,
            TreeFault::Unfelled => "unfelled"@,
        }
    }

    /// What the event is called in the log.
    pub fn event(self) -> (r: &'static str)
        ensures
            r@ == self.text(),
    {
        match self {
            TreeFault::NoApproach => "no_approach",
            TreeFault::Unreachable => "unreachable",
            TreeFault::Unfelled => "unfelled",
        }
    }
}

#[derive(Debug, Clone, Copy, PartialEq, Eq)]
pub enum WoodAction {
    /// Pump the network, get out of any liquid, and look for the nearest tree.
    Look,
    /// Walk a couple of short hops toward the tree.
    MoveToward(Pos),
    /// Ask whether there is a way to within three blocks of the tree.
    CanReach(Pos),
    /// Walk to the tree and chop it.
    Fell(Pos),
    /// Remember the tree as unreachable.
    Remember(Pos, TreeFault),
    /// Sweep for fresh terrain; the first of a row of sweeps is sweep 0.
    Explore(u32),
    /// Note the logs that were gained.
    NoteGain(i32),
    Done(i32),
}

/// Puts a tree on the map that the bot cannot get at, and logs why. Returns whether the
/// database took the place, and whether it took the event.
pub fn give_up_tree(mem: &mut WorldMemory, tree: Pos, fault: TreeFault, detail: &str) -> (r: (bool, bool))
    requires
        old(mem).clock() < i64::MAX - 1,
    ensures
        final(mem).clock() == old(mem).clock() + 2,
        ({
            let t = (old(mem).clock() + 1) as i64;
            let after = old(mem).pois().insert(tree, recorded_row(PoiKind::Log, PoiStatus::Unreachable, t));
            &&& r.0 ==> final(mem).pois() == after
            &&& !r.0 ==> final(mem).pois() == after || final(mem).pois() == old(mem).pois()
        }),
        ({
            let event = (final(mem).clock(), "gather_wood"@, fault.text(), detail@);
            let after = old(mem).events().push(event);
            &&& r.1 ==> final(mem).events() == after
            &&& !r.1 ==> final(mem).events() == after || final(mem).events() == old(mem).events()
        }),
        final(mem).place() == old(mem).place(),
        old(mem).in_time() ==> final(mem).in_time(),
{
    let stored: bool = mem.record(PoiKind::Log, tree, PoiStatus::Unreachable);
    let logged: bool = mem.log("gather_wood", fault.event(), detail);
    (stored, logged)
}

pub open spec fn gather_wood_start(target: i32) -> GatherWood {
    GatherWood { target, cycles: 0, sweeps: 0, phase: WoodPhase::Top }
}

pub fn start_gather_wood(target: i32) -> (r: GatherWood)
    ensures
        r == gather_wood_start(target),
{
    GatherWood { target, cycles: 0, sweeps: 0, phase: WoodPhase::Top }
}

/// What `gather_wood` does next.
pub open spec fn gather_wood_next(state: GatherWood, seen: WoodSeen) -> (GatherWood, WoodAction) {
    match state.phase {
        WoodPhase::Top => {
            if seen.logs < state.target && state.cycles < 200 {
                (
                    GatherWood { cycles: (state.cycles + 1) as u32, phase: WoodPhase::Looked, ..state },
                    WoodAction::Look,
                )
            } else {
                (GatherWood { phase: WoodPhase::Over, ..state }, WoodAction::Done(seen.logs))
            }
        },
        WoodPhase::Looked => {
            match seen.nearest {
                Some(tree) => {
                    if seen.far {
                        (
                            GatherWood { sweeps: 0, phase: WoodPhase::Approached(tree), ..state },
                            WoodAction::MoveToward(tree),
                        )
                    } else {
                        (
                            GatherWood { sweeps: 0, phase: WoodPhase::Asked(tree), ..state },
                            WoodAction::CanReach(tree),
                        )
                    }
                },
                None => {
                    if state.sweeps >= 16 {
                        (GatherWood { phase: WoodPhase::Over, ..state }, WoodAction::Done(seen.logs))
                    } else {
                        (
                            GatherWood {
                                sweeps: (state.sweeps + 1) as u32,
                                phase: WoodPhase::Top,
                                ..state
                            },
                            WoodAction::Explore(state.sweeps),
                        )
                    }
                },
            }
        },
        WoodPhase::Approached(tree) => {
            if seen.no_closer {
                (
                    GatherWood { phase: WoodPhase::Top, ..state },
                    WoodAction::Remember(tree, TreeFault::NoApproach),
                )
            } else {
                (GatherWood { phase: WoodPhase::Top, ..state }, WoodAction::NoteGain(0))
            }
        },
        WoodPhase::Asked(tree) => {
            if seen.reachable {
                (GatherWood { phase: WoodPhase::Chopped(tree), ..state }, WoodAction::Fell(tree))
            } else {
                (
                    GatherWood { phase: WoodPhase::Top, ..state },
                    WoodAction::Remember(tree, TreeFault::Unreachable),
                )
            }
        },
        WoodPhase::Chopped(tree) => {
            if seen.gained > 0 {
                (GatherWood { phase: WoodPhase::Top, ..state }, WoodAction::NoteGain(seen.gained))
            } else {
                (
                    GatherWood { phase: WoodPhase::Top, ..state },
                    WoodAction::Remember(tree, TreeFault::Unfelled),
                )
            }
        },
        WoodPhase::Over => (state, WoodAction::Done(seen.logs)),
    }
}

/// Gathers `target` logs. A far tree is approached in cheap hops, a near one is
/// walked to and chopped; a tree that cannot be got nearer to, reached or felled is
/// remembered as unreachable. Gives up after 200 cycles, or once 16 sweeps in a row
/// have found nothing.
pub fn gather_wood(state: GatherWood, seen: WoodSeen) -> (r: (GatherWood, WoodAction))
    ensures
        r == gather_wood_next(state, seen),
{
    match state.phase {
        WoodPhase::Top => {
            if seen.logs < state.target && state.cycles < 200 {
                (
                    GatherWood { cycles: (state.cycles + 1) as u32, phase: WoodPhase::Looked, ..state },
                    WoodAction::Look,
                )
            } else {
                (GatherWood { phase: WoodPhase::Over, ..state }, WoodAction::Done(seen.logs))
            }
        },
        WoodPhase::Looked => {
            match seen.nearest {
                Some(tree) => {
                    if seen.far {
                        (
                            GatherWood { sweeps: 0, phase: WoodPhase::Approached(tree), ..state },
                            WoodAction::MoveToward(tree),
                        )
                    } else {
                        (
                            GatherWood { sweeps: 0, phase: WoodPhase::Asked(tree), ..state },
                            WoodAction::CanReach(tree),
                        )
                    }
                },
                None => {
                    if state.sweeps >= 16 {
                        (GatherWood { phase: WoodPhase::Over, ..state }, WoodAction::Done(seen.logs))
                    } else {
                        (
                            GatherWood {
                                sweeps: (state.sweeps + 1) as u32,
                                phase: WoodPhase::Top,
                                ..state
                            },
                            WoodAction::Explore(state.sweeps),
                        )
                    }
                },
            }
        },
        WoodPhase::Approached(tree) => {
            if seen.no_closer {
                (
                    GatherWood { phase: WoodPhase::Top, ..state },
                    WoodAction::Remember(tree, TreeFault::NoApproach),
                )
            } else {
                (GatherWood { phase: WoodPhase::Top, ..state }, WoodAction::NoteGain(0))
            }
        },
        WoodPhase::Asked(tree) => {
            if seen.reachable {
                (GatherWood { phase: WoodPhase::Chopped(tree), ..state }, WoodAction::Fell(tree))
            } else {
                (
                    GatherWood { phase: WoodPhase::Top, ..state },
                    WoodAction::Remember(tree, TreeFault::Unreachable),
                )
            }
        },
        WoodPhase::Chopped(tree) => {
            if seen.gained > 0 {
                (GatherWood { phase: WoodPhase::Top, ..state }, WoodAction::NoteGain(seen.gained))
            } else {
                (
                    GatherWood { phase: WoodPhase::Top, ..state },
                    WoodAction::Remember(tree, TreeFault::Unfelled),
                )
            }
        },
        WoodPhase::Over => (state, WoodAction::Done(seen.logs)),
    }
}

/// How many turns of the machine are left at most.
pub open spec fn gather_wood_budget(state: GatherWood) -> int {
    4 * (200 - state.cycles) + (match state.phase {
        WoodPhase::Top => 1int,
        WoodPhase::Looked => 4int,
        WoodPhase::Approached(_) => 2int,
        WoodPhase::Asked(_) => 3int,
        WoodPhase::Chopped(_) => 2int,
        WoodPhase::Over => 0int,
    })
}

/// The task ends, whatever the bot sees.
pub proof fn law_gathering_wood_ends(state: GatherWood, seen: WoodSeen)
    requires
        state.cycles <= 200,
        state.phase != WoodPhase::Over,
    ensures
        gather_wood_next(state, seen).0.cycles <= 200,
        0 <= gather_wood_budget(gather_wood_next(state, seen).0) < gather_wood_budget(state),
        gather_wood_next(state, seen).1 is Done <==> gather_wood_next(state, seen).0.phase
            == WoodPhase::Over,
{
}

/// The state after a run of observations.
pub open spec fn gather_wood_run(state: GatherWood, seen: Seq<WoodSeen>) -> GatherWood
    decreases seen.len(),
{
    if seen.len() == 0 {
        state
    } else {
        gather_wood_next(gather_wood_run(state, seen.drop_last()), seen.last()).0
    }
}

proof fn lemma_gather_wood_run(state: GatherWood, seen: Seq<WoodSeen>)
    requires
        state.cycles <= 200,
    ensures
        gather_wood_run(state, seen).cycles <= 200,
        gather_wood_run(state, seen).phase == WoodPhase::Over
            || gather_wood_budget(gather_wood_run(state, seen)) + seen.len() <= gather_wood_budget(state),
    decreases seen.len(),
{
    if seen.len() > 0 {
        lemma_gather_wood_run(state, seen.drop_last());
        let before = gather_wood_run(state, seen.drop_last());
        if !(before.phase == WoodPhase::Over) {
            law_gathering_wood_ends(before, seen.last());
        }
    }
}

/// Whatever the bot sees, the task is over after 801 steps.
pub proof fn law_wood_takes_a_bounded_time(target: i32, seen: Seq<WoodSeen>)
    requires
        seen.len() >= 801,
    ensures
        gather_wood_run(gather_wood_start(target), seen).phase == WoodPhase::Over,
{
    lemma_gather_wood_run(gather_wood_start(target), seen);
}

/// A tree is remembered as unreachable only after the bot has tried it: it could
/// not get nearer to it, found no way to it, or got no log from it.
pub proof fn law_trees_are_tried_before_they_are_given_up(
    state: GatherWood,
    seen: WoodSeen,
    tree: Pos,
    fault: TreeFault,
)
    requires
        gather_wood_next(state, seen).1 == WoodAction::Remember(tree, fault),
    ensures
        match fault {
            TreeFault::NoApproach => state.phase == WoodPhase::Approached(tree) && seen.no_closer,
            TreeFault::Unreachable => state.phase == WoodPhase::Asked(tree) && !seen.reachable,
            TreeFault::Unfelled => state.phase == WoodPhase::Chopped(tree) && seen.gained <= 0,
        },
{
}

/// The bot walks to a tree to chop it only if there is a way to it.
pub proof fn law_only_reachable_trees_are_walked_to(state: GatherWood, seen: WoodSeen, tree: Pos)
    requires
        gather_wood_next(state, seen).1 == WoodAction::Fell(tree),
    ensures
        seen.reachable,
{
}

/// The first sweep after a tree was in view is sweep 0, which goes south.
pub proof fn law_first_sweep_goes_south(state: GatherWood, seen: WoodSeen, at: (i32, i32), home: (i32, i32))
    requires
        state.phase == WoodPhase::Looked,
        state.sweeps == 0,
        seen.nearest is None,
        !too_far(at, home),
    ensures
        gather_wood_next(state, seen).1 matches WoodAction::Explore(sweep) && heading(sweep, at, home)
            == (0i32, 1i32),
{
}

/// What the step reports: a success exactly if the target was reached.
pub fn report_wood(n: i32, target: i32) -> (r: StepResult)
    ensures
        r.success == (n >= target),
        r.message@ == ratio_text("gathered "@, n as int, target as int, " logs"@),
{
    let message = ratio_message("gathered ", n, target, " logs");
    if n >= target {
        success(message.as_str())
    } else {
        failure(message.as_str())
    }
}

// ── what holds of every step ────────────────────────────────────────────────

/// A log is given up only after seven turns in a row that brought the bot no nearer, and
/// then it is. A turn that brought it nearer, or broke a log, wipes the count and the log
/// stays in the running.
pub proof fn law_logs_are_given_up_after_seven_turns(
    state: Chop,
    blocks: &Blocks,
    at: Pos,
    given_up: Seq<Pos>,
    seen: ChopSeen,
    pos: Pos,
)
    ensures
        ({
            let (next, action) = chop_next(state, blocks, at, given_up, seen);
            &&& action == ChopAction::GiveUp(pos) <==> state.phase == ChopPhase::Nudged(pos) && !seen.closer
                && state.idle >= 6
            &&& action is GiveUp ==> next.idle == 0 && next.phase == ChopPhase::Look
            &&& state.phase is Nudged && seen.closer ==> action == ChopAction::LookAgain && next.idle == 0
                && next.phase == ChopPhase::Look
            &&& state.phase is Nudged && !seen.closer && state.idle < 6 ==> action == ChopAction::LookAgain
                && next.idle == state.idle + 1 && next.phase == ChopPhase::Look
            &&& state.phase is Dug && seen.dug == DigResult::Broke ==> action == ChopAction::LookAgain
                && next.idle == 0 && next.phase == ChopPhase::Look
        }),
{
}

/// As long as there are turns, the nearest log that is not given up is dug at, and one that
/// is out of reach is stepped toward unless lava is near. A dig costs a turn, nothing else
/// does.
pub proof fn law_every_log_in_reach_is_dug_at(
    state: Chop,
    blocks: &Blocks,
    at: Pos,
    given_up: Seq<Pos>,
    seen: ChopSeen,
)
    ensures
        ({
            let (next, action) = chop_next(state, blocks, at, given_up, seen);
            let trunk = found_near(trunk_reach(), trunk_from(*blocks, at, given_up), at);
            &&& state.phase == ChopPhase::Look && state.left > 0 ==> match trunk {
                Some(p) => action == ChopAction::DigToward(p) && next.phase == ChopPhase::Dug(p) && next.left
                    == state.left - 1 && next.idle == state.idle,
                None => action == ChopAction::Collect,
            }
            &&& state.phase != ChopPhase::Look ==> next.left == state.left
            &&& state.phase matches ChopPhase::Dug(p) ==> (seen.dug == DigResult::OutOfReach && !near_lava(
                *blocks,
                at,
                2,
            ) ==> action == ChopAction::Nudge(p) && next.phase == ChopPhase::Nudged(p) && next.idle
                == state.idle)
            &&& action == ChopAction::Collect ==> next.phase == ChopPhase::Over
        }),
        chop_start().left == 60,
        chop_start().idle == 0,
        chop_start().phase == ChopPhase::Look,
{
}

/// A trunk is looked for four blocks to each side; a log more than one below the feet counts
/// as farther away by four for each level.
pub proof fn law_trunks_are_looked_for_in_reach(dx: int, dy: int, dz: int)
    ensures
        trunk_reach().covers(dx, dy, dz) <==> -4 <= dx <= 4 && -4 <= dy <= 4 && -4 <= dz <= 4,
        dy >= -1 ==> trunk_reach().cost(dx, dy, dz) == dx * dx + dy * dy + dz * dz,
        dy < -1 ==> trunk_reach().cost(dx, dy, dz) == dx * dx + dy * dy + dz * dz + 4 * (-dy - 1),
{
}

/// What a tree dropped is picked up: the bot waits for an item at its feet and walks to any
/// other, and stops exactly if there is none left, the turns are over, the connection is
/// lost, or lava lies on the way.
pub proof fn law_drops_are_picked_up(left: u32, blocks: &Blocks, at: Pos, seen: CollectSeen)
    ensures
        ({
            let (next, action) = collect_all_next(left, blocks, at, seen);
            let wanted = left > 0 && !seen.lost && seen.item;
            &&& action == CollectAction::Wait <==> wanted && seen.touching
            &&& action == CollectAction::Walk <==> wanted && !seen.touching && !near_lava(*blocks, at, 2)
            &&& action != CollectAction::Stop ==> next == left - 1
            &&& action == CollectAction::Stop ==> next == left
        }),
{
}

/// Lava is near if it lies within so many blocks to the side, at the level of the feet, one
/// above or one below.
pub proof fn law_lava_is_near(blocks: Blocks, at: Pos, r: int, p: Pos)
    requires
        -r <= p.0 - at.0 <= r,
        -1 <= p.1 - at.1 <= 1,
        -r <= p.2 - at.2 <= r,
    ensures
        lava_at(blocks, p.0 as int, p.1 as int, p.2 as int) ==> near_lava(blocks, at, r),
{
    if lava_at(blocks, p.0 as int, p.1 as int, p.2 as int) {
        let (dx, dy, dz) = (p.0 - at.0, p.1 - at.1, p.2 - at.2);
        assert(lava_at(blocks, at.0 + dx, at.1 + dy, at.2 + dz));
    }
}

/// Lava farther away is not near.
pub proof fn law_only_lava_close_by_is_near(blocks: Blocks, at: Pos, r: int)
    requires
        near_lava(blocks, at, r),
    ensures
        exists|x: int, y: int, z: int|
            -r <= x - at.0 <= r && -1 <= y - at.1 <= 1 && -r <= z - at.2 <= r && #[trigger] lava_at(
                blocks,
                x,
                y,
                z,
            ),
{
    let (dx, dy, dz) = choose|dx: int, dy: int, dz: int|
        -r <= dx <= r && -1 <= dy <= 1 && -r <= dz <= r && #[trigger] lava_at(
            blocks,
            at.0 + dx,
            at.1 + dy,
            at.2 + dz,
        );
    assert(lava_at(blocks, at.0 + dx, at.1 + dy, at.2 + dz));
}

/// A sweep takes its three hops of 16 blocks each in its direction, and ends early only
/// where a hop is blocked. Each hop within the budget can be followed by the next.
pub proof fn law_a_sweep_hops_on(hops: u32, way: (i32, i32), at: (i32, i32), blocked: bool)
    requires
        -1 <= way.0 <= 1,
        -1 <= way.1 <= 1,
        i32::MIN + 16 <= at.0 <= i32::MAX - 16,
        i32::MIN + 16 <= at.1 <= i32::MAX - 16,
    ensures
        ({
            let (next, action) = explore_next(hops, way, at, blocked);
            &&& action == ExploreAction::Stop <==> hops == 0 || blocked
            &&& action matches ExploreAction::Hop(x, z) ==> x - at.0 == 16 * way.0 && z - at.1 == 16 * way.1
                && next == hops - 1
        }),
        HOPS == 3,
{
}

/// Beyond 240 blocks from home, and only there, the bot turns back, toward home on each axis.
pub proof fn law_the_roam_budget_holds(sweep: u32, at: (i32, i32), home: (i32, i32))
    ensures
        too_far(at, home) <==> (at.0 - home.0) * (at.0 - home.0) + (at.1 - home.1) * (at.1 - home.1)
            > 240 * 240,
        too_far(at, home) ==> (heading(sweep, at, home).0 > 0 <==> home.0 > at.0) && (heading(
            sweep,
            at,
            home,
        ).0 < 0 <==> home.0 < at.0) && (heading(sweep, at, home).1 > 0 <==> home.1 > at.1) && (heading(
            sweep,
            at,
            home,
        ).1 < 0 <==> home.1 < at.1),
        -1 <= heading(sweep, at, home).0 <= 1,
        -1 <= heading(sweep, at, home).1 <= 1,
{
}

/// One sweep after the other turns by an eighth: the next direction shares an axis with the
/// last.
pub proof fn law_sweeps_turn_by_an_eighth(sweep: u32, at: (i32, i32), home: (i32, i32))
    requires
        !too_far(at, home),
        sweep < u32::MAX,
    ensures
        ({
            let (a, b) = (heading(sweep, at, home), heading((sweep + 1) as u32, at, home));
            (a.0 == b.0 && (a.1 - b.1 == 1 || b.1 - a.1 == 1)) || (a.1 == b.1 && (a.0 - b.0 == 1 || b.0 - a.0
                == 1))
        }),
{
}

/// Wood is gathered until there is enough of it: the task ends with the logs that there are,
/// because they are enough, because the cycles are used up, or because 16 sweeps in a row
/// have shown no tree, and it ends for each of these.
pub proof fn law_wood_ends_for_a_reason(state: GatherWood, seen: WoodSeen)
    requires
        state.phase != WoodPhase::Over,
    ensures
        ({
            let (next, action) = gather_wood_next(state, seen);
            &&& action is Done <==> (state.phase == WoodPhase::Top && (seen.logs >= state.target
                || state.cycles >= 200)) || (state.phase == WoodPhase::Looked && seen.nearest is None
                && state.sweeps >= 16)
            &&& action matches WoodAction::Done(n) ==> n == seen.logs && next.phase == WoodPhase::Over
            &&& next.target == state.target
            &&& state.phase == WoodPhase::Top && seen.logs < state.target && state.cycles < 200 ==> action
                == WoodAction::Look && next.phase == WoodPhase::Looked && next.cycles == state.cycles + 1
            &&& state.phase != WoodPhase::Top ==> next.cycles == state.cycles
            &&& state.phase != WoodPhase::Looked ==> next.sweeps == state.sweeps
        }),
        gather_wood_start(state.target).target == state.target,
        gather_wood_start(state.target).cycles == 0,
        gather_wood_start(state.target).sweeps == 0,
        gather_wood_start(state.target).phase == WoodPhase::Top,
{
}

/// A tree in view is gone for, a far one by an approach and a near one once there is a way to
/// it, and it ends the row of sweeps; without one the bot sweeps on, each time one sweep
/// further.
pub proof fn law_trees_in_view_are_gone_for(state: GatherWood, seen: WoodSeen)
    ensures
        ({
            let (next, action) = gather_wood_next(state, seen);
            &&& state.phase == WoodPhase::Looked ==> match seen.nearest {
                Some(tree) => next.sweeps == 0 && if seen.far {
                    action == WoodAction::MoveToward(tree) && next.phase == WoodPhase::Approached(tree)
                } else {
                    action == WoodAction::CanReach(tree) && next.phase == WoodPhase::Asked(tree)
                },
                None => state.sweeps < 16 ==> action == WoodAction::Explore(state.sweeps) && next.sweeps
                    == state.sweeps + 1 && next.phase == WoodPhase::Top,
            }
            &&& state.phase matches WoodPhase::Asked(tree) ==> if seen.reachable {
                action == WoodAction::Fell(tree) && next.phase == WoodPhase::Chopped(tree)
            } else {
                action == WoodAction::Remember(tree, TreeFault::Unreachable) && next.phase
                    == WoodPhase::Top
            }
            &&& state.phase matches WoodPhase::Approached(tree) ==> next.phase == WoodPhase::Top && (
            action == WoodAction::Remember(tree, TreeFault::NoApproach) <==> seen.no_closer) && (action
                == WoodAction::NoteGain(0) <==> !seen.no_closer)
            &&& state.phase matches WoodPhase::Chopped(tree) ==> next.phase == WoodPhase::Top && (action
                == WoodAction::Remember(tree, TreeFault::Unfelled) <==> seen.gained <= 0) && (seen.gained > 0
                ==> action == WoodAction::NoteGain(seen.gained))
        }),
{
}

proof fn lemma_wood_target(state: GatherWood, seen: Seq<WoodSeen>)
    ensures
        gather_wood_run(state, seen).target == state.target,
    decreases seen.len(),
{
    if seen.len() > 0 {
        lemma_wood_target(state, seen.drop_last());
    }
}

/// Over a whole run the task stops with fewer logs than the target of its start only after
/// 200 cycles or 16 sweeps in vain.
pub proof fn law_wood_runs_reach_the_target(target: i32, seen: Seq<WoodSeen>, last: WoodSeen, n: i32)
    requires
        gather_wood_run(gather_wood_start(target), seen).phase != WoodPhase::Over,
        gather_wood_next(gather_wood_run(gather_wood_start(target), seen), last).1 == WoodAction::Done(n),
        n < target,
    ensures
        n == last.logs,
        ({
            let state = gather_wood_run(gather_wood_start(target), seen);
            state.cycles == 200 || (state.sweeps >= 16 && last.nearest is None)
        }),
{
    lemma_wood_target(gather_wood_start(target), seen);
    lemma_gather_wood_run(gather_wood_start(target), seen);
}

/// What a fault is called in the log.
pub proof fn law_tree_faults_have_their_names(fault: TreeFault)
    ensures
        fault.text() == "no_approach"@ <==> fault == TreeFault::NoApproach,
        fault.text() == "unreachable"@ <==> fault == TreeFault::Unreachable,
        fault.text() == "unfelled"@ <==> fault == TreeFault::Unfelled,
{
    reveal_strlit("no_approach");
    reveal_strlit("unreachable");
    reveal_strlit("unfelled");
    assert("no_approach"@[0] == 'n' && "unreachable"@[0] == 'u' && "unfelled"@[0] == 'u');
    assert("unreachable"@.len() == 11 && "unfelled"@.len() == 8);
}

/// What a tree dropped is picked up for forty turns at most.
pub proof fn law_picking_up_takes_so_long(blocks: &Blocks, at: Pos, seen: CollectSeen)
    ensures
        COLLECT_TURNS == 40,
        collect_all_next(0, blocks, at, seen).1 == CollectAction::Stop,
{
}

/// The bot thrashes for forty ticks at most to get out of water.
pub proof fn law_escapes_take_so_long(out: bool, on_ground: bool, lost: bool)
    ensures
        ESCAPE_TICKS == 40,
        thrash_next(0, out, on_ground, lost).1 == ThrashAction::Stop,
{
}

} // verus!
