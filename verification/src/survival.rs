//! Survival priority hierarchy: reflexes that run before any goal or task in each
//! cycle, highest danger first. No matter what the bot would like to do, staying
//! alive comes first.

use crate::bot_utils::head_in_water;
use crate::memory::{Pos, WorldMemory};
use crate::world::{is_lava_at, lava_at, water_at, Blocks};
use vstd::prelude::*;

verus! {

/// There is lava at the feet or at the head.
pub open spec fn burns(blocks: Blocks, feet: Pos, head: Pos) -> bool {
    lava_at(blocks, feet.0 as int, feet.1 as int, feet.2 as int) || lava_at(
        blocks,
        head.0 as int,
        head.1 as int,
        head.2 as int,
    )
}

/// Is the bot standing in lava, or submerged in it?
pub fn in_lava(blocks: &Blocks, feet: Pos, head: Pos) -> (r: bool)
    ensures
        r == burns(*blocks, feet, head),
{
    is_lava_at(blocks, feet.0, feet.1, feet.2) || is_lava_at(blocks, head.0, head.1, head.2)
}

#[derive(Debug, Clone, Copy, PartialEq, Eq, Structural)]
pub enum ThrashAction {
    /// Jump and sprint forward for a tick.
    Thrash,
    Stop,
}

/// Thrashes for another tick, until out of the liquid and on solid ground.
pub open spec fn thrash_next(left: u32, out: bool, on_ground: bool, lost: bool) -> (u32, ThrashAction) {
    if left == 0 || (out && on_ground) || lost {
        (left, ThrashAction::Stop)
    } else {
        ((left - 1) as u32, ThrashAction::Thrash)
    }
}

/// Thrashes for another tick, until out of the liquid and on solid ground.
pub(crate) fn thrash(left: u32, out: bool, on_ground: bool, lost: bool) -> (r: (u32, ThrashAction))
    ensures
        r == thrash_next(left, out, on_ground, lost),
{
    if left == 0 || (out && on_ground) || lost {
        (left, ThrashAction::Stop)
    } else {
        (left - 1, ThrashAction::Thrash)
    }
}

/// Thrashes up and out of lava: every tick counts. Stops on solid ground outside of it.
/// `left` is how many ticks are left, `lost` says whether the connection was lost on the
/// last one.
pub fn escape_lava(left: u32, blocks: &Blocks, feet: Pos, head: Pos, on_ground: bool, lost: bool) -> (r: (
    u32,
    ThrashAction,
))
    ensures
        r == thrash_next(left, !burns(*blocks, feet, head), on_ground, lost),
{
    thrash(left, !in_lava(blocks, feet, head), on_ground, lost)
}

/// What the bot has to do before anything else.
#[derive(Debug, Clone, Copy, PartialEq, Eq, Structural)]
pub enum Reflex {
    /// Get out of the lava, within so many ticks.
    EscapeLava(u32),
    /// Surface, within so many ticks.
    LeaveWater(u32),
}

/// The reflex that fires: lava comes before water.
pub open spec fn reflex(blocks: Blocks, feet: Pos, head: Pos) -> Option<Reflex> {
    if burns(blocks, feet, head) {
        Some(Reflex::EscapeLava(60))
    } else if water_at(blocks, head.0 as int, head.1 as int, head.2 as int) {
        Some(Reflex::LeaveWater(80))
    } else {
        None
    }
}

/// The event and its detail that a reflex leaves in the log.
pub open spec fn reflex_event(reflex: Reflex) -> (Seq<char>, Seq<char>) {
    match reflex {
        Reflex::EscapeLava(_) => ("lava"@, "escaping"@),
        Reflex::LeaveWater(_) => ("water"@, "surfacing"@),
    }
}

/// The log with a reflex that fired at time `t`.
pub open spec fn with_reflex(
    events: Seq<(i64, Seq<char>, Seq<char>, Seq<char>)>,
    t: i64,
    reflex: Reflex,
) -> Seq<(i64, Seq<char>, Seq<char>, Seq<char>)> {
    events.push((t, "survival"@, reflex_event(reflex).0, reflex_event(reflex).1))
}

/// Logs a reflex. Returns whether the database took the event.
pub fn note_reflex(mem: &mut WorldMemory, reflex: Reflex) -> (stored: bool)
    requires
        old(mem).clock() < i64::MAX,
    ensures
        final(mem).clock() == old(mem).clock() + 1,
        final(mem).pois() == old(mem).pois(),
        ({
            let after = with_reflex(old(mem).events(), final(mem).clock(), reflex);
            &&& stored ==> final(mem).events() == after
            &&& !stored ==> final(mem).events() == after || final(mem).events() == old(mem).events()
        }),
        final(mem).place() == old(mem).place(),
        old(mem).in_time() ==> final(mem).in_time(),
{
    match reflex {
        Reflex::EscapeLava(_) => mem.log("survival", "lava", "escaping"),
        Reflex::LeaveWater(_) => mem.log("survival", "water", "surfacing"),
    }
}

/// The survival reflexes in priority order: lava first, it is the most immediately
/// lethal; then a head under water. A reflex that fires is one event in the log, if the
/// database takes it; where none fires, the memory stays as it is.
pub fn handle_survival(blocks: &Blocks, feet: Pos, head: Pos, mem: &mut WorldMemory) -> (r: Option<Reflex>)
    requires
        old(mem).clock() < i64::MAX,
    ensures
        r == reflex(*blocks, feet, head),
        r is None ==> *final(mem) == *old(mem),
        r matches Some(fired) ==> {
            &&& final(mem).clock() == old(mem).clock() + 1
            &&& final(mem).pois() == old(mem).pois()
            &&& final(mem).events() == with_reflex(old(mem).events(), final(mem).clock(), fired)
                || final(mem).events() == old(mem).events()
        },
        final(mem).place() == old(mem).place(),
        old(mem).in_time() ==> final(mem).in_time(),
{
    if in_lava(blocks, feet, head) {
        note_reflex(mem, Reflex::EscapeLava(60));
        Some(Reflex::EscapeLava(60))
    } else if head_in_water(blocks, head) {
        note_reflex(mem, Reflex::LeaveWater(80));
        Some(Reflex::LeaveWater(80))
    } else {
        None
    }
}

/// A reflex fires exactly if there is a danger, and lava comes before water.
pub proof fn law_lava_comes_first(blocks: Blocks, feet: Pos, head: Pos)
    ensures
        reflex(blocks, feet, head) is Some <==> burns(blocks, feet, head) || water_at(
            blocks,
            head.0 as int,
            head.1 as int,
            head.2 as int,
        ),
        burns(blocks, feet, head) ==> reflex(blocks, feet, head) == Some(Reflex::EscapeLava(60)),
{
}

/// The bot thrashes until it is out of the liquid and on the ground, its ticks are used up, or
/// the connection is lost.
pub proof fn law_thrashing_stops_for_a_reason(left: u32, out: bool, on_ground: bool, lost: bool)
    ensures
        thrash_next(left, out, on_ground, lost).1 == ThrashAction::Stop <==> (out && on_ground) || lost || left
            == 0,
        thrash_next(left, out, on_ground, lost).1 == ThrashAction::Thrash ==> thrash_next(
            left,
            out,
            on_ground,
            lost,
        ).0 == left - 1,
{
}

/// Lava at the feet or at the head burns, and nothing else does. A head under water, without
/// lava, makes the bot surface.
pub proof fn law_dangers_are_told_apart(blocks: Blocks, feet: Pos, head: Pos)
    ensures
        lava_at(blocks, feet.0 as int, feet.1 as int, feet.2 as int) ==> burns(blocks, feet, head),
        lava_at(blocks, head.0 as int, head.1 as int, head.2 as int) ==> burns(blocks, feet, head),
        burns(blocks, feet, head) && !lava_at(blocks, feet.0 as int, feet.1 as int, feet.2 as int) ==> lava_at(
            blocks,
            head.0 as int,
            head.1 as int,
            head.2 as int,
        ),
        !burns(blocks, feet, head) && water_at(blocks, head.0 as int, head.1 as int, head.2 as int) ==> reflex(
            blocks,
            feet,
            head,
        ) == Some(Reflex::LeaveWater(80)),
{
}

/// A reflex goes to the end of the log, as one of survival, with the danger and what is done
/// about it.
pub proof fn law_reflexes_are_logged(
    events: Seq<(i64, Seq<char>, Seq<char>, Seq<char>)>,
    t: i64,
    ticks: u32,
)
    ensures
        with_reflex(events, t, Reflex::EscapeLava(ticks)) == events.push(
            (t, "survival"@, "lava"@, "escaping"@),
        ),
        with_reflex(events, t, Reflex::LeaveWater(ticks)) == events.push(
            (t, "survival"@, "water"@, "surfacing"@),
        ),
{
}

} // verus!
