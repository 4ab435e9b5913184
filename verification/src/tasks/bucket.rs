//! Water buckets: find water, fill empty buckets.

use crate::bot_utils::slot_of;
use crate::items::{lemma_slot_from, slot_from, slot_named, Stack};
use crate::memory::{recorded_row, storage_key, PoiKind, PoiStatus, Pos, WorldMemory};
use crate::tasks::report::{ratio_message, ratio_text};
use crate::types::{failure, success, StepResult};
use crate::world::{block_state, state_of, States};
use vstd::prelude::*;

verus! {

/// The water has air above it.
pub open spec fn is_surface(states: States, p: Pos) -> bool {
    block_state(states, p.0 as int, p.1 + 1, p.2 as int) == 0
}

/// The first of the waters, from number `from` on, that is at the surface.
pub open spec fn first_surface(states: States, waters: Seq<Pos>, from: int) -> Option<Pos>
    decreases waters.len() - from,
{
    if from >= waters.len() {
        None
    } else if is_surface(states, waters[from]) {
        Some(waters[from])
    } else {
        first_surface(states, waters, from + 1)
    }
}

/// The water to go to: at the surface, else any.
pub open spec fn water_pick(states: States, waters: Seq<Pos>, any: Option<Pos>) -> Option<Pos> {
    match first_surface(states, waters, 0) {
        Some(p) => Some(p),
        None => any,
    }
}

/// Puts the water on the map that the bot goes to. Returns whether the database took it.
pub fn remember_water(mem: &mut WorldMemory, at: Pos) -> (stored: bool)
    requires
        old(mem).clock() < i64::MAX,
    ensures
        final(mem).clock() == old(mem).clock() + 1,
        final(mem).events() == old(mem).events(),
        ({
            let after = old(mem).pois().insert(
                storage_key(PoiKind::Water, at),
                recorded_row(PoiKind::Water, PoiStatus::Available, final(mem).clock()),
            );
            &&& stored ==> final(mem).pois() == after
            &&& !stored ==> final(mem).pois() == after || final(mem).pois() == old(mem).pois()
        }),
        final(mem).place() == old(mem).place(),
        old(mem).in_time() ==> final(mem).in_time(),
{
    mem.record(PoiKind::Water, at, PoiStatus::Available)
}

/// There is room in the coordinates above each of the places.
pub open spec fn have_room_above(waters: Seq<Pos>) -> bool {
    forall|i: int| 0 <= i < waters.len() ==> (#[trigger] waters[i]).1 < i32::MAX
}

/// Nearest water source, preferring one with air above (a surface pool). `waters`
/// are in order of their distance; `any` is what to take where none is at the
/// surface.
pub fn find_water(states: &States, waters: &Vec<Pos>, any: Option<Pos>) -> (r: Option<Pos>)
    requires
        have_room_above(waters@),
    ensures
        r == water_pick(*states, waters@, any),
        (exists|i: int| 0 <= i < waters@.len() && is_surface(*states, #[trigger] waters@[i]))
            ==> exists|i: int|
            0 <= i < waters@.len() && r == Some(#[trigger] waters@[i]) && is_surface(
                *states,
                waters@[i],
            ) && forall|j: int| 0 <= j < i ==> !is_surface(*states, #[trigger] waters@[j]),
        (forall|i: int| 0 <= i < waters@.len() ==> !is_surface(*states, #[trigger] waters@[i])) ==> r
            == any,
{
    let mut i: usize = 0;
    while i < waters.len()
        invariant
            i <= waters@.len(),
            have_room_above(waters@),
            first_surface(*states, waters@, 0) == first_surface(*states, waters@, i as int),
            forall|j: int| 0 <= j < i ==> !is_surface(*states, #[trigger] waters@[j]),
        decreases waters@.len() - i,
    {
        let p = waters[i];
        assert(waters@[i as int].1 < i32::MAX);
        if state_of(states, p.0, p.1 + 1, p.2) == 0 {
            assert(is_surface(*states, waters@[i as int]));
            return Some(p);
        }
        i += 1;
    }
    any
}

#[derive(Debug, Clone, Copy, PartialEq, Eq)]
pub enum WaterPhase {
    Top,
    /// Stands next to the water.
    At(Pos),
    /// Has taken the empty bucket in hand.
    Selected(Pos),
    /// Has taken aim at the water.
    Aimed(Pos),
    /// Has used it, with so many full buckets before.
    Used(Pos, i32),
    /// Has used it once more.
    UsedAgain(i32),
    /// Has noted a fill that the inventory did not show.
    Predicted,
    Over,
}

#[derive(Debug, Clone, Copy, PartialEq, Eq)]
pub struct WaterSeen {
    /// Full and empty buckets.
    pub filled: i32,
    pub buckets: i32,
    pub late: bool,
    /// The nearest water, at the surface or not.
    pub any: Option<Pos>,
    /// The empty bucket is in hand.
    pub armed: bool,
}

#[derive(Debug, Clone, Copy, PartialEq, Eq, Structural)]
pub enum WaterEnd {
    NoWater,
    /// So many buckets are full.
    Filled(i32),
}

#[derive(Debug, Clone, Copy, PartialEq, Eq)]
pub enum WaterAction {
    /// Remember the water and stand next to it.
    Approach(Pos),
    /// Take the empty bucket in hand.
    Select,
    /// Look at the water.
    Aim(Pos),
    /// Use it on the water.
    Use,
    /// Use it once more, from another angle.
    UseAgain(Pos),
    /// Note the fill in the local inventory.
    Predict,
    /// Note an empty bucket less in this slot of the local inventory.
    UseUp(usize),
    Done(WaterEnd),
}

/// The start of a turn of `fill_water_buckets`.
pub open spec fn fill_next_bucket_next(target: i32, states: &States, waters: Seq<Pos>, seen: WaterSeen) -> (
    WaterPhase,
    WaterAction,
) {
    if seen.filled >= target || seen.late || seen.buckets == 0 {
        (WaterPhase::Over, WaterAction::Done(WaterEnd::Filled(seen.filled)))
    } else {
        match water_pick(*states, waters, seen.any) {
            Some(pos) => (WaterPhase::At(pos), WaterAction::Approach(pos)),
            None => (WaterPhase::Over, WaterAction::Done(WaterEnd::NoWater)),
        }
    }
}

/// The start of a turn of `fill_water_buckets`.
fn fill_next_bucket(target: i32, states: &States, waters: &Vec<Pos>, seen: WaterSeen) -> (r: (
    WaterPhase,
    WaterAction,
))
    requires
        have_room_above(waters@),
    ensures
        r == fill_next_bucket_next(target, states, waters@, seen),
{
    if seen.filled >= target || seen.late || seen.buckets == 0 {
        (WaterPhase::Over, WaterAction::Done(WaterEnd::Filled(seen.filled)))
    } else {
        match find_water(states, waters, seen.any) {
            Some(pos) => (WaterPhase::At(pos), WaterAction::Approach(pos)),
            None => (WaterPhase::Over, WaterAction::Done(WaterEnd::NoWater)),
        }
    }
}

/// What `fill_water_buckets` does next.
pub open spec fn fill_water_buckets_next(
    phase: WaterPhase,
    target: i32,
    states: &States,
    waters: Seq<Pos>,
    slots: Seq<Option<Stack>>,
    seen: WaterSeen,
) -> (WaterPhase, WaterAction) {
    match phase {
        WaterPhase::Top => fill_next_bucket_next(target, states, waters, seen),
        WaterPhase::At(pos) => (WaterPhase::Selected(pos), WaterAction::Select),
        WaterPhase::Selected(pos) => {
            if seen.armed {
                (WaterPhase::Aimed(pos), WaterAction::Aim(pos))
            } else {
                (WaterPhase::Over, WaterAction::Done(WaterEnd::Filled(seen.filled)))
            }
        },
        WaterPhase::Aimed(pos) => (WaterPhase::Used(pos, seen.filled), WaterAction::Use),
        WaterPhase::Used(pos, before) => {
            if seen.filled <= before {
                (WaterPhase::UsedAgain(before), WaterAction::UseAgain(pos))
            } else {
                fill_next_bucket_next(target, states, waters, seen)
            }
        },
        WaterPhase::UsedAgain(before) => {
            if seen.filled <= before {
                (WaterPhase::Predicted, WaterAction::Predict)
            } else {
                fill_next_bucket_next(target, states, waters, seen)
            }
        },
        WaterPhase::Predicted => {
            if seen.buckets > 0 {
                match slot_from(slots, 0, "bucket"@) {
                    Some(i) => (WaterPhase::Top, WaterAction::UseUp(i)),
                    None => fill_next_bucket_next(target, states, waters, seen),
                }
            } else {
                fill_next_bucket_next(target, states, waters, seen)
            }
        },
        WaterPhase::Over => (phase, WaterAction::Done(WaterEnd::Filled(seen.filled))),
    }
}

/// Fills empty buckets with water until `target` are full. A use that did not show in
/// the inventory is tried once more from another angle, then noted as done: the server
/// filled the bucket. `waters` are in order of their distance.
pub fn fill_water_buckets(
    phase: WaterPhase,
    target: i32,
    states: &States,
    waters: &Vec<Pos>,
    slots: &Vec<Option<Stack>>,
    seen: WaterSeen,
) -> (r: (WaterPhase, WaterAction))
    requires
        have_room_above(waters@),
    ensures
        r == fill_water_buckets_next(phase, target, states, waters@, slots@, seen),
{
    match phase {
        WaterPhase::Top => fill_next_bucket(target, states, waters, seen),
        WaterPhase::At(pos) => (WaterPhase::Selected(pos), WaterAction::Select),
        WaterPhase::Selected(pos) => {
            if seen.armed {
                (WaterPhase::Aimed(pos), WaterAction::Aim(pos))
            } else {
                (WaterPhase::Over, WaterAction::Done(WaterEnd::Filled(seen.filled)))
            }
        },
        WaterPhase::Aimed(pos) => (WaterPhase::Used(pos, seen.filled), WaterAction::Use),
        WaterPhase::Used(pos, before) => {
            if seen.filled <= before {
                (WaterPhase::UsedAgain(before), WaterAction::UseAgain(pos))
            } else {
                fill_next_bucket(target, states, waters, seen)
            }
        },
        WaterPhase::UsedAgain(before) => {
            if seen.filled <= before {
                (WaterPhase::Predicted, WaterAction::Predict)
            } else {
                fill_next_bucket(target, states, waters, seen)
            }
        },
        WaterPhase::Predicted => {
            if seen.buckets > 0 {
                match slot_of(slots, "bucket") {
                    Some(i) => (WaterPhase::Top, WaterAction::UseUp(i)),
                    None => fill_next_bucket(target, states, waters, seen),
                }
            } else {
                fill_next_bucket(target, states, waters, seen)
            }
        },
        WaterPhase::Over => (phase, WaterAction::Done(WaterEnd::Filled(seen.filled))),
    }
}

/// Water is looked for only while buckets are wanting and there is an empty one; the
/// lack of water is reported only then. A bucket is used only after it was taken in hand
/// and aimed, and only an empty one is used up.
pub proof fn law_buckets_are_filled_while_wanting(
    phase: WaterPhase,
    target: i32,
    states: &States,
    waters: Seq<Pos>,
    slots: Seq<Option<Stack>>,
    seen: WaterSeen,
    pos: Pos,
)
    requires
        slots.len() <= usize::MAX,
    ensures
        ({
            let action = fill_water_buckets_next(phase, target, states, waters, slots, seen).1;
            &&& action == WaterAction::Approach(pos) ==> water_pick(*states, waters, seen.any) == Some(pos)
                && seen.filled < target && seen.buckets != 0 && !seen.late
            &&& action == WaterAction::Done(WaterEnd::NoWater) ==> water_pick(*states, waters, seen.any) is None
                && seen.filled < target && seen.buckets != 0
            &&& action is Aim ==> seen.armed
            &&& action == WaterAction::Use ==> phase is Aimed
            &&& action matches WaterAction::UseUp(i) ==> i < slots.len() && slot_named(
                slots[i as int],
                "bucket"@,
            ) && seen.buckets > 0
        }),
{
    lemma_slot_from(slots, 0, "bucket"@);
}

/// How far the machine is into a turn.
pub open spec fn water_rank(phase: WaterPhase) -> int {
    match phase {
        WaterPhase::Top => 0,
        WaterPhase::At(_) => 1,
        WaterPhase::Selected(_) => 2,
        WaterPhase::Aimed(_) => 3,
        WaterPhase::Used(_, _) => 4,
        WaterPhase::UsedAgain(_) => 5,
        WaterPhase::Predicted => 6,
        WaterPhase::Over => 7,
    }
}

/// Every step goes on within the turn, or starts the next one: with a bucket that was
/// filled, or that is taken to be filled.
pub proof fn law_filling_goes_on(
    phase: WaterPhase,
    target: i32,
    states: &States,
    waters: Seq<Pos>,
    slots: Seq<Option<Stack>>,
    seen: WaterSeen,
)
    requires
        !(phase is Over),
    ensures
        ({
            let next = fill_water_buckets_next(phase, target, states, waters, slots, seen).0;
            water_rank(next) > water_rank(phase) || match phase {
                WaterPhase::Used(_, before) => seen.filled > before,
                WaterPhase::UsedAgain(before) => seen.filled > before,
                WaterPhase::Predicted => true,
                _ => false,
            }
        }),
{
}

/// What the step reports: a success exactly if the target was reached.
pub fn report_water(end: WaterEnd, target: i32) -> (r: StepResult)
    ensures
        r.success == (end matches WaterEnd::Filled(n) && n >= target),
        r.message@ == (match end {
            WaterEnd::NoWater => "no water found nearby"@,
            WaterEnd::Filled(n) => ratio_text(
                "filled "@,
                n as int,
                target as int,
                " water buckets"@,
            ),
        }),
{
    match end {
        WaterEnd::NoWater => failure("no water found nearby"),
        WaterEnd::Filled(n) => {
            let message = ratio_message("filled ", n, target, " water buckets");
            if n >= target {
                success(message.as_str())
            } else {
                failure(message.as_str())
            }
        },
    }
}

// ── what holds of every step ────────────────────────────────────────────────

/// The water that is picked is the first at the surface, with air right above; where none is,
/// it is the one given instead.
pub proof fn law_surface_water_comes_first(states: States, waters: Seq<Pos>, any: Option<Pos>, from: int)
    requires
        0 <= from,
    ensures
        match first_surface(states, waters, from) {
            Some(p) => exists|i: int|
                from <= i < waters.len() && #[trigger] waters[i] == p && block_state(
                    states,
                    p.0 as int,
                    p.1 + 1,
                    p.2 as int,
                ) == 0 && forall|j: int|
                    from <= j < i ==> block_state(
                        states,
                        (#[trigger] waters[j]).0 as int,
                        waters[j].1 + 1,
                        waters[j].2 as int,
                    ) != 0,
            None => forall|j: int|
                from <= j < waters.len() ==> block_state(
                    states,
                    (#[trigger] waters[j]).0 as int,
                    waters[j].1 + 1,
                    waters[j].2 as int,
                ) != 0,
        },
        first_surface(states, waters, 0) is Some ==> water_pick(states, waters, any) == first_surface(
            states,
            waters,
            0,
        ),
        first_surface(states, waters, 0) is None ==> water_pick(states, waters, any) == any,
    decreases waters.len() - from,
{
    if from < waters.len() {
        if is_surface(states, waters[from]) {
            assert(waters[from] == waters[from]);
        } else {
            law_surface_water_comes_first(states, waters, any, from + 1);
        }
    }
}

/// The machine starts on the next bucket with this step.
pub open spec fn turns_to_next_bucket(phase: WaterPhase, slots: Seq<Option<Stack>>, seen: WaterSeen) -> bool {
    match phase {
        WaterPhase::Top => true,
        WaterPhase::Used(_, before) => seen.filled > before,
        WaterPhase::UsedAgain(before) => seen.filled > before,
        WaterPhase::Predicted => seen.buckets <= 0 || forall|j: int|
            0 <= j < slots.len() ==> !slot_named(#[trigger] slots[j], "bucket"@),
        _ => false,
    }
}

/// Filling ends only between two buckets, with enough of them full, no empty one left, the
/// time up or no water to be found, or without the bucket in hand; it reports how many are
/// full. Otherwise the bot goes to water for the next bucket.
pub proof fn law_buckets_are_filled_up(
    phase: WaterPhase,
    target: i32,
    states: &States,
    waters: Seq<Pos>,
    slots: Seq<Option<Stack>>,
    seen: WaterSeen,
)
    requires
        slots.len() <= usize::MAX,
        phase != WaterPhase::Over,
    ensures
        ({
            let (next, action) = fill_water_buckets_next(phase, target, states, waters, slots, seen);
            let turn = turns_to_next_bucket(phase, slots, seen);
            let enough = seen.filled >= target || seen.late || seen.buckets == 0;
            let water = water_pick(*states, waters, seen.any);
            &&& action == WaterAction::Done(WaterEnd::Filled(seen.filled)) <==> (turn && enough) || (phase
                is Selected && !seen.armed)
            &&& action == WaterAction::Done(WaterEnd::NoWater) <==> turn && !enough && water is None
            &&& action is Done ==> action == WaterAction::Done(WaterEnd::NoWater) || action == WaterAction::Done(
                WaterEnd::Filled(seen.filled),
            )
            &&& action is Done <==> next == WaterPhase::Over
            &&& turn && !enough ==> (water matches Some(p) ==> action == WaterAction::Approach(p) && next
                == WaterPhase::At(p))
        }),
{
    lemma_slot_from(slots, 0, "bucket"@);
}

/// At the water the empty bucket is taken in hand, aimed and used; a use that does not show is
/// made once more, and then noted, an empty bucket less with it.
pub proof fn law_a_bucket_has_its_order(
    phase: WaterPhase,
    target: i32,
    states: &States,
    waters: Seq<Pos>,
    slots: Seq<Option<Stack>>,
    seen: WaterSeen,
)
    requires
        slots.len() <= usize::MAX,
    ensures
        ({
            let (next, action) = fill_water_buckets_next(phase, target, states, waters, slots, seen);
            &&& phase matches WaterPhase::At(p) ==> action == WaterAction::Select && next
                == WaterPhase::Selected(p)
            &&& phase matches WaterPhase::Selected(p) ==> (seen.armed ==> action == WaterAction::Aim(p) && next
                == WaterPhase::Aimed(p))
            &&& phase matches WaterPhase::Aimed(p) ==> action == WaterAction::Use && next == WaterPhase::Used(
                p,
                seen.filled,
            )
            &&& phase matches WaterPhase::Used(p, before) ==> (seen.filled <= before ==> action
                == WaterAction::UseAgain(p) && next == WaterPhase::UsedAgain(before))
            &&& phase matches WaterPhase::UsedAgain(before) ==> (seen.filled <= before ==> action
                == WaterAction::Predict && next == WaterPhase::Predicted)
            &&& phase == WaterPhase::Predicted && seen.buckets > 0 && (exists|j: int|
                0 <= j < slots.len() && slot_named(#[trigger] slots[j], "bucket"@)) ==> action is UseUp && next
                == WaterPhase::Top
        }),
{
    lemma_slot_from(slots, 0, "bucket"@);
}

} // verus!
