//! Gather food: hunt passive animals with the sword, collect the meat.

use crate::items::{tally, tally_by, tally_fits, Stack};
use crate::tasks::report::{ratio_message, ratio_text};
use crate::text::same;
use crate::types::{failure, success, StepResult, Tier};
use std::collections::HashSet;
use vstd::prelude::*;

verus! {

broadcast use vstd::std_specs::hash::group_hash_axioms;

/// The animals that are hunted.
pub open spec fn is_animal(n: Seq<char>) -> bool {
    ||| n == "cow"@
    ||| n == "pig"@
    ||| n == "sheep"@
    ||| n == "chicken"@
    ||| n == "rabbit"@
}

/// What the animals drop that can be eaten, raw or cooked.
pub open spec fn is_meat(n: Seq<char>) -> bool {
    ||| n == "beef"@
    ||| n == "cooked_beef"@
    ||| n == "porkchop"@
    ||| n == "cooked_porkchop"@
    ||| n == "mutton"@
    ||| n == "cooked_mutton"@
    ||| n == "chicken"@
    ||| n == "cooked_chicken"@
    ||| n == "rabbit"@
    ||| n == "cooked_rabbit"@
}

fn is_animal_name(n: &str) -> (r: bool)
    ensures
        r == is_animal(n@),
{
    same(n, "cow") || same(n, "pig") || same(n, "sheep") || same(n, "chicken") || same(n, "rabbit")
}

fn is_meat_name(n: &str) -> (r: bool)
    ensures
        r == is_meat(n@),
{
    same(n, "beef") || same(n, "cooked_beef") || same(n, "porkchop") || same(n, "cooked_porkchop")
        || same(n, "mutton") || same(n, "cooked_mutton") || same(n, "chicken")
        || same(n, "cooked_chicken") || same(n, "rabbit") || same(n, "cooked_rabbit")
}

pub open spec fn meat_name() -> spec_fn(Seq<char>) -> bool {
    |n: Seq<char>| is_meat(n)
}

/// How much meat the bot has.
pub fn count_food(slots: &Vec<Option<Stack>>) -> (r: i32)
    requires
        tally_fits(slots@, meat_name()),
    ensures
        r == tally(slots@, meat_name()),
{
    let test = |n: &str| -> (b: bool)
        ensures b == is_meat(n@)
    {
        is_meat_name(n)
    };
    tally_by(slots, test, Ghost(meat_name()))
}

/// An entity type of the registry.
#[derive(Debug, Clone, PartialEq, Eq)]
pub struct EntityKind {
    pub name: String,
    pub id: i32,
}

/// The id is that of an animal.
pub open spec fn is_animal_id(kinds: Seq<EntityKind>, id: i32) -> bool {
    exists|i: int| 0 <= i < kinds.len() && is_animal((#[trigger] kinds[i]).name@) && kinds[i].id == id
}

/// The type ids of the animals that are hunted.
pub fn animal_type_ids(kinds: &Vec<EntityKind>) -> (r: HashSet<i32>)
    ensures
        forall|id: i32| #[trigger] r@.contains(id) <==> is_animal_id(kinds@, id),
{
    let mut ids: HashSet<i32> = HashSet::new();
    let mut i: usize = 0;
    while i < kinds.len()
        invariant
            i <= kinds@.len(),
            forall|id: i32| #[trigger] ids@.contains(id) <==> is_animal_id(kinds@.take(i as int), id),
        decreases kinds@.len() - i,
    {
        let kind = &kinds[i];
        let ghost before = ids@;
        if is_animal_name(kind.name.as_str()) {
            ids.insert(kind.id);
        }
        proof {
            let seen = kinds@.take(i as int);
            let next = kinds@.take(i + 1);
            assert(next[i as int] == *kind);
            assert forall|id: i32| #[trigger] ids@.contains(id) <==> is_animal_id(next, id) by {
                assert(before.contains(id) <==> is_animal_id(seen, id));
                if is_animal_id(seen, id) {
                    let j = choose|j: int|
                        0 <= j < seen.len() && is_animal((#[trigger] seen[j]).name@) && seen[j].id == id;
                    assert(next[j] == seen[j]);
                }
                if is_animal_id(next, id) {
                    let j = choose|j: int|
                        0 <= j < next.len() && is_animal((#[trigger] next[j]).name@) && next[j].id == id;
                    if j < i {
                        assert(seen[j] == next[j]);
                    }
                }
            }
        }
        i += 1;
    }
    assert(kinds@.take(kinds@.len() as int) =~= kinds@);
    ids
}

/// An entity in sight: its type, where it is known, and a key by which entities are
/// ordered by distance.
#[derive(Debug, Clone, Copy, PartialEq, Eq, Structural)]
pub struct Sighted {
    pub entity_type: Option<i32>,
    pub key: u64,
}

/// The entity is of one of the types.
pub open spec fn is_prey(e: Sighted, ids: Set<i32>) -> bool {
    e.entity_type matches Some(t) && ids.contains(t)
}

/// The entity is prey, none nearer is, and it is the first of those at its distance.
pub open spec fn is_nearest_prey(entities: Seq<Sighted>, ids: Set<i32>, i: usize) -> bool {
    &&& i < entities.len()
    &&& is_prey(entities[i as int], ids)
    &&& forall|j: int|
        0 <= j < entities.len() && is_prey(#[trigger] entities[j], ids) ==> entities[i as int].key
            <= entities[j].key
    &&& forall|j: int|
        0 <= j < i && is_prey(#[trigger] entities[j], ids) ==> entities[i as int].key < entities[j].key
}

/// There is at most one nearest prey.
pub proof fn law_nearest_prey_is_one(entities: Seq<Sighted>, ids: Set<i32>, i: usize, j: usize)
    requires
        is_nearest_prey(entities, ids, i),
        is_nearest_prey(entities, ids, j),
    ensures
        i == j,
{
    assert(is_prey(entities[i as int], ids) && is_prey(entities[j as int], ids));
}

/// The nearest prey, where there is any.
pub open spec fn nearest_prey(entities: Seq<Sighted>, ids: Set<i32>) -> Option<usize> {
    if exists|i: usize| is_nearest_prey(entities, ids, i) {
        Some(choose|i: usize| is_nearest_prey(entities, ids, i))
    } else {
        None
    }
}

proof fn lemma_some_prey_is_nearest(entities: Seq<Sighted>, ids: Set<i32>, j: int)
    requires
        0 <= j < entities.len() <= usize::MAX,
        is_prey(entities[j], ids),
    ensures
        exists|i: usize| is_nearest_prey(entities, ids, i),
    decreases entities.len(),
{
    let rest = entities.drop_last();
    let last = (entities.len() - 1) as usize;
    if exists|k: int| 0 <= k < rest.len() && is_prey(#[trigger] rest[k], ids) {
        let k = choose|k: int| 0 <= k < rest.len() && is_prey(#[trigger] rest[k], ids);
        lemma_some_prey_is_nearest(rest, ids, k);
        let i = choose|i: usize| is_nearest_prey(rest, ids, i);
        assert forall|m: int| 0 <= m < last implies #[trigger] entities[m] == rest[m] by {}
        if is_prey(entities[last as int], ids) && entities[last as int].key < entities[i as int].key {
            assert(is_nearest_prey(entities, ids, last));
        } else {
            assert(is_nearest_prey(entities, ids, i));
        }
    } else {
        assert forall|m: int| 0 <= m < last implies !is_prey(#[trigger] entities[m], ids) by {
            assert(entities[m] == rest[m]);
        }
        assert(is_nearest_prey(entities, ids, last));
    }
}

/// Nearest food animal, the first of several at one distance.
pub fn nearest_animal(entities: &Vec<Sighted>, ids: &HashSet<i32>) -> (r: Option<usize>)
    ensures
        r matches Some(i) ==> is_nearest_prey(entities@, ids@, i),
        r is None ==> forall|j: int|
            0 <= j < entities@.len() ==> !is_prey(#[trigger] entities@[j], ids@),
        r == nearest_prey(entities@, ids@),
{
    let mut best: Option<usize> = None;
    let mut i: usize = 0;
    while i < entities.len()
        invariant
            i <= entities@.len(),
            best is None ==> forall|j: int| 0 <= j < i ==> !is_prey(#[trigger] entities@[j], ids@),
            best matches Some(b) ==> {
                &&& b < i
                &&& is_prey(entities@[b as int], ids@)
                &&& forall|j: int|
                    0 <= j < i && is_prey(#[trigger] entities@[j], ids@) ==> entities@[b as int].key
                        <= entities@[j].key
                &&& forall|j: int|
                    0 <= j < b && is_prey(#[trigger] entities@[j], ids@) ==> entities@[b as int].key
                        < entities@[j].key
            },
        decreases entities@.len() - i,
    {
        let e = entities[i];
        let prey: bool = match e.entity_type {
            Some(t) => ids.contains(&t),
            None => false,
        };
        if prey {
            match best {
                Some(b) => {
                    if e.key < entities[b].key {
                        best = Some(i);
                    }
                },
                None => {
                    best = Some(i);
                },
            }
        }
        i += 1;
    }
    proof {
        match best {
            Some(b) => {
                assert(is_nearest_prey(entities@, ids@, b));
                law_nearest_prey_is_one(
                    entities@,
                    ids@,
                    b,
                    choose|i: usize| is_nearest_prey(entities@, ids@, i),
                );
            },
            None => {},
        }
    }
    best
}

/// The name of a tier's sword.
pub open spec fn sword_text(tier: Tier) -> Seq<char> {
    match tier {
        Tier::Diamond => "diamond_sword"@,
        Tier::Iron => "iron_sword"@,
        Tier::Stone => "stone_sword"@,
        _ => "wooden_sword"@,
    }
}

pub fn sword_name(tier: Tier) -> (r: &'static str)
    ensures
        r@ == sword_text(tier),
{
    match tier {
        Tier::Diamond => "diamond_sword",
        Tier::Iron => "iron_sword",
        Tier::Stone => "stone_sword",
        _ => "wooden_sword",
    }
}

/// The swords that are tried, in turn.
pub const SWORDS: [Tier; 4] = [Tier::Diamond, Tier::Iron, Tier::Stone, Tier::Wood];

#[derive(Debug, Clone, Copy, PartialEq, Eq, Structural)]
pub enum HuntPhase {
    /// Has tried so many swords.
    Arming(usize),
    Top,
    /// Wanders about to load new entities, with so many ticks left.
    Wandering(u32),
    /// Chases an animal, with so many turns left and so many hits made.
    Chasing(u32, u32),
    /// Has closed in for a tick.
    Closed(u32, u32),
    /// Has collected the drops.
    Collected,
    Over,
}

#[derive(Debug, Clone, Copy, PartialEq, Eq, Structural)]
pub struct HuntSeen {
    /// The last sword that was tried is in hand.
    pub armed: bool,
    pub food: i32,
    pub late: bool,
    /// The connection was lost on the last tick.
    pub lost: bool,
    /// The animal that is chased still lives.
    pub alive: bool,
    /// It is out of reach of the sword.
    pub far: bool,
}

#[derive(Debug, Clone, Copy, PartialEq, Eq, Structural)]
pub enum HuntEnd {
    Disconnected,
    /// So much meat.
    Gathered(i32),
}

#[derive(Debug, Clone, Copy, PartialEq, Eq, Structural)]
pub enum HuntAction {
    /// Take the sword of this tier in hand.
    TakeSword(Tier),
    /// Run a tick in a new direction.
    Turn,
    /// Run a tick in the same direction.
    Run,
    /// Chase this one of the entities.
    Chase(usize),
    /// Run a tick toward the animal.
    Close,
    /// Strike and wait for the cooldown.
    Attack,
    /// Collect the drops where the animal fell.
    Collect,
    Done(HuntEnd),
}

/// The start of a turn of `gather_food`.
pub open spec fn hunt_top_next(target: i32, entities: Seq<Sighted>, ids: Set<i32>, seen: HuntSeen) -> (
    HuntPhase,
    HuntAction,
) {
    if seen.food >= target || seen.late {
        (HuntPhase::Over, HuntAction::Done(HuntEnd::Gathered(seen.food)))
    } else {
        match nearest_prey(entities, ids) {
            Some(i) => (HuntPhase::Chasing(80, 0), HuntAction::Chase(i)),
            None => (HuntPhase::Wandering(39), HuntAction::Turn),
        }
    }
}

/// The start of a turn of `gather_food`.
fn hunt_top(target: i32, entities: &Vec<Sighted>, ids: &HashSet<i32>, seen: HuntSeen) -> (r: (
    HuntPhase,
    HuntAction,
))
    ensures
        r == hunt_top_next(target, entities@, ids@, seen),
{
    if seen.food >= target || seen.late {
        (HuntPhase::Over, HuntAction::Done(HuntEnd::Gathered(seen.food)))
    } else {
        match nearest_animal(entities, ids) {
            Some(i) => (HuntPhase::Chasing(80, 0), HuntAction::Chase(i)),
            None => (HuntPhase::Wandering(39), HuntAction::Turn),
        }
    }
}

/// A turn of the chase.
pub open spec fn hunt_turn_next(left: u32, hits: u32, seen: HuntSeen) -> (HuntPhase, HuntAction) {
    if left == 0 || !seen.alive || hits > 25 {
        (HuntPhase::Collected, HuntAction::Collect)
    } else if seen.far {
        (HuntPhase::Closed((left - 1) as u32, hits), HuntAction::Close)
    } else {
        (HuntPhase::Chasing((left - 1) as u32, (hits + 1) as u32), HuntAction::Attack)
    }
}

/// A turn of the chase.
fn hunt_turn(left: u32, hits: u32, seen: HuntSeen) -> (r: (HuntPhase, HuntAction))
    ensures
        r == hunt_turn_next(left, hits, seen),
{
    if left == 0 || !seen.alive || hits > 25 {
        (HuntPhase::Collected, HuntAction::Collect)
    } else if seen.far {
        (HuntPhase::Closed((left - 1) as u32, hits), HuntAction::Close)
    } else {
        (HuntPhase::Chasing((left - 1) as u32, (hits + 1) as u32), HuntAction::Attack)
    }
}

/// What `gather_food` does next.
pub open spec fn gather_food_next(
    phase: HuntPhase,
    target: i32,
    entities: Seq<Sighted>,
    ids: Set<i32>,
    seen: HuntSeen,
) -> (HuntPhase, HuntAction) {
    match phase {
        HuntPhase::Arming(k) => {
            if k >= 4 || (k > 0 && seen.armed) {
                hunt_top_next(target, entities, ids, seen)
            } else {
                (HuntPhase::Arming((k + 1) as usize), HuntAction::TakeSword(SWORDS[k as int]))
            }
        },
        HuntPhase::Top => hunt_top_next(target, entities, ids, seen),
        HuntPhase::Wandering(left) => {
            if seen.lost {
                (HuntPhase::Over, HuntAction::Done(HuntEnd::Disconnected))
            } else if left == 0 {
                hunt_top_next(target, entities, ids, seen)
            } else {
                (HuntPhase::Wandering((left - 1) as u32), HuntAction::Run)
            }
        },
        HuntPhase::Chasing(left, hits) => hunt_turn_next(left, hits, seen),
        HuntPhase::Closed(left, hits) => {
            if seen.lost {
                (HuntPhase::Over, HuntAction::Done(HuntEnd::Disconnected))
            } else {
                hunt_turn_next(left, hits, seen)
            }
        },
        HuntPhase::Collected => hunt_top_next(target, entities, ids, seen),
        HuntPhase::Over => (phase, HuntAction::Done(HuntEnd::Gathered(seen.food))),
    }
}

/// Gathers `target` meat with the best sword at hand: chases the nearest animal and
/// strikes it until it dies or the bot gives up, collects the drops, and wanders where
/// there is no animal in sight.
pub fn gather_food(
    phase: HuntPhase,
    target: i32,
    entities: &Vec<Sighted>,
    ids: &HashSet<i32>,
    seen: HuntSeen,
) -> (r: (HuntPhase, HuntAction))
    ensures
        r == gather_food_next(phase, target, entities@, ids@, seen),
{
    match phase {
        HuntPhase::Arming(k) => {
            if k >= 4 || (k > 0 && seen.armed) {
                hunt_top(target, entities, ids, seen)
            } else {
                (HuntPhase::Arming((k + 1) as usize), HuntAction::TakeSword(SWORDS[k]))
            }
        },
        HuntPhase::Top => hunt_top(target, entities, ids, seen),
        HuntPhase::Wandering(left) => {
            if seen.lost {
                (HuntPhase::Over, HuntAction::Done(HuntEnd::Disconnected))
            } else if left == 0 {
                hunt_top(target, entities, ids, seen)
            } else {
                (HuntPhase::Wandering((left - 1) as u32), HuntAction::Run)
            }
        },
        HuntPhase::Chasing(left, hits) => hunt_turn(left, hits, seen),
        HuntPhase::Closed(left, hits) => {
            if seen.lost {
                (HuntPhase::Over, HuntAction::Done(HuntEnd::Disconnected))
            } else {
                hunt_turn(left, hits, seen)
            }
        },
        HuntPhase::Collected => hunt_top(target, entities, ids, seen),
        HuntPhase::Over => (phase, HuntAction::Done(HuntEnd::Gathered(seen.food))),
    }
}

pub open spec fn hunt_wf(phase: HuntPhase) -> bool {
    match phase {
        HuntPhase::Chasing(left, hits) => left + hits <= 80 && hits <= 26,
        HuntPhase::Closed(left, hits) => left + hits <= 80 && hits <= 25,
        HuntPhase::Wandering(left) => left < 40,
        _ => true,
    }
}

/// A chase takes at most 80 turns and 26 strikes, and no strike is made at an animal
/// that is dead or out of reach.
pub proof fn law_chases_end(
    phase: HuntPhase,
    target: i32,
    entities: Seq<Sighted>,
    ids: Set<i32>,
    seen: HuntSeen,
)
    requires
        hunt_wf(phase),
    ensures
        ({
            let (next, action) = gather_food_next(phase, target, entities, ids, seen);
            &&& hunt_wf(next)
            &&& action == HuntAction::Attack ==> seen.alive && !seen.far
            &&& phase matches HuntPhase::Chasing(left, _) ==> (action == HuntAction::Collect || match next {
                HuntPhase::Chasing(l, _) => l < left,
                HuntPhase::Closed(l, _) => l < left,
                _ => false,
            })
        }),
{
}

/// Only prey is chased, the nearest of it, and only while meat is wanting; the bot
/// wanders only where there is none in sight.
pub proof fn law_only_prey_is_chased(
    phase: HuntPhase,
    target: i32,
    entities: Seq<Sighted>,
    ids: Set<i32>,
    seen: HuntSeen,
)
    requires
        entities.len() <= usize::MAX,
    ensures
        ({
            let action = gather_food_next(phase, target, entities, ids, seen).1;
            &&& action matches HuntAction::Chase(i) ==> is_nearest_prey(entities, ids, i) && seen.food < target
                && !seen.late
            &&& action == HuntAction::Turn ==> seen.food < target && !seen.late && forall|j: int|
                0 <= j < entities.len() ==> !is_prey(#[trigger] entities[j], ids)
        }),
{
    if exists|j: int| 0 <= j < entities.len() && is_prey(#[trigger] entities[j], ids) {
        let j = choose|j: int| 0 <= j < entities.len() && is_prey(#[trigger] entities[j], ids);
        lemma_some_prey_is_nearest(entities, ids, j);
    }
}

/// The swords are tried from the best on, each once, until one is in hand.
pub proof fn law_the_best_sword_is_taken(
    phase: HuntPhase,
    target: i32,
    entities: Seq<Sighted>,
    ids: Set<i32>,
    seen: HuntSeen,
    tier: Tier,
)
    requires
        gather_food_next(phase, target, entities, ids, seen).1 == HuntAction::TakeSword(tier),
    ensures
        phase matches HuntPhase::Arming(k) && k < 4 && tier == SWORDS[k as int] && (k > 0 ==> !seen.armed)
            && gather_food_next(phase, target, entities, ids, seen).0 == HuntPhase::Arming((k + 1) as usize),
{
}

/// What the step reports: a success exactly if the target was reached.
pub fn report_food(end: HuntEnd, target: i32) -> (r: StepResult)
    ensures
        r.success == (end matches HuntEnd::Gathered(n) && n >= target),
        r.message@ == (match end {
            HuntEnd::Disconnected => "disconnected"@,
            HuntEnd::Gathered(n) => ratio_text("gathered "@, n as int, target as int, " food"@),
        }),
{
    match end {
        HuntEnd::Disconnected => failure("disconnected"),
        HuntEnd::Gathered(n) => {
            let message = ratio_message("gathered ", n, target, " food");
            if n >= target {
                success(message.as_str())
            } else {
                failure(message.as_str())
            }
        },
    }
}

// ── what holds of every step ────────────────────────────────────────────────

/// The animals and the meat, by name.
pub proof fn law_prey_and_meat_by_name(n: Seq<char>)
    ensures
        is_animal(n) <==> seq!["cow"@, "pig"@, "sheep"@, "chicken"@, "rabbit"@].contains(n),
        is_meat(n) <==> seq!["beef"@, "cooked_beef"@, "porkchop"@, "cooked_porkchop"@, "mutton"@, "cooked_mutton"@, "chicken"@, "cooked_chicken"@, "rabbit"@, "cooked_rabbit"@].contains(n),
        meat_name()(n) <==> is_meat(n),
{
    let animals = seq!["cow"@, "pig"@, "sheep"@, "chicken"@, "rabbit"@];
    assert(animals[0] == "cow"@);
    assert(animals[1] == "pig"@);
    assert(animals[2] == "sheep"@);
    assert(animals[3] == "chicken"@);
    assert(animals[4] == "rabbit"@);
    let meat = seq!["beef"@, "cooked_beef"@, "porkchop"@, "cooked_porkchop"@, "mutton"@, "cooked_mutton"@, "chicken"@, "cooked_chicken"@, "rabbit"@, "cooked_rabbit"@];
    assert(meat[0] == "beef"@);
    assert(meat[1] == "cooked_beef"@);
    assert(meat[2] == "porkchop"@);
    assert(meat[3] == "cooked_porkchop"@);
    assert(meat[4] == "mutton"@);
    assert(meat[5] == "cooked_mutton"@);
    assert(meat[6] == "chicken"@);
    assert(meat[7] == "cooked_chicken"@);
    assert(meat[8] == "rabbit"@);
    assert(meat[9] == "cooked_rabbit"@);
}

/// Where there is prey in sight, the nearest is found; an entity is prey by its type, and one
/// of no known type is none.
pub proof fn law_prey_in_sight_is_found(entities: Seq<Sighted>, ids: Set<i32>, j: int, t: i32)
    requires
        0 <= j < entities.len() <= usize::MAX,
    ensures
        entities[j].entity_type is None ==> !is_prey(entities[j], ids),
        entities[j].entity_type == Some(t) ==> (is_prey(entities[j], ids) <==> ids.contains(t)),
        is_prey(entities[j], ids) ==> (nearest_prey(entities, ids) matches Some(i) && i < entities.len()
            && is_prey(entities[i as int], ids) && entities[i as int].key <= entities[j].key && (entities[i as int].key
            == entities[j].key ==> i <= j)),
        nearest_prey(entities, ids) matches Some(i) ==> is_prey(entities[i as int], ids),
{
    if is_prey(entities[j], ids) {
        lemma_some_prey_is_nearest(entities, ids, j);
        let i = choose|i: usize| is_nearest_prey(entities, ids, i);
        assert(is_nearest_prey(entities, ids, i));
    }
}

/// The swords are tried from diamond down to wood, under their names.
pub proof fn law_swords_go_from_the_best(j: int, k: int)
    requires
        0 <= j < k < 4,
    ensures
        SWORDS[j].level() == 4 - j,
        SWORDS[k].level() == 4 - k,
        sword_text(Tier::Diamond) == "diamond_sword"@,
        sword_text(Tier::Iron) == "iron_sword"@,
        sword_text(Tier::Stone) == "stone_sword"@,
        sword_text(Tier::Wood) == "wooden_sword"@,
{
}

/// The hunt turns to the next animal with this step.
pub open spec fn turns_to_next_animal(phase: HuntPhase, seen: HuntSeen) -> bool {
    match phase {
        HuntPhase::Arming(k) => k >= 4 || (k > 0 && seen.armed),
        HuntPhase::Top | HuntPhase::Collected => true,
        HuntPhase::Wandering(left) => left == 0 && !seen.lost,
        _ => false,
    }
}

/// The hunt ends only between two animals, with enough meat or the time up, or with the
/// connection lost on the run; it reports the meat that is carried. Otherwise the nearest
/// animal is chased, and without one the bot wanders for forty ticks.
pub proof fn law_the_hunt_goes_on(
    phase: HuntPhase,
    target: i32,
    entities: Seq<Sighted>,
    ids: Set<i32>,
    seen: HuntSeen,
)
    requires
        phase != HuntPhase::Over,
    ensures
        ({
            let (next, action) = gather_food_next(phase, target, entities, ids, seen);
            let turn = turns_to_next_animal(phase, seen);
            let enough = seen.food >= target || seen.late;
            &&& action == HuntAction::Done(HuntEnd::Gathered(seen.food)) <==> turn && enough
            &&& action == HuntAction::Done(HuntEnd::Disconnected) <==> seen.lost && (phase is Wandering || phase
                is Closed)
            &&& action is Done <==> next == HuntPhase::Over
            &&& action is Done ==> action == HuntAction::Done(HuntEnd::Disconnected) || action
                == HuntAction::Done(HuntEnd::Gathered(seen.food))
            &&& turn && !enough ==> match nearest_prey(entities, ids) {
                Some(i) => action == HuntAction::Chase(i) && next == HuntPhase::Chasing(80, 0),
                None => action == HuntAction::Turn && next == HuntPhase::Wandering(39),
            }
            &&& phase matches HuntPhase::Wandering(left) ==> (left > 0 && !seen.lost ==> action
                == HuntAction::Run && next == HuntPhase::Wandering((left - 1) as u32))
            &&& phase matches HuntPhase::Arming(k) ==> (!turn ==> action == HuntAction::TakeSword(
                SWORDS[k as int],
            ) && next == HuntPhase::Arming((k + 1) as usize))
        }),
{
}

/// A chase goes on while the animal lives, for eighty turns and as long as no more than 25
/// strikes were made: the bot closes in on one that is far and strikes one that is near. Then
/// the drops are collected.
pub proof fn law_a_chase_goes_on(
    phase: HuntPhase,
    target: i32,
    entities: Seq<Sighted>,
    ids: Set<i32>,
    seen: HuntSeen,
    left: u32,
    hits: u32,
)
    requires
        phase == HuntPhase::Chasing(left, hits) || (phase == HuntPhase::Closed(left, hits) && !seen.lost),
        hits < u32::MAX,
    ensures
        ({
            let (next, action) = gather_food_next(phase, target, entities, ids, seen);
            let over = !seen.alive || left == 0 || hits > 25;
            &&& action == HuntAction::Collect <==> over
            &&& action == HuntAction::Collect ==> next == HuntPhase::Collected
            &&& action == HuntAction::Close <==> !over && seen.far
            &&& action == HuntAction::Close ==> next == HuntPhase::Closed((left - 1) as u32, hits)
            &&& action == HuntAction::Attack <==> !over && !seen.far
            &&& action == HuntAction::Attack ==> next == HuntPhase::Chasing((left - 1) as u32, (hits + 1) as u32)
        }),
{
}

/// An id is an animal's exactly if some type of an animal's name has it.
pub proof fn law_animal_ids_are_those_of_animals(kinds: Seq<EntityKind>, kind: EntityKind, id: i32)
    ensures
        is_animal(kind.name@) && kind.id == id ==> is_animal_id(kinds.push(kind), id),
        !(is_animal(kind.name@) && kind.id == id) ==> (is_animal_id(kinds.push(kind), id) <==> is_animal_id(
            kinds,
            id,
        )),
        !is_animal_id(Seq::empty(), id),
{
    let all = kinds.push(kind);
    assert(all[kinds.len() as int] == kind);
    if is_animal_id(kinds, id) {
        let i = choose|i: int|
            0 <= i < kinds.len() && is_animal((#[trigger] kinds[i]).name@) && kinds[i].id == id;
        assert(all[i] == kinds[i]);
    }
    if is_animal_id(all, id) {
        let i = choose|i: int| 0 <= i < all.len() && is_animal((#[trigger] all[i]).name@) && all[i].id == id;
        if i < kinds.len() {
            assert(kinds[i] == all[i]);
        }
    }
}

} // verus!
