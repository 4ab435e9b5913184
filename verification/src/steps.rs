//! Speedrun step machine: ordered steps, each gated by `can_execute` and satisfied
//! by `is_complete`; `execute_step` dispatches by id.

use crate::text::same;
use crate::types::{failure, GameState, StepResult, Tier};
use vstd::prelude::*;

verus! {

/// The steps in the order in which they lead to the goal.
#[derive(Debug, Clone, Copy, PartialEq, Eq, Structural)]
pub enum StepId {
    GatherWood,
    CraftPlanks,
    CraftCraftingTable,
    CraftSticks,
    CraftWoodenPickaxe,
    MineStone,
    CraftStonePickaxe,
    CraftStoneSword,
    CraftFurnace,
    MineCoal,
    MineIron,
    SmeltIron,
    CraftIronPickaxe,
    CraftBucket,
    GetWaterBuckets,
    GatherFood,
    GetFlintAndSteel,
}

/// How many steps there are.
pub const STEP_COUNT: usize = 17;

/// The steps in their order.
pub const STEPS: [StepId; 17] = [
    StepId::GatherWood,
    StepId::CraftPlanks,
    StepId::CraftCraftingTable,
    StepId::CraftSticks,
    StepId::CraftWoodenPickaxe,
    StepId::MineStone,
    StepId::CraftStonePickaxe,
    StepId::CraftStoneSword,
    StepId::CraftFurnace,
    StepId::MineCoal,
    StepId::MineIron,
    StepId::SmeltIron,
    StepId::CraftIronPickaxe,
    StepId::CraftBucket,
    StepId::GetWaterBuckets,
    StepId::GatherFood,
    StepId::GetFlintAndSteel,
];

/// A speedrun step, as it is shown and dispatched.
#[derive(Debug, Clone, Copy, PartialEq, Eq)]
pub struct Step {
    pub which: StepId,
    pub id: &'static str,
    pub name: &'static str,
    pub priority: i32,
}

impl StepId {
    /// The place of the step in the order, from 1.
    pub open spec fn place(self) -> int {
        match self {
            StepId::GatherWood => 1,
            StepId::CraftPlanks => 2,
            StepId::CraftCraftingTable => 3,
            StepId::CraftSticks => 4,
            StepId::CraftWoodenPickaxe => 5,
            StepId::MineStone => 6,
            StepId::CraftStonePickaxe => 7,
            StepId::CraftStoneSword => 8,
            StepId::CraftFurnace => 9,
            StepId::MineCoal => 10,
            StepId::MineIron => 11,
            StepId::SmeltIron => 12,
            StepId::CraftIronPickaxe => 13,
            StepId::CraftBucket => 14,
            StepId::GetWaterBuckets => 15,
            StepId::GatherFood => 16,
            StepId::GetFlintAndSteel => 17,
        }
    }

    pub open spec fn text(self) -> Seq<char> {
        match self {
            StepId::GatherWood => "gather_wood"@,
            StepId::CraftPlanks => "craft_planks"@,
            StepId::CraftCraftingTable => "craft_crafting_table"@,
            StepId::CraftSticks => "craft_sticks"@,
            StepId::CraftWoodenPickaxe => "craft_wooden_pickaxe"@,
            StepId::MineStone => "mine_stone"@,
            StepId::CraftStonePickaxe => "craft_stone_pickaxe"@,
            StepId::CraftStoneSword => "craft_stone_sword"@,
            StepId::CraftFurnace => "craft_furnace"@,
            StepId::MineCoal => "mine_coal"@,
            StepId::MineIron => "mine_iron"@,
            StepId::SmeltIron => "smelt_iron"@,
            StepId::CraftIronPickaxe => "craft_iron_pickaxe"@,
            StepId::CraftBucket => "craft_bucket"@,
            StepId::GetWaterBuckets => "get_water_buckets"@,
            StepId::GatherFood => "gather_food"@,
            StepId::GetFlintAndSteel => "get_flint_and_steel"@,
        }
    }

    pub open spec fn title(self) -> Seq<char> {
        match self {
            StepId::GatherWood => "Gather Wood"@,
            StepId::CraftPlanks => "Craft Planks"@,
            StepId::CraftCraftingTable => "Craft Crafting Table"@,
            StepId::CraftSticks => "Craft Sticks"@,
            StepId::CraftWoodenPickaxe => "Craft Wooden Pickaxe"@,
            StepId::MineStone => "Mine Cobblestone"@,
            StepId::CraftStonePickaxe => "Craft Stone Pickaxe"@,
            StepId::CraftStoneSword => "Craft Stone Sword"@,
            StepId::CraftFurnace => "Craft Furnace"@,
            StepId::MineCoal => "Mine Coal"@,
            StepId::MineIron => "Mine Iron Ore"@,
            StepId::SmeltIron => "Smelt Iron"@,
            StepId::CraftIronPickaxe => "Craft Iron Pickaxe"@,
            StepId::CraftBucket => "Craft Buckets"@,
            StepId::GetWaterBuckets => "Fill Water Buckets"@,
            StepId::GatherFood => "Gather Food"@,
            StepId::GetFlintAndSteel => "Get Flint and Steel"@,
        }
    }

    /// The state has what the step needs to be run.
    pub open spec fn runnable(self, s: GameState) -> bool {
        match self {
            StepId::GatherWood => s.world.dimension@ == "overworld"@ && s.alive,
            StepId::CraftPlanks => s.inventory.logs >= 2,
            StepId::CraftCraftingTable => s.inventory.planks >= 4,
            StepId::CraftSticks => s.inventory.planks >= 2,
            StepId::CraftWoodenPickaxe => s.inventory.planks >= 3 && s.inventory.sticks >= 2,
            StepId::MineStone => s.equipment.pickaxe_or_none().level() >= 1,
            StepId::CraftStonePickaxe => s.inventory.cobblestone >= 3 && s.inventory.sticks >= 2,
            StepId::CraftStoneSword => s.equipment.pickaxe_or_none().level() >= 2 && s.inventory.cobblestone >= 2
                && s.inventory.sticks >= 1,
            StepId::CraftFurnace => s.equipment.pickaxe_or_none().level() >= 2 && s.inventory.cobblestone >= 8,
            StepId::MineCoal => s.equipment.pickaxe_or_none().level() >= 2,
            StepId::MineIron => s.equipment.pickaxe_or_none().level() >= 2,
            StepId::SmeltIron => s.equipment.has_furnace && s.inventory.coal >= 1 && s.inventory.iron_ore >= 1,
            StepId::CraftIronPickaxe => s.inventory.iron_ingots >= 3 && s.inventory.sticks >= 2,
            StepId::CraftBucket => s.equipment.pickaxe_or_none().level() >= 3 && s.inventory.iron_ingots >= 3,
            StepId::GetWaterBuckets => s.equipment.pickaxe_or_none().level() >= 3 && s.inventory.buckets >= 1,
            StepId::GatherFood => s.equipment.pickaxe_or_none().level() >= 3 && s.equipment.sword_level() >= 1,
            StepId::GetFlintAndSteel => s.equipment.pickaxe_or_none().level() >= 3 && s.inventory.iron_ingots >= 1,
        }
    }

    /// The state shows what the step is for.
    pub open spec fn complete(self, s: GameState) -> bool {
        match self {
            StepId::GatherWood => s.inventory.logs >= 5 || s.inventory.planks >= 12,
            StepId::CraftPlanks => s.inventory.planks >= 8,
            StepId::CraftCraftingTable => s.equipment.has_crafting_table,
            StepId::CraftSticks => s.inventory.sticks >= 4,
            StepId::CraftWoodenPickaxe => s.equipment.pickaxe_or_none().level() >= 1,
            StepId::MineStone => s.inventory.cobblestone >= 16,
            StepId::CraftStonePickaxe => s.equipment.pickaxe_or_none().level() >= 2,
            StepId::CraftStoneSword => s.equipment.sword_level() >= 1,
            StepId::CraftFurnace => s.equipment.has_furnace,
            StepId::MineCoal => s.inventory.coal >= 10,
            StepId::MineIron => s.inventory.iron_ore + s.inventory.iron_ingots >= 11,
            StepId::SmeltIron => s.inventory.iron_ingots >= 11,
            StepId::CraftIronPickaxe => s.equipment.pickaxe_or_none().level() >= 3,
            StepId::CraftBucket => s.inventory.buckets + s.inventory.water_buckets >= 2,
            StepId::GetWaterBuckets => s.inventory.water_buckets >= 2,
            StepId::GatherFood => s.inventory.food >= 5,
            StepId::GetFlintAndSteel => s.inventory.flint_and_steel >= 1,
        }
    }

    /// The step has work to do and can do it.
    pub open spec fn pending(self, s: GameState) -> bool {
        self.runnable(s) && !self.complete(s)
    }

    pub fn can_execute(self, s: &GameState) -> (r: bool)
        ensures
            r == self.runnable(*s),
    {
        match self {
            StepId::GatherWood => same(s.world.dimension.as_str(), "overworld") && s.alive,
            StepId::CraftPlanks => s.inventory.logs >= 2,
            StepId::CraftCraftingTable => s.inventory.planks >= 4,
            StepId::CraftSticks => s.inventory.planks >= 2,
            StepId::CraftWoodenPickaxe => s.inventory.planks >= 3 && s.inventory.sticks >= 2,
            StepId::MineStone => s.equipment.pickaxe_tier().rank() >= 1,
            StepId::CraftStonePickaxe => s.inventory.cobblestone >= 3 && s.inventory.sticks >= 2,
            StepId::CraftStoneSword => s.equipment.pickaxe_tier().rank() >= 2 && s.inventory.cobblestone >= 2
                && s.inventory.sticks >= 1,
            StepId::CraftFurnace => s.equipment.pickaxe_tier().rank() >= 2 && s.inventory.cobblestone >= 8,
            StepId::MineCoal => s.equipment.pickaxe_tier().rank() >= 2,
            StepId::MineIron => s.equipment.pickaxe_tier().rank() >= 2,
            StepId::SmeltIron => s.equipment.has_furnace && s.inventory.coal >= 1 && s.inventory.iron_ore >= 1,
            StepId::CraftIronPickaxe => s.inventory.iron_ingots >= 3 && s.inventory.sticks >= 2,
            StepId::CraftBucket => s.equipment.pickaxe_tier().rank() >= 3 && s.inventory.iron_ingots >= 3,
            StepId::GetWaterBuckets => s.equipment.pickaxe_tier().rank() >= 3 && s.inventory.buckets >= 1,
            StepId::GatherFood => s.equipment.pickaxe_tier().rank() >= 3 && s.equipment.sword_rank() >= 1,
            StepId::GetFlintAndSteel => s.equipment.pickaxe_tier().rank() >= 3 && s.inventory.iron_ingots >= 1,
        }
    }

    pub fn is_complete(self, s: &GameState) -> (r: bool)
        ensures
            r == self.complete(*s),
    {
        match self {
            StepId::GatherWood => s.inventory.logs >= 5 || s.inventory.planks >= 12,
            StepId::CraftPlanks => s.inventory.planks >= 8,
            StepId::CraftCraftingTable => s.equipment.has_crafting_table,
            StepId::CraftSticks => s.inventory.sticks >= 4,
            StepId::CraftWoodenPickaxe => s.equipment.pickaxe_tier().rank() >= 1,
            StepId::MineStone => s.inventory.cobblestone >= 16,
            StepId::CraftStonePickaxe => s.equipment.pickaxe_tier().rank() >= 2,
            StepId::CraftStoneSword => s.equipment.sword_rank() >= 1,
            StepId::CraftFurnace => s.equipment.has_furnace,
            StepId::MineCoal => s.inventory.coal >= 10,
            StepId::MineIron => s.inventory.iron_ore as i64 + s.inventory.iron_ingots as i64 >= 11,
            StepId::SmeltIron => s.inventory.iron_ingots >= 11,
            StepId::CraftIronPickaxe => s.equipment.pickaxe_tier().rank() >= 3,
            StepId::CraftBucket => s.inventory.buckets as i64 + s.inventory.water_buckets as i64 >= 2,
            StepId::GetWaterBuckets => s.inventory.water_buckets >= 2,
            StepId::GatherFood => s.inventory.food >= 5,
            StepId::GetFlintAndSteel => s.inventory.flint_and_steel >= 1,
        }
    }

    /// The step with its id, name and priority.
    pub fn step(self) -> (r: Step)
        ensures
            r.which == self,
            r.id@ == self.text(),
            r.name@ == self.title(),
            r.priority == self.place(),
    {
        match self {
            StepId::GatherWood => Step { which: self, id: "gather_wood", name: "Gather Wood", priority: 1 },
            StepId::CraftPlanks => Step {
                which: self,
                id: "craft_planks",
                name: "Craft Planks",
                priority: 2,
            },
            StepId::CraftCraftingTable => Step {
                which: self,
                id: "craft_crafting_table",
                name: "Craft Crafting Table",
                priority: 3,
            },
            StepId::CraftSticks => Step {
                which: self,
                id: "craft_sticks",
                name: "Craft Sticks",
                priority: 4,
            },
            StepId::CraftWoodenPickaxe => Step {
                which: self,
                id: "craft_wooden_pickaxe",
                name: "Craft Wooden Pickaxe",
                priority: 5,
            },
            StepId::MineStone => Step {
                which: self,
                id: "mine_stone",
                name: "Mine Cobblestone",
                priority: 6,
            },
            StepId::CraftStonePickaxe => Step {
                which: self,
                id: "craft_stone_pickaxe",
                name: "Craft Stone Pickaxe",
                priority: 7,
            },
            StepId::CraftStoneSword => Step {
                which: self,
                id: "craft_stone_sword",
                name: "Craft Stone Sword",
                priority: 8,
            },
            StepId::CraftFurnace => Step {
                which: self,
                id: "craft_furnace",
                name: "Craft Furnace",
                priority: 9,
            },
            StepId::MineCoal => Step { which: self, id: "mine_coal", name: "Mine Coal", priority: 10 },
            StepId::MineIron => Step { which: self, id: "mine_iron", name: "Mine Iron Ore", priority: 11 },
            StepId::SmeltIron => Step { which: self, id: "smelt_iron", name: "Smelt Iron", priority: 12 },
            StepId::CraftIronPickaxe => Step {
                which: self,
                id: "craft_iron_pickaxe",
                name: "Craft Iron Pickaxe",
                priority: 13,
            },
            StepId::CraftBucket => Step {
                which: self,
                id: "craft_bucket",
                name: "Craft Buckets",
                priority: 14,
            },
            StepId::GetWaterBuckets => Step {
                which: self,
                id: "get_water_buckets",
                name: "Fill Water Buckets",
                priority: 15,
            },
            StepId::GatherFood => Step { which: self, id: "gather_food", name: "Gather Food", priority: 16 },
            StepId::GetFlintAndSteel => Step {
                which: self,
                id: "get_flint_and_steel",
                name: "Get Flint and Steel",
                priority: 17,
            },
        }
    }

    /// The step at a place in the order, from 1.
    pub fn at_place(place: usize) -> (r: StepId)
        requires
            1 <= place <= STEP_COUNT,
        ensures
            r.place() == place,
    {
        STEPS[place - 1]
    }
}

/// Each step has a place of its own, and every place from the first to the last
/// is taken.
pub proof fn law_places_are_distinct(a: StepId, b: StepId)
    requires
        a.place() == b.place(),
    ensures
        a == b,
        1 <= a.place() <= STEP_COUNT,
{
}

/// The pickaxe to make again for a bot that holds none: the best that its
/// materials allow.
pub open spec fn recovery(s: GameState) -> Option<StepId> {
    if s.equipment.pickaxe_or_none().level() != 0 || s.inventory.sticks < 2 {
        None
    } else if s.inventory.iron_ingots >= 3 {
        Some(StepId::CraftIronPickaxe)
    } else if s.inventory.cobblestone >= 3 {
        Some(StepId::CraftStonePickaxe)
    } else if s.inventory.planks >= 3 {
        Some(StepId::CraftWoodenPickaxe)
    } else {
        None
    }
}

/// `step` is the last in the order that has work to do and can do it.
pub open spec fn is_furthest(step: StepId, s: GameState) -> bool {
    &&& step.pending(s)
    &&& forall|other: StepId| #[trigger] other.pending(s) ==> other.place() <= step.place()
}

/// The step that runs now, where there is one.
pub open spec fn is_next(which: StepId, s: GameState) -> bool {
    match recovery(s) {
        Some(step) => which == step,
        None => is_furthest(which, s),
    }
}

/// There is one step to run at most.
pub proof fn law_next_step_is_one(s: GameState, a: StepId, b: StepId)
    requires
        is_next(a, s),
        is_next(b, s),
    ensures
        a == b,
{
    if recovery(s) is None {
        assert(a.pending(s) && b.pending(s));
        law_places_are_distinct(a, b);
    }
}

/// The step that runs now.
pub open spec fn next_step(s: GameState) -> Option<StepId> {
    if exists|which: StepId| is_next(which, s) {
        Some(choose|which: StepId| is_next(which, s))
    } else {
        None
    }
}

/// The step to run now. A bot without a pickaxe that has the materials for one
/// makes it again before anything else. Otherwise it is the furthest step that
/// can run and is not complete: picking the last rather than the first keeps the
/// bot driving toward the goal, instead of running an earlier step again that
/// looks incomplete only because a later one consumed its output.
pub fn get_next_step(state: &GameState) -> (r: Option<Step>)
    ensures
        r matches Some(step) ==> step.id@ == step.which.text() && step.name@ == step.which.title()
            && step.priority == step.which.place(),
        r matches Some(step) ==> is_next(step.which, *state) && next_step(*state) == Some(step.which),
        r is None ==> next_step(*state) is None && forall|which: StepId| !is_next(which, *state),
{
    let found = pick_next(state);
    match found {
        Some(which) => {
            proof {
                let chosen = choose|w: StepId| is_next(w, *state);
                law_next_step_is_one(*state, which, chosen);
            }
            Some(which.step())
        },
        None => {
            proof {
                assert forall|which: StepId| !is_next(which, *state) by {
                    assert(!which.pending(*state));
                }
            }
            None
        },
    }
}

/// The step to run now.
fn pick_next(state: &GameState) -> (r: Option<StepId>)
    ensures
        r matches Some(which) ==> is_next(which, *state),
        r is None ==> recovery(*state) is None && forall|step: StepId|
            !(#[trigger] step.pending(*state)),
{
    if state.equipment.pickaxe_tier().rank() == 0 {
        let sticks: i32 = state.inventory.sticks;
        if state.inventory.iron_ingots >= 3 && sticks >= 2 {
            return Some(StepId::CraftIronPickaxe);
        } else if state.inventory.cobblestone >= 3 && sticks >= 2 {
            return Some(StepId::CraftStonePickaxe);
        } else if state.inventory.planks >= 3 && sticks >= 2 {
            return Some(StepId::CraftWoodenPickaxe);
        }
    }
    let mut place: usize = STEP_COUNT;
    while place > 0
        invariant
            place <= STEP_COUNT,
            recovery(*state) is None,
            forall|step: StepId| #[trigger] step.pending(*state) ==> step.place() <= place,
        decreases place,
    {
        let which = StepId::at_place(place);
        if which.can_execute(state) && !which.is_complete(state) {
            assert(which.pending(*state));
            return Some(which);
        }
        proof {
            assert forall|step: StepId| #[trigger] step.pending(*state) implies step.place() <= place
                - 1 by {
                if step.place() == place {
                    law_places_are_distinct(step, which);
                }
            }
        }
        place -= 1;
    }
    proof {
        assert forall|step: StepId| !(#[trigger] step.pending(*state)) by {
            law_places_are_distinct(step, step);
        }
    }
    None
}

/// How many of the first `n` steps are complete.
pub open spec fn completed(s: GameState, n: nat) -> nat
    decreases n,
{
    if n == 0 {
        0
    } else {
        completed(s, (n - 1) as nat) + (if step_at(n as int).complete(s) {
            1nat
        } else {
            0nat
        })
    }
}

/// The step at a place in the order.
pub open spec fn step_at(place: int) -> StepId {
    choose|step: StepId| step.place() == place
}

/// How many steps are complete, and how many there are.
pub fn progress(state: &GameState) -> (r: (usize, usize))
    ensures
        r.0 == completed(*state, STEP_COUNT as nat),
        r.0 <= r.1,
        r.1 == STEP_COUNT,
{
    let mut done: usize = 0;
    let mut place: usize = 0;
    while place < STEP_COUNT
        invariant
            place <= STEP_COUNT,
            done <= place,
            done == completed(*state, place as nat),
        decreases STEP_COUNT - place,
    {
        place += 1;
        let which = StepId::at_place(place);
        proof {
            law_places_are_distinct(which, step_at(place as int));
        }
        if which.is_complete(state) {
            done += 1;
        }
    }
    (done, STEP_COUNT)
}

/// What running a step means.
#[derive(Debug, Clone, Copy, PartialEq, Eq, Structural)]
pub enum Task {
    GatherWood { target: i32 },
    CraftPlanks,
    CraftCraftingTable,
    CraftSticks,
    CraftWoodenPickaxe,
    MineStone { target: i32 },
    CraftStonePickaxe,
    CraftStoneSword,
    CraftFurnace,
    MineCoal { target: i32 },
    MineIron { target: i32 },
    SmeltIron { target: i32 },
    CraftIronPickaxe,
    CraftBuckets { count: i32 },
    FillWaterBuckets { target: i32 },
    GatherFood { target: i32 },
    GetFlintAndSteel,
}

/// The task of a step. A step that gathers something gathers as much of it as
/// completes the step.
pub open spec fn task_of(step: StepId) -> Task {
    match step {
        StepId::GatherWood => Task::GatherWood { target: 5 },
        StepId::CraftPlanks => Task::CraftPlanks,
        StepId::CraftCraftingTable => Task::CraftCraftingTable,
        StepId::CraftSticks => Task::CraftSticks,
        StepId::CraftWoodenPickaxe => Task::CraftWoodenPickaxe,
        StepId::MineStone => Task::MineStone { target: 16 },
        StepId::CraftStonePickaxe => Task::CraftStonePickaxe,
        StepId::CraftStoneSword => Task::CraftStoneSword,
        StepId::CraftFurnace => Task::CraftFurnace,
        StepId::MineCoal => Task::MineCoal { target: 10 },
        StepId::MineIron => Task::MineIron { target: 11 },
        StepId::SmeltIron => Task::SmeltIron { target: 11 },
        StepId::CraftIronPickaxe => Task::CraftIronPickaxe,
        StepId::CraftBucket => Task::CraftBuckets { count: 2 },
        StepId::GetWaterBuckets => Task::FillWaterBuckets { target: 2 },
        StepId::GatherFood => Task::GatherFood { target: 5 },
        StepId::GetFlintAndSteel => Task::GetFlintAndSteel,
    }
}

/// The task that an id stands for; an id that is no step's has none.
pub fn execute_step(id: &str) -> (r: Option<Task>)
    ensures
        r matches Some(task) ==> exists|step: StepId| #[trigger]
            step.text() == id@ && task == task_of(step),
        r is None ==> forall|step: StepId| #[trigger] step.text() != id@,
{
    let mut place: usize = 0;
    while place < STEP_COUNT
        invariant
            place <= STEP_COUNT,
            forall|step: StepId| step.place() <= place ==> #[trigger] step.text() != id@,
        decreases STEP_COUNT - place,
    {
        place += 1;
        let which = StepId::at_place(place);
        let step = which.step();
        if same(id, step.id) {
            assert(which.text() == id@);
            return Some(which.task());
        }
        proof {
            assert forall|step: StepId| step.place() <= place implies #[trigger] step.text()
                != id@ by {
                if step.place() == place {
                    law_places_are_distinct(step, which);
                }
            }
        }
    }
    proof {
        assert forall|step: StepId| #[trigger] step.text() != id@ by {
            law_places_are_distinct(step, step);
        }
    }
    None
}

/// What is reported of a step that there is no task for.
pub fn report_unknown(id: &str) -> (r: StepResult)
    ensures
        !r.success,
        r.message@ == "no executor for step "@ + id@,
{
    let mut message = "no executor for step ".to_owned();
    message.append(id);
    failure(message.as_str())
}

impl StepId {
    pub fn task(self) -> (r: Task)
        ensures
            r == task_of(self),
    {
        match self {
            StepId::GatherWood => Task::GatherWood { target: 5 },
            StepId::CraftPlanks => Task::CraftPlanks,
            StepId::CraftCraftingTable => Task::CraftCraftingTable,
            StepId::CraftSticks => Task::CraftSticks,
            StepId::CraftWoodenPickaxe => Task::CraftWoodenPickaxe,
            StepId::MineStone => Task::MineStone { target: 16 },
            StepId::CraftStonePickaxe => Task::CraftStonePickaxe,
            StepId::CraftStoneSword => Task::CraftStoneSword,
            StepId::CraftFurnace => Task::CraftFurnace,
            StepId::MineCoal => Task::MineCoal { target: 10 },
            StepId::MineIron => Task::MineIron { target: 11 },
            StepId::SmeltIron => Task::SmeltIron { target: 11 },
            StepId::CraftIronPickaxe => Task::CraftIronPickaxe,
            StepId::CraftBucket => Task::CraftBuckets { count: 2 },
            StepId::GetWaterBuckets => Task::FillWaterBuckets { target: 2 },
            StepId::GatherFood => Task::GatherFood { target: 5 },
            StepId::GetFlintAndSteel => Task::GetFlintAndSteel,
        }
    }
}

/// No two steps share an id, so an id names one task.
pub proof fn law_step_ids_are_distinct(a: StepId, b: StepId)
    requires
        a.text() == b.text(),
    ensures
        a == b,
{
    reveal_strlit("gather_wood");
    assert("gather_wood"@.len() == 11 && "gather_wood"@[0] == 'g' && "gather_wood"@[6] == '_'
        && "gather_wood"@[7] == 'w' && "gather_wood"@[8] == 'o');
    reveal_strlit("craft_planks");
    assert("craft_planks"@.len() == 12 && "craft_planks"@[0] == 'c' && "craft_planks"@[6] == 'p'
        && "craft_planks"@[7] == 'l' && "craft_planks"@[8] == 'a');
    reveal_strlit("craft_crafting_table");
    assert("craft_crafting_table"@.len() == 20 && "craft_crafting_table"@[0] == 'c'
        && "craft_crafting_table"@[6] == 'c' && "craft_crafting_table"@[7] == 'r'
        && "craft_crafting_table"@[8] == 'a');
    reveal_strlit("craft_sticks");
    assert("craft_sticks"@.len() == 12 && "craft_sticks"@[0] == 'c' && "craft_sticks"@[6] == 's'
        && "craft_sticks"@[7] == 't' && "craft_sticks"@[8] == 'i');
    reveal_strlit("craft_wooden_pickaxe");
    assert("craft_wooden_pickaxe"@.len() == 20 && "craft_wooden_pickaxe"@[0] == 'c'
        && "craft_wooden_pickaxe"@[6] == 'w' && "craft_wooden_pickaxe"@[7] == 'o'
        && "craft_wooden_pickaxe"@[8] == 'o');
    reveal_strlit("mine_stone");
    assert("mine_stone"@.len() == 10 && "mine_stone"@[0] == 'm' && "mine_stone"@[6] == 't'
        && "mine_stone"@[7] == 'o' && "mine_stone"@[8] == 'n');
    reveal_strlit("craft_stone_pickaxe");
    assert("craft_stone_pickaxe"@.len() == 19 && "craft_stone_pickaxe"@[0] == 'c'
        && "craft_stone_pickaxe"@[6] == 's' && "craft_stone_pickaxe"@[7] == 't'
        && "craft_stone_pickaxe"@[8] == 'o');
    reveal_strlit("craft_stone_sword");
    assert("craft_stone_sword"@.len() == 17 && "craft_stone_sword"@[0] == 'c'
        && "craft_stone_sword"@[6] == 's' && "craft_stone_sword"@[7] == 't'
        && "craft_stone_sword"@[8] == 'o');
    reveal_strlit("craft_furnace");
    assert("craft_furnace"@.len() == 13 && "craft_furnace"@[0] == 'c' && "craft_furnace"@[6] == 'f'
        && "craft_furnace"@[7] == 'u' && "craft_furnace"@[8] == 'r');
    reveal_strlit("mine_coal");
    assert("mine_coal"@.len() == 9 && "mine_coal"@[0] == 'm' && "mine_coal"@[6] == 'o'
        && "mine_coal"@[7] == 'a' && "mine_coal"@[8] == 'l');
    reveal_strlit("mine_iron");
    assert("mine_iron"@.len() == 9 && "mine_iron"@[0] == 'm' && "mine_iron"@[6] == 'r'
        && "mine_iron"@[7] == 'o' && "mine_iron"@[8] == 'n');
    reveal_strlit("smelt_iron");
    assert("smelt_iron"@.len() == 10 && "smelt_iron"@[0] == 's' && "smelt_iron"@[6] == 'i'
        && "smelt_iron"@[7] == 'r' && "smelt_iron"@[8] == 'o');
    reveal_strlit("craft_iron_pickaxe");
    assert("craft_iron_pickaxe"@.len() == 18 && "craft_iron_pickaxe"@[0] == 'c'
        && "craft_iron_pickaxe"@[6] == 'i' && "craft_iron_pickaxe"@[7] == 'r'
        && "craft_iron_pickaxe"@[8] == 'o');
    reveal_strlit("craft_bucket");
    assert("craft_bucket"@.len() == 12 && "craft_bucket"@[0] == 'c' && "craft_bucket"@[6] == 'b'
        && "craft_bucket"@[7] == 'u' && "craft_bucket"@[8] == 'c');
    reveal_strlit("get_water_buckets");
    assert("get_water_buckets"@.len() == 17 && "get_water_buckets"@[0] == 'g'
        && "get_water_buckets"@[6] == 't' && "get_water_buckets"@[7] == 'e'
        && "get_water_buckets"@[8] == 'r');
    reveal_strlit("gather_food");
    assert("gather_food"@.len() == 11 && "gather_food"@[0] == 'g' && "gather_food"@[6] == '_'
        && "gather_food"@[7] == 'f' && "gather_food"@[8] == 'o');
    reveal_strlit("get_flint_and_steel");
    assert("get_flint_and_steel"@.len() == 19 && "get_flint_and_steel"@[0] == 'g'
        && "get_flint_and_steel"@[6] == 'i' && "get_flint_and_steel"@[7] == 'n'
        && "get_flint_and_steel"@[8] == 't');
}

/// Only wood is gathered by hand: a bot without a pickaxe is never sent to mine,
/// nor to anything that lies behind a pickaxe.
pub proof fn law_no_mining_by_hand(s: GameState, which: StepId)
    requires
        s.equipment.pickaxe_or_none() == Tier::Nothing,
        is_next(which, s),
    ensures
        which != StepId::MineStone,
        which != StepId::MineCoal,
        which != StepId::MineIron,
        which != StepId::CraftStoneSword,
        which != StepId::CraftFurnace,
        which.place() <= StepId::CraftIronPickaxe.place(),
{
}

/// A bot whose pickaxe broke makes the best one that its materials allow, and a
/// step that makes a pickaxe again is one that it has the materials for.
pub proof fn law_pickaxe_comes_first(s: GameState, which: StepId)
    requires
        recovery(s) == Some(which),
    ensures
        is_next(which, s),
        which.pending(s),
        forall|other: StepId|
            (other == StepId::CraftWoodenPickaxe || other == StepId::CraftStonePickaxe || other
                == StepId::CraftIronPickaxe) && #[trigger] other.runnable(s) ==> other.place()
                <= which.place(),
{
}

/// The stone phase waits for the stone pickaxe, and the nether preparations wait
/// for the iron pickaxe.
pub proof fn law_phases_wait_for_their_pickaxe(s: GameState, which: StepId)
    requires
        is_next(which, s),
    ensures
        which.place() == StepId::CraftStoneSword.place() || which.place()
            == StepId::CraftFurnace.place() || which.place() == StepId::MineCoal.place()
            || which.place() == StepId::MineIron.place()
            ==> s.equipment.pickaxe_or_none().level() >= 2,
        which.place() > StepId::CraftIronPickaxe.place()
            ==> s.equipment.pickaxe_or_none().level() >= 3,
{
}

/// The step that runs now can run and is not complete yet.
pub proof fn law_next_step_has_work(s: GameState, which: StepId)
    requires
        is_next(which, s),
    ensures
        which.runnable(s),
        !which.complete(s),
{
}

/// A task that gathers has gathered enough once its step is complete: the target
/// is the amount at which the step counts as complete.
pub proof fn law_targets_complete_their_steps(s: GameState)
    ensures
        task_of(StepId::GatherWood) matches Task::GatherWood { target } && (s.inventory.logs
            >= target ==> StepId::GatherWood.complete(s)),
        task_of(StepId::MineStone) matches Task::MineStone { target } && (s.inventory.cobblestone
            >= target ==> StepId::MineStone.complete(s)),
        task_of(StepId::MineCoal) matches Task::MineCoal { target } && (s.inventory.coal >= target
            ==> StepId::MineCoal.complete(s)),
        task_of(StepId::MineIron) matches Task::MineIron { target } && (s.inventory.iron_ore
            + s.inventory.iron_ingots >= target ==> StepId::MineIron.complete(s)),
        task_of(StepId::SmeltIron) matches Task::SmeltIron { target } && (s.inventory.iron_ingots
            >= target ==> StepId::SmeltIron.complete(s)),
        task_of(StepId::GetWaterBuckets) matches Task::FillWaterBuckets { target } && (
        s.inventory.water_buckets >= target ==> StepId::GetWaterBuckets.complete(s)),
        task_of(StepId::GatherFood) matches Task::GatherFood { target } && (s.inventory.food
            >= target ==> StepId::GatherFood.complete(s)),
{
}

// ── what holds of the order ─────────────────────────────────────────────────

/// What a step needs is what its recipe and its tool ask for.
pub proof fn law_steps_run_with_their_materials(s: GameState)
    ensures
        ({
            let i = s.inventory;
            let rank = match s.equipment.pickaxe {
                Some(t) => t.level(),
                None => 0,
            };
            let armed = s.equipment.sword matches Some(t) && t != Tier::Nothing;
            &&& StepId::GatherWood.runnable(s) <==> s.alive && s.world.dimension@ == "overworld"@
            &&& StepId::CraftPlanks.runnable(s) <==> i.logs >= 2
            &&& StepId::CraftCraftingTable.runnable(s) <==> i.planks >= 4
            &&& StepId::CraftSticks.runnable(s) <==> i.planks >= 2
            &&& StepId::CraftWoodenPickaxe.runnable(s) <==> i.planks >= 3 && i.sticks >= 2
            &&& StepId::MineStone.runnable(s) <==> rank >= 1
            &&& StepId::CraftStonePickaxe.runnable(s) <==> i.cobblestone >= 3 && i.sticks >= 2
            &&& StepId::CraftStoneSword.runnable(s) <==> rank >= 2 && i.cobblestone >= 2 && i.sticks >= 1
            &&& StepId::CraftFurnace.runnable(s) <==> rank >= 2 && i.cobblestone >= 8
            &&& StepId::MineCoal.runnable(s) <==> rank >= 2
            &&& StepId::MineIron.runnable(s) <==> rank >= 2
            &&& StepId::SmeltIron.runnable(s) <==> s.equipment.has_furnace && i.coal >= 1 && i.iron_ore >= 1
            &&& StepId::CraftIronPickaxe.runnable(s) <==> i.iron_ingots >= 3 && i.sticks >= 2
            &&& StepId::CraftBucket.runnable(s) <==> rank >= 3 && i.iron_ingots >= 3
            &&& StepId::GetWaterBuckets.runnable(s) <==> rank >= 3 && i.buckets >= 1
            &&& StepId::GatherFood.runnable(s) <==> rank >= 3 && armed
            &&& StepId::GetFlintAndSteel.runnable(s) <==> rank >= 3 && i.iron_ingots >= 1
        }),
{
}

/// A step is complete exactly from the amount on that its task aims at, or with the tool or
/// block that it makes.
pub proof fn law_steps_are_complete_with_their_output(s: GameState)
    ensures
        ({
            let i = s.inventory;
            let rank = match s.equipment.pickaxe {
                Some(t) => t.level(),
                None => 0,
            };
            let armed = s.equipment.sword matches Some(t) && t != Tier::Nothing;
            &&& StepId::GatherWood.complete(s) <==> i.logs >= 5 || i.planks >= 12
            &&& StepId::CraftPlanks.complete(s) <==> i.planks >= 8
            &&& StepId::CraftCraftingTable.complete(s) <==> s.equipment.has_crafting_table
            &&& StepId::CraftSticks.complete(s) <==> i.sticks >= 4
            &&& StepId::CraftWoodenPickaxe.complete(s) <==> rank >= 1
            &&& StepId::MineStone.complete(s) <==> i.cobblestone >= 16
            &&& StepId::CraftStonePickaxe.complete(s) <==> rank >= 2
            &&& StepId::CraftStoneSword.complete(s) <==> armed
            &&& StepId::CraftFurnace.complete(s) <==> s.equipment.has_furnace
            &&& StepId::MineCoal.complete(s) <==> i.coal >= 10
            &&& StepId::MineIron.complete(s) <==> i.iron_ore + i.iron_ingots >= 11
            &&& StepId::SmeltIron.complete(s) <==> i.iron_ingots >= 11
            &&& StepId::CraftIronPickaxe.complete(s) <==> rank >= 3
            &&& StepId::CraftBucket.complete(s) <==> i.buckets + i.water_buckets >= 2
            &&& StepId::GetWaterBuckets.complete(s) <==> i.water_buckets >= 2
            &&& StepId::GatherFood.complete(s) <==> i.food >= 5
            &&& StepId::GetFlintAndSteel.complete(s) <==> i.flint_and_steel >= 1
        }),
{
}

/// The steps stand in the order in which they build on each other.
pub proof fn law_the_order_of_the_steps(k: int)
    requires
        0 <= k < 17,
    ensures
        STEPS[k].place() == k + 1,
        STEP_COUNT == 17,
        StepId::GatherWood.place() == 1,
        StepId::CraftPlanks.place() == 2,
        StepId::CraftCraftingTable.place() == 3,
        StepId::CraftSticks.place() == 4,
        StepId::CraftWoodenPickaxe.place() == 5,
        StepId::MineStone.place() == 6,
        StepId::CraftStonePickaxe.place() == 7,
        StepId::CraftStoneSword.place() == 8,
        StepId::CraftFurnace.place() == 9,
        StepId::MineCoal.place() == 10,
        StepId::MineIron.place() == 11,
        StepId::SmeltIron.place() == 12,
        StepId::CraftIronPickaxe.place() == 13,
        StepId::CraftBucket.place() == 14,
        StepId::GetWaterBuckets.place() == 15,
        StepId::GatherFood.place() == 16,
        StepId::GetFlintAndSteel.place() == 17,
{
}

/// Steps go by their ids and are shown by their titles.
pub proof fn law_steps_have_their_names()
    ensures
        StepId::GatherWood.text() == "gather_wood"@ && StepId::GatherWood.title() == "Gather Wood"@,
        StepId::CraftPlanks.text() == "craft_planks"@ && StepId::CraftPlanks.title() == "Craft Planks"@,
        StepId::CraftCraftingTable.text() == "craft_crafting_table"@ && StepId::CraftCraftingTable.title()
            == "Craft Crafting Table"@,
        StepId::CraftSticks.text() == "craft_sticks"@ && StepId::CraftSticks.title() == "Craft Sticks"@,
        StepId::CraftWoodenPickaxe.text() == "craft_wooden_pickaxe"@ && StepId::CraftWoodenPickaxe.title()
            == "Craft Wooden Pickaxe"@,
        StepId::MineStone.text() == "mine_stone"@ && StepId::MineStone.title() == "Mine Cobblestone"@,
        StepId::CraftStonePickaxe.text() == "craft_stone_pickaxe"@ && StepId::CraftStonePickaxe.title()
            == "Craft Stone Pickaxe"@,
        StepId::CraftStoneSword.text() == "craft_stone_sword"@ && StepId::CraftStoneSword.title()
            == "Craft Stone Sword"@,
        StepId::CraftFurnace.text() == "craft_furnace"@ && StepId::CraftFurnace.title() == "Craft Furnace"@,
        StepId::MineCoal.text() == "mine_coal"@ && StepId::MineCoal.title() == "Mine Coal"@,
        StepId::MineIron.text() == "mine_iron"@ && StepId::MineIron.title() == "Mine Iron Ore"@,
        StepId::SmeltIron.text() == "smelt_iron"@ && StepId::SmeltIron.title() == "Smelt Iron"@,
        StepId::CraftIronPickaxe.text() == "craft_iron_pickaxe"@ && StepId::CraftIronPickaxe.title()
            == "Craft Iron Pickaxe"@,
        StepId::CraftBucket.text() == "craft_bucket"@ && StepId::CraftBucket.title() == "Craft Buckets"@,
        StepId::GetWaterBuckets.text() == "get_water_buckets"@ && StepId::GetWaterBuckets.title()
            == "Fill Water Buckets"@,
        StepId::GatherFood.text() == "gather_food"@ && StepId::GatherFood.title() == "Gather Food"@,
        StepId::GetFlintAndSteel.text() == "get_flint_and_steel"@ && StepId::GetFlintAndSteel.title()
            == "Get Flint and Steel"@,
{
}

/// A complete step leaves what a later one needs: wood gives planks, planks give the table and
/// the sticks, a pickaxe opens the next kind of stone.
pub proof fn law_steps_build_on_each_other(s: GameState)
    ensures
        s.inventory.logs >= 5 ==> StepId::CraftPlanks.runnable(s),
        StepId::CraftPlanks.complete(s) ==> StepId::CraftCraftingTable.runnable(s)
            && StepId::CraftSticks.runnable(s),
        StepId::CraftPlanks.complete(s) && StepId::CraftSticks.complete(s)
            ==> StepId::CraftWoodenPickaxe.runnable(s),
        StepId::CraftWoodenPickaxe.complete(s) <==> StepId::MineStone.runnable(s),
        StepId::MineStone.complete(s) && StepId::CraftSticks.complete(s) ==> StepId::CraftStonePickaxe.runnable(
            s,
        ),
        StepId::CraftStonePickaxe.complete(s) <==> StepId::MineCoal.runnable(s),
        StepId::CraftStonePickaxe.complete(s) <==> StepId::MineIron.runnable(s),
        StepId::CraftFurnace.complete(s) && StepId::MineCoal.complete(s) && s.inventory.iron_ore >= 1
            ==> StepId::SmeltIron.runnable(s),
        StepId::SmeltIron.complete(s) && StepId::CraftSticks.complete(s) ==> StepId::CraftIronPickaxe.runnable(
            s,
        ),
{
}

/// A pickaxe is made again exactly where none is held and the materials of one are there.
pub proof fn law_lost_pickaxes_are_made_again(s: GameState)
    ensures
        recovery(s) is Some <==> s.equipment.pickaxe_or_none() == Tier::Nothing && (
        StepId::CraftIronPickaxe.runnable(s) || StepId::CraftStonePickaxe.runnable(s)
            || StepId::CraftWoodenPickaxe.runnable(s)),
        recovery(s) matches Some(step) ==> step == StepId::CraftIronPickaxe || step == StepId::CraftStonePickaxe
            || step == StepId::CraftWoodenPickaxe,
        recovery(s) matches Some(step) ==> step.runnable(s),
{
}

/// As long as some step can run and is not complete, a step is run: the pickaxe to be made
/// again, or else the last such step in the order.
pub proof fn law_there_is_a_next_step(s: GameState, which: StepId)
    ensures
        which.runnable(s) && !which.complete(s) ==> next_step(s) is Some,
        next_step(s) matches Some(step) ==> match recovery(s) {
            Some(pickaxe) => step == pickaxe,
            None => step.runnable(s) && !step.complete(s) && (which.runnable(s) && !which.complete(s)
                ==> which.place() <= step.place()),
        },
        next_step(s) is None ==> recovery(s) is None && !(which.runnable(s) && !which.complete(s)),
{
    match recovery(s) {
        Some(step) => {
            assert(is_next(step, s));
        },
        None => {
            if which.pending(s) {
                lemma_furthest(s, which);
                let step = choose|step: StepId| is_furthest(step, s);
                assert(is_next(step, s));
            }
            if next_step(s) is Some {
                let step = next_step(s)->0;
                assert(is_next(step, s));
                assert(which.pending(s) ==> which.place() <= step.place());
            }
        },
    }
}

/// Of the steps with work to do, one is the last.
proof fn lemma_furthest(s: GameState, which: StepId)
    requires
        which.pending(s),
    ensures
        exists|step: StepId| is_furthest(step, s),
    decreases 17 - which.place(),
{
    if exists|other: StepId| #[trigger] other.pending(s) && other.place() > which.place() {
        let other = choose|other: StepId| #[trigger] other.pending(s) && other.place() > which.place();
        lemma_furthest(s, other);
    } else {
        assert(is_furthest(which, s));
    }
}

/// Progress counts every step once: one that is complete adds one.
pub proof fn law_progress_counts_each_step(s: GameState, step: StepId)
    ensures
        completed(s, step.place() as nat) == completed(s, (step.place() - 1) as nat) + (if step.complete(s) {
            1nat
        } else {
            0nat
        }),
        completed(s, 0) == 0,
{
    law_places_are_distinct(step, step_at(step.place()));
}

/// Every step has its own task, with its own amount.
pub proof fn law_steps_have_their_tasks()
    ensures
        task_of(StepId::GatherWood) == (Task::GatherWood { target: 5 }),
        task_of(StepId::CraftPlanks) == Task::CraftPlanks,
        task_of(StepId::CraftCraftingTable) == Task::CraftCraftingTable,
        task_of(StepId::CraftSticks) == Task::CraftSticks,
        task_of(StepId::CraftWoodenPickaxe) == Task::CraftWoodenPickaxe,
        task_of(StepId::MineStone) == (Task::MineStone { target: 16 }),
        task_of(StepId::CraftStonePickaxe) == Task::CraftStonePickaxe,
        task_of(StepId::CraftStoneSword) == Task::CraftStoneSword,
        task_of(StepId::CraftFurnace) == Task::CraftFurnace,
        task_of(StepId::MineCoal) == (Task::MineCoal { target: 10 }),
        task_of(StepId::MineIron) == (Task::MineIron { target: 11 }),
        task_of(StepId::SmeltIron) == (Task::SmeltIron { target: 11 }),
        task_of(StepId::CraftIronPickaxe) == Task::CraftIronPickaxe,
        task_of(StepId::CraftBucket) == (Task::CraftBuckets { count: 2 }),
        task_of(StepId::GetWaterBuckets) == (Task::FillWaterBuckets { target: 2 }),
        task_of(StepId::GatherFood) == (Task::GatherFood { target: 5 }),
        task_of(StepId::GetFlintAndSteel) == Task::GetFlintAndSteel,
{
}

} // verus!
