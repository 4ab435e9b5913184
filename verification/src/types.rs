//! Shared types of the speedrun bot: game state, inventory, equipment, results.

use vstd::prelude::*;

verus! {

#[derive(Debug, Clone, Copy, PartialEq, Eq)]
pub struct Inventory {
    pub logs: i32,
    pub planks: i32,
    pub sticks: i32,
    pub cobblestone: i32,
    pub coal: i32,
    pub iron_ore: i32,
    pub iron_ingots: i32,
    pub diamonds: i32,
    pub food: i32,
    pub crafting_tables: i32,
    pub buckets: i32,
    pub water_buckets: i32,
    pub flint: i32,
    pub flint_and_steel: i32,
}

/// An inventory with nothing in it.
pub open spec fn empty_inventory() -> Inventory {
    Inventory {
        logs: 0,
        planks: 0,
        sticks: 0,
        cobblestone: 0,
        coal: 0,
        iron_ore: 0,
        iron_ingots: 0,
        diamonds: 0,
        food: 0,
        crafting_tables: 0,
        buckets: 0,
        water_buckets: 0,
        flint: 0,
        flint_and_steel: 0,
    }
}

impl Default for Inventory {
    fn default() -> (r: Self)
        ensures
            r == empty_inventory(),
    {
        Inventory {
            logs: 0,
            planks: 0,
            sticks: 0,
            cobblestone: 0,
            coal: 0,
            iron_ore: 0,
            iron_ingots: 0,
            diamonds: 0,
            food: 0,
            crafting_tables: 0,
            buckets: 0,
            water_buckets: 0,
            flint: 0,
            flint_and_steel: 0,
        }
    }
}

#[derive(Debug, Clone, Copy, PartialEq, Eq, Structural)]
pub enum Tier {
    Nothing,
    Wood,
    Stone,
    Iron,
    Diamond,
}

impl Tier {
    pub open spec fn level(self) -> int {
        match self {
            Tier::Nothing => 0,
            Tier::Wood => 1,
            Tier::Stone => 2,
            Tier::Iron => 3,
            Tier::Diamond => 4,
        }
    }

    /// Numeric rank for comparisons (none = 0 ... diamond = 4).
    pub fn rank(self) -> (r: i32)
        ensures
            r == self.level(),
    {
        match self {
            Tier::Nothing => 0,
            Tier::Wood => 1,
            Tier::Stone => 2,
            Tier::Iron => 3,
            Tier::Diamond => 4,
        }
    }
}

/// Two tiers of one rank are one tier.
pub proof fn law_ranks_are_distinct(a: Tier, b: Tier)
    requires
        a.level() == b.level(),
    ensures
        a == b,
{
}

#[derive(Debug, Clone, Copy, PartialEq, Eq)]
pub struct Equipment {
    pub pickaxe: Option<Tier>,
    pub sword: Option<Tier>,
    pub has_crafting_table: bool,
    pub has_furnace: bool,
}

impl Default for Equipment {
    fn default() -> (r: Self)
        ensures
            r.pickaxe is None,
            r.sword is None,
            !r.has_crafting_table,
            !r.has_furnace,
    {
        Equipment { pickaxe: None, sword: None, has_crafting_table: false, has_furnace: false }
    }
}

impl Equipment {
    /// The tier of the pickaxe; none where no pickaxe is known.
    pub open spec fn pickaxe_or_none(self) -> Tier {
        match self.pickaxe {
            Some(t) => t,
            None => Tier::Nothing,
        }
    }

    /// The rank of the sword; 0 where no sword is known.
    pub open spec fn sword_level(self) -> int {
        match self.sword {
            Some(t) => t.level(),
            None => 0,
        }
    }

    pub fn pickaxe_tier(&self) -> (r: Tier)
        ensures
            r == self.pickaxe_or_none(),
    {
        match self.pickaxe {
            Some(t) => t,
            None => Tier::Nothing,
        }
    }

    pub fn sword_rank(&self) -> (r: i32)
        ensures
            r == self.sword_level(),
    {
        match self.sword {
            Some(t) => t.rank(),
            None => 0,
        }
    }
}

#[derive(Debug, Clone, PartialEq, Eq)]
pub struct WorldState {
    pub dimension: String,
    pub dragon_dead: bool,
    pub portal_built: bool,
}

impl Default for WorldState {
    fn default() -> (r: Self)
        ensures
            r.dimension@ == Seq::<char>::empty(),
            !r.dragon_dead,
            !r.portal_built,
    {
        WorldState { dimension: String::new(), dragon_dead: false, portal_built: false }
    }
}

/// What the step machine decides on.
#[derive(Debug, Clone, PartialEq, Eq)]
pub struct GameState {
    pub inventory: Inventory,
    pub equipment: Equipment,
    pub world: WorldState,
    pub alive: bool,
}

impl Default for GameState {
    fn default() -> (r: Self)
        ensures
            r.inventory == empty_inventory(),
            r.equipment.pickaxe is None,
            r.equipment.sword is None,
            !r.equipment.has_crafting_table,
            !r.equipment.has_furnace,
            r.world.dimension@ == Seq::<char>::empty(),
            !r.world.dragon_dead,
            !r.world.portal_built,
            !r.alive,
    {
        GameState {
            inventory: Inventory::default(),
            equipment: Equipment::default(),
            world: WorldState::default(),
            alive: false,
        }
    }
}

/// Result of executing a step.
#[derive(Debug, Clone, PartialEq, Eq)]
pub struct StepResult {
    pub success: bool,
    pub message: String,
}

pub fn success(msg: &str) -> (r: StepResult)
    ensures
        r.success,
        r.message@ == msg@,
{
    StepResult { success: true, message: msg.to_owned() }
}

pub fn failure(msg: &str) -> (r: StepResult)
    ensures
        !r.success,
        r.message@ == msg@,
{
    StepResult { success: false, message: msg.to_owned() }
}

/// The tiers are ranked from nothing over wood, stone and iron to diamond, one apart.
pub proof fn law_ranks_rise(t: Tier, e: Equipment)
    ensures
        0 <= t.level() <= 4,
        t.level() == 0 <==> t == Tier::Nothing,
        t.level() == 1 <==> t == Tier::Wood,
        t.level() == 2 <==> t == Tier::Stone,
        t.level() == 3 <==> t == Tier::Iron,
        t.level() == 4 <==> t == Tier::Diamond,
        e.pickaxe == Some(t) ==> e.pickaxe_or_none() == t,
        e.pickaxe is None ==> e.pickaxe_or_none() == Tier::Nothing,
        e.sword == Some(t) ==> e.sword_level() == t.level(),
        e.sword is None ==> e.sword_level() == 0,
{
}

/// An empty inventory holds nothing of anything.
pub proof fn law_an_empty_inventory_is_empty()
    ensures
        ({
            let i = empty_inventory();
            &&& i.logs == 0 && i.planks == 0 && i.sticks == 0 && i.cobblestone == 0 && i.coal == 0
            &&& i.iron_ore == 0 && i.iron_ingots == 0 && i.diamonds == 0 && i.food == 0
            &&& i.crafting_tables == 0 && i.buckets == 0 && i.water_buckets == 0 && i.flint == 0
            &&& i.flint_and_steel == 0
        }),
{
}

} // verus!
