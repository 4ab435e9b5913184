//! Derives a `GameState` from what the bot carries and sees: counts inventory
//! items, detects equipment tiers, reads the world.

use crate::items::{fits, slot_named, Stack};
use crate::text::{ends_with, is_tail, same};
use crate::types::{Equipment, GameState, Inventory, Tier, WorldState};
use vstd::prelude::*;

verus! {

pub open spec fn pickaxe_of(n: Seq<char>) -> Tier {
    if n == "wooden_pickaxe"@ {
        Tier::Wood
    } else if n == "stone_pickaxe"@ {
        Tier::Stone
    } else if n == "iron_pickaxe"@ || n == "golden_pickaxe"@ {
        Tier::Iron
    } else if n == "diamond_pickaxe"@ || n == "netherite_pickaxe"@ {
        Tier::Diamond
    } else {
        Tier::Nothing
    }
}

pub open spec fn sword_of(n: Seq<char>) -> Tier {
    if n == "wooden_sword"@ {
        Tier::Wood
    } else if n == "stone_sword"@ {
        Tier::Stone
    } else if n == "iron_sword"@ || n == "golden_sword"@ {
        Tier::Iron
    } else if n == "diamond_sword"@ || n == "netherite_sword"@ {
        Tier::Diamond
    } else {
        Tier::Nothing
    }
}

/// Pickaxe tier from an item name.
pub fn pickaxe_tier(name: &str) -> (r: Tier)
    ensures
        r == pickaxe_of(name@),
{
    if same(name, "wooden_pickaxe") {
        Tier::Wood
    } else if same(name, "stone_pickaxe") {
        Tier::Stone
    } else if same(name, "iron_pickaxe") || same(name, "golden_pickaxe") {
        Tier::Iron
    } else if same(name, "diamond_pickaxe") || same(name, "netherite_pickaxe") {
        Tier::Diamond
    } else {
        Tier::Nothing
    }
}

/// Sword tier from an item name.
pub fn sword_tier(name: &str) -> (r: Tier)
    ensures
        r == sword_of(name@),
{
    if same(name, "wooden_sword") {
        Tier::Wood
    } else if same(name, "stone_sword") {
        Tier::Stone
    } else if same(name, "iron_sword") || same(name, "golden_sword") {
        Tier::Iron
    } else if same(name, "diamond_sword") || same(name, "netherite_sword") {
        Tier::Diamond
    } else {
        Tier::Nothing
    }
}

pub open spec fn is_food(n: Seq<char>) -> bool {
    ||| n == "bread"@
    ||| n == "apple"@
    ||| n == "cooked_beef"@
    ||| n == "cooked_porkchop"@
    ||| n == "cooked_chicken"@
    ||| n == "cooked_mutton"@
    ||| n == "cooked_cod"@
    ||| n == "cooked_salmon"@
    ||| n == "baked_potato"@
    ||| n == "carrot"@
    ||| n == "melon_slice"@
    ||| n == "golden_apple"@
    ||| n == "golden_carrot"@
    ||| n == "beef"@
    ||| n == "porkchop"@
    ||| n == "chicken"@
    ||| n == "mutton"@
}

fn is_food_name(n: &str) -> (r: bool)
    ensures
        r == is_food(n@),
{
    same(n, "bread") || same(n, "apple") || same(n, "cooked_beef") || same(n, "cooked_porkchop")
        || same(n, "cooked_chicken") || same(n, "cooked_mutton") || same(n, "cooked_cod") || same(
        n,
        "cooked_salmon",
    ) || same(n, "baked_potato") || same(n, "carrot") || same(n, "melon_slice") || same(
        n,
        "golden_apple",
    ) || same(n, "golden_carrot") || same(n, "beef") || same(n, "porkchop") || same(n, "chicken")
        || same(n, "mutton")
}

/// The counter of the inventory that a stack goes to.
#[derive(Debug, Clone, Copy, PartialEq, Eq, Structural)]
pub enum Counter {
    Logs,
    Planks,
    Sticks,
    Cobblestone,
    Coal,
    IronOre,
    IronIngots,
    Diamonds,
    CraftingTables,
    Buckets,
    WaterBuckets,
    Flint,
    FlintAndSteel,
}

impl Counter {
    /// The names that go to this counter.
    pub open spec fn takes(self, n: Seq<char>) -> bool {
        match self {
            Counter::Logs => is_tail("_log"@, n),
            Counter::Planks => is_tail("_planks"@, n),
            Counter::Sticks => n == "stick"@,
            Counter::Cobblestone => n == "cobblestone"@ || n == "cobbled_deepslate"@,
            Counter::Coal => n == "coal"@ || n == "charcoal"@,
            Counter::IronOre => n == "raw_iron"@ || n == "iron_ore"@ || n == "deepslate_iron_ore"@,
            Counter::IronIngots => n == "iron_ingot"@,
            Counter::Diamonds => n == "diamond"@,
            Counter::CraftingTables => n == "crafting_table"@,
            Counter::Buckets => n == "bucket"@,
            Counter::WaterBuckets => n == "water_bucket"@,
            Counter::Flint => n == "flint"@,
            Counter::FlintAndSteel => n == "flint_and_steel"@,
        }
    }

    /// What the counter shows in an inventory.
    pub open spec fn of(self, inv: Inventory) -> int {
        match self {
            Counter::Logs => inv.logs as int,
            Counter::Planks => inv.planks as int,
            Counter::Sticks => inv.sticks as int,
            Counter::Cobblestone => inv.cobblestone as int,
            Counter::Coal => inv.coal as int,
            Counter::IronOre => inv.iron_ore as int,
            Counter::IronIngots => inv.iron_ingots as int,
            Counter::Diamonds => inv.diamonds as int,
            Counter::CraftingTables => inv.crafting_tables as int,
            Counter::Buckets => inv.buckets as int,
            Counter::WaterBuckets => inv.water_buckets as int,
            Counter::Flint => inv.flint as int,
            Counter::FlintAndSteel => inv.flint_and_steel as int,
        }
    }
}

/// How many items of a slot have a wanted name; empty stacks count for nothing.
pub open spec fn in_stock(slot: Option<Stack>, wanted: spec_fn(Seq<char>) -> bool) -> int {
    match slot {
        Some(stack) if stack.count > 0 && wanted(stack.name@) => stack.count as int,
        _ => 0,
    }
}

/// How many items in the slots have a wanted name.
pub open spec fn stock(slots: Seq<Option<Stack>>, wanted: spec_fn(Seq<char>) -> bool) -> int
    decreases slots.len(),
{
    if slots.len() == 0 {
        0
    } else {
        stock(slots.drop_last(), wanted) + in_stock(slots.last(), wanted)
    }
}

/// The highest level of anything in the slots, 0 where there is nothing.
pub open spec fn best_level(slots: Seq<Option<Stack>>, tier_of: spec_fn(Seq<char>) -> Tier) -> int
    decreases slots.len(),
{
    if slots.len() == 0 {
        0
    } else {
        let rest = best_level(slots.drop_last(), tier_of);
        match slots.last() {
            Some(stack) if stack.count > 0 && tier_of(stack.name@).level() > rest => tier_of(
                stack.name@,
            ).level(),
            _ => rest,
        }
    }
}

pub open spec fn counted_by(c: Counter) -> spec_fn(Seq<char>) -> bool {
    |n: Seq<char>| c.takes(n)
}

pub open spec fn food_name() -> spec_fn(Seq<char>) -> bool {
    |n: Seq<char>| is_food(n)
}

pub open spec fn pickaxe_rule() -> spec_fn(Seq<char>) -> Tier {
    |n: Seq<char>| pickaxe_of(n)
}

pub open spec fn sword_rule() -> spec_fn(Seq<char>) -> Tier {
    |n: Seq<char>| sword_of(n)
}

/// A slot holds something of this name, even an empty stack of it.
pub open spec fn has_slot_of(slots: Seq<Option<Stack>>, name: Seq<char>) -> bool {
    exists|i: int| 0 <= i < slots.len() && slot_named(#[trigger] slots[i], name)
}

/// Every counter stays within an `i32`.
pub open spec fn stock_fits(slots: Seq<Option<Stack>>) -> bool {
    &&& forall|c: Counter| fits(#[trigger] stock(slots, counted_by(c)))
    &&& fits(stock(slots, food_name()))
}

/// The inventory counts what is in the slots.
pub open spec fn counts_slots(inv: Inventory, slots: Seq<Option<Stack>>) -> bool {
    &&& forall|c: Counter| #[trigger] c.of(inv) == stock(slots, counted_by(c))
    &&& inv.food == stock(slots, food_name())
}

proof fn lemma_stock_grows(slots: Seq<Option<Stack>>, wanted: spec_fn(Seq<char>) -> bool, k: int)
    requires
        0 <= k <= slots.len(),
    ensures
        0 <= stock(slots.take(k), wanted) <= stock(slots, wanted),
    decreases slots.len(),
{
    if k == slots.len() {
        assert(slots.take(k) =~= slots);
        if slots.len() > 0 {
            assert(slots.drop_last() =~= slots.take(k - 1));
            lemma_stock_grows(slots.drop_last(), wanted, k - 1);
            assert(slots.drop_last().take(k - 1) =~= slots.drop_last());
        }
    } else {
        lemma_stock_grows(slots.drop_last(), wanted, k);
        assert(slots.drop_last().take(k) =~= slots.take(k));
    }
}

/// Each name goes to at most one counter.
pub proof fn law_counters_do_not_overlap(n: Seq<char>, a: Counter, b: Counter)
    requires
        a.takes(n),
        b.takes(n),
    ensures
        a == b,
{
    reveal_strlit("_log");
    assert("_log"@.len() == 4 && "_log"@[0] == '_' && "_log"@[3] == 'g');
    reveal_strlit("_planks");
    assert("_planks"@.len() == 7 && "_planks"@[0] == '_' && "_planks"@[6] == 's');
    reveal_strlit("stick");
    assert("stick"@.len() == 5 && "stick"@[0] == 's' && "stick"@[4] == 'k');
    reveal_strlit("cobblestone");
    assert("cobblestone"@.len() == 11 && "cobblestone"@[0] == 'c' && "cobblestone"@[10] == 'e');
    reveal_strlit("cobbled_deepslate");
    assert("cobbled_deepslate"@.len() == 17 && "cobbled_deepslate"@[0] == 'c'
        && "cobbled_deepslate"@[16] == 'e');
    reveal_strlit("coal");
    assert("coal"@.len() == 4 && "coal"@[0] == 'c' && "coal"@[3] == 'l');
    reveal_strlit("charcoal");
    assert("charcoal"@.len() == 8 && "charcoal"@[0] == 'c' && "charcoal"@[7] == 'l');
    reveal_strlit("raw_iron");
    assert("raw_iron"@.len() == 8 && "raw_iron"@[0] == 'r' && "raw_iron"@[7] == 'n');
    reveal_strlit("iron_ore");
    assert("iron_ore"@.len() == 8 && "iron_ore"@[0] == 'i' && "iron_ore"@[7] == 'e');
    reveal_strlit("deepslate_iron_ore");
    assert("deepslate_iron_ore"@.len() == 18 && "deepslate_iron_ore"@[0] == 'd'
        && "deepslate_iron_ore"@[17] == 'e');
    reveal_strlit("iron_ingot");
    assert("iron_ingot"@.len() == 10 && "iron_ingot"@[0] == 'i' && "iron_ingot"@[9] == 't');
    reveal_strlit("diamond");
    assert("diamond"@.len() == 7 && "diamond"@[0] == 'd' && "diamond"@[6] == 'd');
    reveal_strlit("crafting_table");
    assert("crafting_table"@.len() == 14 && "crafting_table"@[0] == 'c' && "crafting_table"@[13] == 'e');
    reveal_strlit("bucket");
    assert("bucket"@.len() == 6 && "bucket"@[0] == 'b' && "bucket"@[5] == 't');
    reveal_strlit("water_bucket");
    assert("water_bucket"@.len() == 12 && "water_bucket"@[0] == 'w' && "water_bucket"@[11] == 't');
    reveal_strlit("flint");
    assert("flint"@.len() == 5 && "flint"@[0] == 'f' && "flint"@[4] == 't');
    reveal_strlit("flint_and_steel");
    assert("flint_and_steel"@.len() == 15 && "flint_and_steel"@[0] == 'f' && "flint_and_steel"@[14] == 'l');
    if is_tail("_log"@, n) {
        assert(n.last() == n.subrange(n.len() - 4, n.len() as int)[3]);
    }
    if is_tail("_planks"@, n) {
        assert(n.last() == n.subrange(n.len() - 7, n.len() as int)[6]);
    }
}

/// The counter that a name goes to.
fn counter_of(n: &str) -> (r: Option<Counter>)
    ensures
        r matches Some(c) ==> c.takes(n@),
        r is None ==> forall|c: Counter| !(#[trigger] c.takes(n@)),
{
    if ends_with(n, "_log") {
        Some(Counter::Logs)
    } else if ends_with(n, "_planks") {
        Some(Counter::Planks)
    } else if same(n, "stick") {
        Some(Counter::Sticks)
    } else if same(n, "cobblestone") || same(n, "cobbled_deepslate") {
        Some(Counter::Cobblestone)
    } else if same(n, "coal") || same(n, "charcoal") {
        Some(Counter::Coal)
    } else if same(n, "raw_iron") || same(n, "iron_ore") || same(n, "deepslate_iron_ore") {
        Some(Counter::IronOre)
    } else if same(n, "iron_ingot") {
        Some(Counter::IronIngots)
    } else if same(n, "diamond") {
        Some(Counter::Diamonds)
    } else if same(n, "crafting_table") {
        Some(Counter::CraftingTables)
    } else if same(n, "bucket") {
        Some(Counter::Buckets)
    } else if same(n, "water_bucket") {
        Some(Counter::WaterBuckets)
    } else if same(n, "flint") {
        Some(Counter::Flint)
    } else if same(n, "flint_and_steel") {
        Some(Counter::FlintAndSteel)
    } else {
        None
    }
}

pub(crate) proof fn lemma_stock_is_never_negative(
    slots: Seq<Option<Stack>>,
    wanted: spec_fn(Seq<char>) -> bool,
)
    ensures
        stock(slots, wanted) >= 0,
{
    lemma_stock_grows(slots, wanted, 0);
}

/// How many items in the slots go to a counter.
pub fn stock_of(slots: &Vec<Option<Stack>>, c: Counter) -> (r: i32)
    requires
        fits(stock(slots@, counted_by(c))),
    ensures
        r == stock(slots@, counted_by(c)),
{
    let mut sum: i32 = 0;
    let mut i: usize = 0;
    while i < slots.len()
        invariant
            i <= slots@.len(),
            fits(stock(slots@, counted_by(c))),
            sum == stock(slots@.take(i as int), counted_by(c)),
        decreases slots@.len() - i,
    {
        proof {
            assert(slots@.take(i + 1).drop_last() =~= slots@.take(i as int));
            assert(slots@.take(i + 1).last() == slots@[i as int]);
            lemma_stock_grows(slots@, counted_by(c), i + 1);
        }
        match &slots[i] {
            Some(stack) => {
                let n = stack.name.as_str();
                let counter = counter_of(n);
                proof {
                    match counter {
                        Some(k) => {
                            if c.takes(n@) {
                                law_counters_do_not_overlap(n@, c, k);
                            }
                        },
                        None => {},
                    }
                }
                if stack.count > 0 && counter == Some(c) {
                    sum = sum + stack.count;
                }
            },
            None => {},
        }
        i += 1;
    }
    assert(slots@.take(slots@.len() as int) =~= slots@);
    sum
}

/// Adds `count` to one counter and leaves the others.
fn add_to(inv: &mut Inventory, c: Counter, count: i32)
    requires
        fits(c.of(*old(inv)) + count),
    ensures
        c.of(*final(inv)) == c.of(*old(inv)) + count,
        forall|other: Counter| other != c ==> #[trigger] other.of(*final(inv)) == other.of(*old(inv)),
        final(inv).food == old(inv).food,
{
    match c {
        Counter::Logs => inv.logs = inv.logs + count,
        Counter::Planks => inv.planks = inv.planks + count,
        Counter::Sticks => inv.sticks = inv.sticks + count,
        Counter::Cobblestone => inv.cobblestone = inv.cobblestone + count,
        Counter::Coal => inv.coal = inv.coal + count,
        Counter::IronOre => inv.iron_ore = inv.iron_ore + count,
        Counter::IronIngots => inv.iron_ingots = inv.iron_ingots + count,
        Counter::Diamonds => inv.diamonds = inv.diamonds + count,
        Counter::CraftingTables => inv.crafting_tables = inv.crafting_tables + count,
        Counter::Buckets => inv.buckets = inv.buckets + count,
        Counter::WaterBuckets => inv.water_buckets = inv.water_buckets + count,
        Counter::Flint => inv.flint = inv.flint + count,
        Counter::FlintAndSteel => inv.flint_and_steel = inv.flint_and_steel + count,
    }
}

/// The state of the game, from the inventory slots, the dimension, whether a lit
/// portal is near and whether the bot has any health left.
pub fn sync_from_bot(
    slots: &Vec<Option<Stack>>,
    dimension: &str,
    portal_near: bool,
    alive: bool,
) -> (r: GameState)
    requires
        stock_fits(slots@),
    ensures
        counts_slots(r.inventory, slots@),
        r.equipment.pickaxe matches Some(t) && t.level() == best_level(slots@, pickaxe_rule()),
        r.equipment.sword matches Some(t) && t.level() == best_level(slots@, sword_rule()),
        r.equipment.has_crafting_table == (r.inventory.crafting_tables > 0),
        r.equipment.has_furnace == has_slot_of(slots@, "furnace"@),
        r.world.dimension@ == dimension@,
        !r.world.dragon_dead,
        r.world.portal_built == portal_near,
        r.alive == alive,
{
    let mut inv = Inventory::default();
    let mut pickaxe = Tier::Nothing;
    let mut sword = Tier::Nothing;
    let mut furnace: bool = false;
    proof {
        assert(slots@.take(0) =~= Seq::empty());
    }
    let mut i: usize = 0;
    while i < slots.len()
        invariant
            i <= slots@.len(),
            stock_fits(slots@),
            counts_slots(inv, slots@.take(i as int)),
            pickaxe.level() == best_level(slots@.take(i as int), pickaxe_rule()),
            sword.level() == best_level(slots@.take(i as int), sword_rule()),
            furnace == exists|j: int|
                0 <= j < i && slot_named(#[trigger] slots@[j], "furnace"@),
        decreases slots@.len() - i,
    {
        let ghost before = inv;
        let ghost mut counted = inv;
        proof {
            let seen = slots@.take(i as int);
            let next = slots@.take(i + 1);
            assert(next.drop_last() =~= seen);
            assert(next.last() == slots@[i as int]);
            assert forall|c: Counter| fits(#[trigger] stock(next, counted_by(c))) by {
                lemma_stock_grows(slots@, counted_by(c), i + 1);
                assert(fits(stock(slots@, counted_by(c))));
            }
            lemma_stock_grows(slots@, food_name(), i + 1);
        }
        match &slots[i] {
            Some(stack) => {
                let n = stack.name.as_str();
                if same(n, "furnace") {
                    furnace = true;
                }
                if stack.count > 0 {
                    let counter = counter_of(n);
                    match counter {
                        Some(c) => {
                            proof {
                                assert(fits(stock(slots@.take(i + 1), counted_by(c))));
                                assert(c.of(inv) == stock(slots@.take(i as int), counted_by(c)));
                            }
                            add_to(&mut inv, c, stack.count);
                        },
                        None => {},
                    }
                    proof {
                        assert forall|c: Counter| #[trigger]
                            c.of(inv) == stock(slots@.take(i + 1), counted_by(c)) by {
                            assert(c.of(before) == stock(slots@.take(i as int), counted_by(c)));
                            match counter {
                                Some(k) => {
                                    if c.takes(n@) {
                                        law_counters_do_not_overlap(n@, c, k);
                                    }
                                },
                                None => {},
                            }
                        }
                    }
                    proof {
                        counted = inv;
                    }
                    if is_food_name(n) {
                        inv.food = inv.food + stack.count;
                    }
                    let pt = pickaxe_tier(n);
                    if pt.rank() > pickaxe.rank() {
                        pickaxe = pt;
                    }
                    let st = sword_tier(n);
                    if st.rank() > sword.rank() {
                        sword = st;
                    }
                }
            },
            None => {},
        }
        proof {
            assert forall|c: Counter| #[trigger]
                c.of(inv) == stock(slots@.take(i + 1), counted_by(c)) by {
                assert(c.of(before) == stock(slots@.take(i as int), counted_by(c)));
                assert(c.of(counted) == stock(slots@.take(i + 1), counted_by(c)));
                assert(c.of(inv) == c.of(counted));
            }
        }
        i += 1;
    }
    assert(slots@.take(slots@.len() as int) =~= slots@);
    GameState {
        inventory: inv,
        equipment: Equipment {
            pickaxe: Some(pickaxe),
            sword: Some(sword),
            has_crafting_table: inv.crafting_tables > 0,
            has_furnace: furnace,
        },
        world: WorldState {
            dimension: dimension.to_owned(),
            dragon_dead: false,
            portal_built: portal_near,
        },
        alive,
    }
}

pub fn is_dragon_dead(state: &GameState) -> (r: bool)
    ensures
        r == state.world.dragon_dead,
{
    state.world.dragon_dead
}

// ── what holds of every count ───────────────────────────────────────────────

/// Tools by name: a pickaxe or a sword has the tier of what it is made of, gold that of iron
/// and netherite that of diamond; nothing else has one.
pub proof fn law_tools_by_name(n: Seq<char>)
    ensures
        pickaxe_of("wooden_pickaxe"@) == Tier::Wood,
        pickaxe_of("stone_pickaxe"@) == Tier::Stone,
        pickaxe_of("iron_pickaxe"@) == Tier::Iron,
        pickaxe_of("golden_pickaxe"@) == Tier::Iron,
        pickaxe_of("diamond_pickaxe"@) == Tier::Diamond,
        pickaxe_of("netherite_pickaxe"@) == Tier::Diamond,
        sword_of("wooden_sword"@) == Tier::Wood,
        sword_of("stone_sword"@) == Tier::Stone,
        sword_of("iron_sword"@) == Tier::Iron,
        sword_of("golden_sword"@) == Tier::Iron,
        sword_of("diamond_sword"@) == Tier::Diamond,
        sword_of("netherite_sword"@) == Tier::Diamond,
        pickaxe_of(n) != Tier::Nothing ==> seq!["wooden_pickaxe"@, "stone_pickaxe"@, "iron_pickaxe"@, "golden_pickaxe"@, "diamond_pickaxe"@, "netherite_pickaxe"@].contains(n),
        sword_of(n) != Tier::Nothing ==> seq!["wooden_sword"@, "stone_sword"@, "iron_sword"@, "golden_sword"@, "diamond_sword"@, "netherite_sword"@].contains(n),
{
    reveal_strlit("wooden_pickaxe");
    reveal_strlit("stone_pickaxe");
    reveal_strlit("iron_pickaxe");
    reveal_strlit("golden_pickaxe");
    reveal_strlit("diamond_pickaxe");
    reveal_strlit("netherite_pickaxe");
    assert("wooden_pickaxe"@[0] == 'w' && "stone_pickaxe"@[0] == 's' && "iron_pickaxe"@[0] == 'i' && "golden_pickaxe"@[0] == 'g' && "diamond_pickaxe"@[0] == 'd' && "netherite_pickaxe"@[0] == 'n');
    reveal_strlit("wooden_sword");
    reveal_strlit("stone_sword");
    reveal_strlit("iron_sword");
    reveal_strlit("golden_sword");
    reveal_strlit("diamond_sword");
    reveal_strlit("netherite_sword");
    assert("wooden_sword"@[0] == 'w' && "stone_sword"@[0] == 's' && "iron_sword"@[0] == 'i' && "golden_sword"@[0] == 'g' && "diamond_sword"@[0] == 'd' && "netherite_sword"@[0] == 'n');
    let pickaxes = seq!["wooden_pickaxe"@, "stone_pickaxe"@, "iron_pickaxe"@, "golden_pickaxe"@, "diamond_pickaxe"@, "netherite_pickaxe"@];
    assert(pickaxes[0] == "wooden_pickaxe"@);
    assert(pickaxes[1] == "stone_pickaxe"@);
    assert(pickaxes[2] == "iron_pickaxe"@);
    assert(pickaxes[3] == "golden_pickaxe"@);
    assert(pickaxes[4] == "diamond_pickaxe"@);
    assert(pickaxes[5] == "netherite_pickaxe"@);
    let swords = seq!["wooden_sword"@, "stone_sword"@, "iron_sword"@, "golden_sword"@, "diamond_sword"@, "netherite_sword"@];
    assert(swords[0] == "wooden_sword"@);
    assert(swords[1] == "stone_sword"@);
    assert(swords[2] == "iron_sword"@);
    assert(swords[3] == "golden_sword"@);
    assert(swords[4] == "diamond_sword"@);
    assert(swords[5] == "netherite_sword"@);
}

/// What is food, by name.
pub proof fn law_food_by_name(n: Seq<char>)
    ensures
        is_food(n) <==> seq!["bread"@, "apple"@, "cooked_beef"@, "cooked_porkchop"@, "cooked_chicken"@, "cooked_mutton"@, "cooked_cod"@, "cooked_salmon"@, "baked_potato"@, "carrot"@, "melon_slice"@, "golden_apple"@, "golden_carrot"@, "beef"@, "porkchop"@, "chicken"@, "mutton"@].contains(n),
        food_name()(n) <==> is_food(n),
{
    let food = seq!["bread"@, "apple"@, "cooked_beef"@, "cooked_porkchop"@, "cooked_chicken"@, "cooked_mutton"@, "cooked_cod"@, "cooked_salmon"@, "baked_potato"@, "carrot"@, "melon_slice"@, "golden_apple"@, "golden_carrot"@, "beef"@, "porkchop"@, "chicken"@, "mutton"@];
    assert(food[0] == "bread"@);
    assert(food[1] == "apple"@);
    assert(food[2] == "cooked_beef"@);
    assert(food[3] == "cooked_porkchop"@);
    assert(food[4] == "cooked_chicken"@);
    assert(food[5] == "cooked_mutton"@);
    assert(food[6] == "cooked_cod"@);
    assert(food[7] == "cooked_salmon"@);
    assert(food[8] == "baked_potato"@);
    assert(food[9] == "carrot"@);
    assert(food[10] == "melon_slice"@);
    assert(food[11] == "golden_apple"@);
    assert(food[12] == "golden_carrot"@);
    assert(food[13] == "beef"@);
    assert(food[14] == "porkchop"@);
    assert(food[15] == "chicken"@);
    assert(food[16] == "mutton"@);
}

/// What is counted where, by name: logs and planks by their ending.
pub proof fn law_counters_by_name(n: Seq<char>, c: Counter)
    ensures
        Counter::Logs.takes(n) <==> is_tail("_log"@, n),
        Counter::Planks.takes(n) <==> is_tail("_planks"@, n),
        Counter::Sticks.takes(n) <==> seq!["stick"@].contains(n),
        Counter::Cobblestone.takes(n) <==> seq!["cobblestone"@, "cobbled_deepslate"@].contains(n),
        Counter::Coal.takes(n) <==> seq!["coal"@, "charcoal"@].contains(n),
        Counter::IronOre.takes(n) <==> seq!["raw_iron"@, "iron_ore"@, "deepslate_iron_ore"@].contains(n),
        Counter::IronIngots.takes(n) <==> seq!["iron_ingot"@].contains(n),
        Counter::Diamonds.takes(n) <==> seq!["diamond"@].contains(n),
        Counter::CraftingTables.takes(n) <==> seq!["crafting_table"@].contains(n),
        Counter::Buckets.takes(n) <==> seq!["bucket"@].contains(n),
        Counter::WaterBuckets.takes(n) <==> seq!["water_bucket"@].contains(n),
        Counter::Flint.takes(n) <==> seq!["flint"@].contains(n),
        Counter::FlintAndSteel.takes(n) <==> seq!["flint_and_steel"@].contains(n),
        counted_by(c)(n) <==> c.takes(n),
{
    let names_0 = seq!["stick"@];
    assert(names_0[0] == "stick"@);
    let names_1 = seq!["cobblestone"@, "cobbled_deepslate"@];
    assert(names_1[0] == "cobblestone"@);
    assert(names_1[1] == "cobbled_deepslate"@);
    let names_2 = seq!["coal"@, "charcoal"@];
    assert(names_2[0] == "coal"@);
    assert(names_2[1] == "charcoal"@);
    let names_3 = seq!["raw_iron"@, "iron_ore"@, "deepslate_iron_ore"@];
    assert(names_3[0] == "raw_iron"@);
    assert(names_3[1] == "iron_ore"@);
    assert(names_3[2] == "deepslate_iron_ore"@);
    let names_4 = seq!["iron_ingot"@];
    assert(names_4[0] == "iron_ingot"@);
    let names_5 = seq!["diamond"@];
    assert(names_5[0] == "diamond"@);
    let names_6 = seq!["crafting_table"@];
    assert(names_6[0] == "crafting_table"@);
    let names_7 = seq!["bucket"@];
    assert(names_7[0] == "bucket"@);
    let names_8 = seq!["water_bucket"@];
    assert(names_8[0] == "water_bucket"@);
    let names_9 = seq!["flint"@];
    assert(names_9[0] == "flint"@);
    let names_10 = seq!["flint_and_steel"@];
    assert(names_10[0] == "flint_and_steel"@);
}

/// Each counter shows its own field of the inventory.
pub proof fn law_counters_show_their_fields(inv: Inventory)
    ensures
        Counter::Logs.of(inv) == inv.logs,
        Counter::Planks.of(inv) == inv.planks,
        Counter::Sticks.of(inv) == inv.sticks,
        Counter::Cobblestone.of(inv) == inv.cobblestone,
        Counter::Coal.of(inv) == inv.coal,
        Counter::IronOre.of(inv) == inv.iron_ore,
        Counter::IronIngots.of(inv) == inv.iron_ingots,
        Counter::Diamonds.of(inv) == inv.diamonds,
        Counter::CraftingTables.of(inv) == inv.crafting_tables,
        Counter::Buckets.of(inv) == inv.buckets,
        Counter::WaterBuckets.of(inv) == inv.water_buckets,
        Counter::Flint.of(inv) == inv.flint,
        Counter::FlintAndSteel.of(inv) == inv.flint_and_steel,
{
}

/// The stock is counted stack by stack: a stack with a wanted name adds its count, an empty
/// one or one of another name adds nothing.
pub proof fn law_stock_adds_up(slots: Seq<Option<Stack>>, stack: Stack, wanted: spec_fn(Seq<char>) -> bool)
    ensures
        stock(Seq::empty(), wanted) == 0,
        stock(slots.push(None), wanted) == stock(slots, wanted),
        wanted(stack.name@) && stack.count > 0 ==> stock(slots.push(Some(stack)), wanted) == stock(slots, wanted)
            + stack.count,
        !wanted(stack.name@) || stack.count <= 0 ==> stock(slots.push(Some(stack)), wanted) == stock(
            slots,
            wanted,
        ),
{
    assert(slots.push(None).drop_last() =~= slots);
    assert(slots.push(Some(stack)).drop_last() =~= slots);
}

/// The best tier is that of something carried, and nothing carried is better.
pub proof fn law_the_best_tier_is_carried(slots: Seq<Option<Stack>>, tier_of: spec_fn(Seq<char>) -> Tier)
    ensures
        forall|i: int|
            0 <= i < slots.len() ==> ((#[trigger] slots[i]) matches Some(stack) ==> stack.count > 0 ==> tier_of(
                stack.name@,
            ).level() <= best_level(slots, tier_of)),
        best_level(slots, tier_of) > 0 ==> exists|i: int|
            0 <= i < slots.len() && ((#[trigger] slots[i]) matches Some(stack) && stack.count > 0 && tier_of(
                stack.name@,
            ).level() == best_level(slots, tier_of)),
        best_level(slots, tier_of) >= 0,
    decreases slots.len(),
{
    if slots.len() > 0 {
        let rest = slots.drop_last();
        law_the_best_tier_is_carried(rest, tier_of);
        let best = best_level(slots, tier_of);
        assert forall|i: int| 0 <= i < slots.len() implies ((#[trigger] slots[i]) matches Some(stack)
            ==> stack.count > 0 ==> tier_of(stack.name@).level() <= best) by {
            if i < rest.len() {
                assert(rest[i] == slots[i]);
            }
        }
        if best > 0 {
            if best == best_level(rest, tier_of) {
                let i = choose|i: int|
                    0 <= i < rest.len() && ((#[trigger] rest[i]) matches Some(stack) && stack.count > 0
                        && tier_of(stack.name@).level() == best_level(rest, tier_of));
                assert(slots[i] == rest[i]);
            } else {
                assert(slots[slots.len() - 1] == slots.last());
            }
        }
    }
}

/// The tiers that count are those of pickaxes and of swords, and a furnace counts whatever the
/// size of its stack.
pub proof fn law_rules_go_by_name(slots: Seq<Option<Stack>>, n: Seq<char>, i: int)
    ensures
        pickaxe_rule()(n) == pickaxe_of(n),
        sword_rule()(n) == sword_of(n),
        0 <= i < slots.len() && (slots[i] matches Some(stack) && stack.name@ == n) ==> has_slot_of(slots, n),
        has_slot_of(slots, n) ==> exists|k: int|
            0 <= k < slots.len() && ((#[trigger] slots[k]) matches Some(stack) && stack.name@ == n),
{
    if 0 <= i < slots.len() && slot_named(slots[i], n) {
        assert(slot_named(slots[i], n));
    }
}

} // verus!
