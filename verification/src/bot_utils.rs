//! Action helpers: getting out of water, keeping the inventory tidy, picking things
//! up, taking an item in hand, generic crafting and crafting tables.

use crate::items::{
    find_from, law_the_first_slot_is_found, lemma_slot_from, named, slot_from, slot_named, tally, tally_fits, Stack,
};
use crate::memory::{
    is_nearest, is_nearest_row, lemma_spot_of_list, marked_rows, nearest_from, no_row_usable, none_usable,
    recorded_row, Poi, PoiKind, PoiStatus, Pos, WorldMemory,
};
use crate::store::StoredPoi;
use crate::tasks::report::{count_message, count_text, word_message};
use crate::text::{contains, is_tail, occurs_in, same};
use crate::types::{failure, success, StepResult};
use crate::world::{
    block_name, block_state, has_room, is_water_at, name_of, state_of, water_at, Blocks, States,
};
use vstd::prelude::*;

verus! {

// ── water ───────────────────────────────────────────────────────────────────

/// Is the bot's head submerged in water (it drowns if it stays)? `head` is the
/// cell of the head.
pub fn head_in_water(blocks: &Blocks, head: Pos) -> (r: bool)
    ensures
        r == water_at(*blocks, head.0 as int, head.1 as int, head.2 as int),
{
    is_water_at(blocks, head.0, head.1, head.2)
}

/// A block that is neither air nor water.
pub open spec fn is_cap_name(n: Seq<char>) -> bool {
    n != "air"@ && !occurs_in("water"@, n) && n != "void_air"@ && n != "cave_air"@
}

/// The block keeps the bot from rising.
pub open spec fn capped_at(blocks: Blocks, p: Pos) -> bool {
    block_name(blocks, p.0 as int, p.1 as int, p.2 as int) matches Some(n) && is_cap_name(n)
}

/// Whether the block directly above the head keeps the bot from rising.
pub fn is_capped(blocks: &Blocks, above: Pos) -> (r: bool)
    ensures
        r == capped_at(*blocks, above),
{
    match name_of(blocks, above.0, above.1, above.2) {
        Some(n) => !same(n, "air") && !contains(n, "water") && !same(n, "void_air") && !same(
            n,
            "cave_air",
        ),
        None => false,
    }
}

/// Where the bot is in the water: the cell of its head and the one directly above.
#[derive(Debug, Clone, Copy, PartialEq, Eq)]
pub struct Swimmer {
    pub head: Pos,
    pub above: Pos,
}

impl Swimmer {
    /// The head is under water.
    pub open spec fn submerged(self, blocks: Blocks) -> bool {
        water_at(blocks, self.head.0 as int, self.head.1 as int, self.head.2 as int)
    }
}

#[derive(Debug, Clone, Copy, PartialEq, Eq)]
pub enum SwimAction {
    /// Break the block above the head.
    DigUp(Pos),
    /// Swim up and forward for a tick.
    Swim,
    /// Stop; the head is out of the water, or not.
    Done(bool),
}

/// What `leave_water` does next.
pub open spec fn leave_water_next(t: u32, ticks: u32, blocks: &Blocks, at: Swimmer, lost: bool) -> (
    u32,
    SwimAction,
) {
    if t >= ticks || !at.submerged(*blocks) || lost {
        (t, SwimAction::Done(!at.submerged(*blocks)))
    } else if capped_at(*blocks, at.above) {
        ((t + 4) as u32, SwimAction::DigUp(at.above))
    } else {
        ((t + 1) as u32, SwimAction::Swim)
    }
}

/// Swims up and out to air before anything else, so that the bot leaves water first
/// instead of mining while submerged. A block that caps the column is broken first:
/// the bot would bonk the ceiling forever. `t` is how many of `ticks` are used; a dig
/// counts for four. `lost` says whether the connection was lost on the last tick.
pub fn leave_water(t: u32, ticks: u32, blocks: &Blocks, at: Swimmer, lost: bool) -> (r: (
    u32,
    SwimAction,
))
    requires
        ticks <= u32::MAX - 4,
    ensures
        r == leave_water_next(t, ticks, blocks, at, lost),
{
    let submerged: bool = head_in_water(blocks, at.head);
    if t >= ticks || !submerged || lost {
        (t, SwimAction::Done(!submerged))
    } else if is_capped(blocks, at.above) {
        (t + 4, SwimAction::DigUp(at.above))
    } else {
        (t + 1, SwimAction::Swim)
    }
}

/// The bot stops once its head is out of the water, and reports exactly that. Time
/// runs out in the end.
pub proof fn law_swimming_ends(t: u32, ticks: u32, blocks: &Blocks, at: Swimmer, lost: bool)
    requires
        ticks <= u32::MAX - 4,
    ensures
        ({
            let (next, action) = leave_water_next(t, ticks, blocks, at, lost);
            &&& !at.submerged(*blocks) ==> action == SwimAction::Done(true)
            &&& action matches SwimAction::Done(out) ==> out == !at.submerged(*blocks)
            &&& !(action is Done) ==> t < next && t < ticks
        }),
{
}

/// A bot under a ceiling breaks through it before it swims: it never swims against a
/// block.
pub proof fn law_no_swimming_against_a_ceiling(
    t: u32,
    ticks: u32,
    blocks: &Blocks,
    at: Swimmer,
    lost: bool,
)
    requires
        capped_at(*blocks, at.above),
    ensures
        leave_water_next(t, ticks, blocks, at, lost).1 != SwimAction::Swim,
{
}

// ── inventory ───────────────────────────────────────────────────────────────

/// Worthless clutter that is picked up while mining and chopping. Not junk:
/// cobblestone (capped), planks, sticks, coal, iron, gravel and flint, tools,
/// buckets, tables.
pub open spec fn is_junk(n: Seq<char>) -> bool {
    ||| n == "dirt"@
    ||| n == "coarse_dirt"@
    ||| n == "rooted_dirt"@
    ||| n == "mud"@
    ||| n == "clay_ball"@
    ||| n == "granite"@
    ||| n == "diorite"@
    ||| n == "andesite"@
    ||| n == "tuff"@
    ||| n == "calcite"@
    ||| n == "deepslate"@
    ||| n == "cobbled_deepslate"@
    ||| n == "leaf_litter"@
    ||| n == "oak_sapling"@
    ||| n == "birch_sapling"@
    ||| n == "spruce_sapling"@
    ||| n == "oak_leaves"@
    ||| n == "birch_leaves"@
    ||| n == "spruce_leaves"@
    ||| n == "azalea_leaves"@
    ||| n == "short_grass"@
    ||| n == "tall_grass"@
    ||| n == "fern"@
    ||| n == "dead_bush"@
    ||| n == "seeds"@
    ||| n == "wheat_seeds"@
    ||| n == "oak_button"@
    ||| n == "birch_button"@
    ||| n == "spruce_button"@
    ||| n == "stone_button"@
    ||| n == "raw_copper"@
    ||| n == "copper_ore"@
}

fn is_junk_name(n: &str) -> (r: bool)
    ensures
        r == is_junk(n@),
{
    same(n, "dirt") || same(n, "coarse_dirt") || same(n, "rooted_dirt") || same(n, "mud")
        || same(n, "clay_ball") || same(n, "granite") || same(n, "diorite") || same(n, "andesite")
        || same(n, "tuff") || same(n, "calcite") || same(n, "deepslate")
        || same(n, "cobbled_deepslate") || same(n, "leaf_litter") || same(n, "oak_sapling")
        || same(n, "birch_sapling") || same(n, "spruce_sapling") || same(n, "oak_leaves")
        || same(n, "birch_leaves") || same(n, "spruce_leaves") || same(n, "azalea_leaves")
        || same(n, "short_grass") || same(n, "tall_grass") || same(n, "fern")
        || same(n, "dead_bush") || same(n, "seeds") || same(n, "wheat_seeds")
        || same(n, "oak_button") || same(n, "birch_button") || same(n, "spruce_button")
        || same(n, "stone_button") || same(n, "raw_copper") || same(n, "copper_ore")
}

/// What the run is made with: planks and sticks, cobblestone, coal, iron, gravel and
/// flint, tools, buckets, tables and furnaces.
pub open spec fn is_needed(n: Seq<char>) -> bool {
    ||| n == "cobblestone"@
    ||| n == "stick"@
    ||| n == "coal"@
    ||| n == "iron_ingot"@
    ||| n == "raw_iron"@
    ||| n == "gravel"@
    ||| n == "flint"@
    ||| n == "flint_and_steel"@
    ||| n == "bucket"@
    ||| n == "water_bucket"@
    ||| n == "lava_bucket"@
    ||| n == "crafting_table"@
    ||| n == "furnace"@
    ||| is_tail("_planks"@, n)
    ||| is_tail("_pickaxe"@, n)
    ||| is_tail("_axe"@, n)
    ||| is_tail("_sword"@, n)
    ||| is_tail("_shovel"@, n)
}

/// Nothing that the run needs is junk.
pub proof fn law_needed_items_are_no_junk(n: Seq<char>)
    requires
        is_needed(n),
    ensures
        !is_junk(n),
{
    reveal_strlit("dirt");
    reveal_strlit("coarse_dirt");
    reveal_strlit("rooted_dirt");
    reveal_strlit("mud");
    reveal_strlit("clay_ball");
    reveal_strlit("granite");
    reveal_strlit("diorite");
    reveal_strlit("andesite");
    reveal_strlit("tuff");
    reveal_strlit("calcite");
    reveal_strlit("deepslate");
    reveal_strlit("cobbled_deepslate");
    reveal_strlit("leaf_litter");
    reveal_strlit("oak_sapling");
    reveal_strlit("birch_sapling");
    reveal_strlit("spruce_sapling");
    reveal_strlit("oak_leaves");
    reveal_strlit("birch_leaves");
    reveal_strlit("spruce_leaves");
    reveal_strlit("azalea_leaves");
    reveal_strlit("short_grass");
    reveal_strlit("tall_grass");
    reveal_strlit("fern");
    reveal_strlit("dead_bush");
    reveal_strlit("seeds");
    reveal_strlit("wheat_seeds");
    reveal_strlit("oak_button");
    reveal_strlit("birch_button");
    reveal_strlit("spruce_button");
    reveal_strlit("stone_button");
    reveal_strlit("raw_copper");
    reveal_strlit("copper_ore");
    reveal_strlit("cobblestone");
    reveal_strlit("stick");
    reveal_strlit("coal");
    reveal_strlit("iron_ingot");
    reveal_strlit("raw_iron");
    reveal_strlit("gravel");
    reveal_strlit("flint");
    reveal_strlit("flint_and_steel");
    reveal_strlit("bucket");
    reveal_strlit("water_bucket");
    reveal_strlit("lava_bucket");
    reveal_strlit("crafting_table");
    reveal_strlit("furnace");
    reveal_strlit("_planks");
    reveal_strlit("_pickaxe");
    reveal_strlit("_axe");
    reveal_strlit("_sword");
    reveal_strlit("_shovel");
    lemma_tail_ends(n, "_planks"@);
    lemma_tail_ends(n, "_pickaxe"@);
    lemma_tail_ends(n, "_axe"@);
    lemma_tail_ends(n, "_sword"@);
    lemma_tail_ends(n, "_shovel"@);
    let ends = (n[n.len() - 2], n[n.len() - 1]);
    assert(is_junk(n) ==> ends.0 != 'k' && ends.0 != 'x' && ends != ('r', 'd') && ends != ('e', 'l'));
}

/// A name ends as its tail does.
proof fn lemma_tail_ends(n: Seq<char>, tail: Seq<char>)
    requires
        tail.len() >= 2,
    ensures
        is_tail(tail, n) ==> n.len() >= tail.len() && n[n.len() - 1] == tail[tail.len() - 1] && n[n.len()
            - 2] == tail[tail.len() - 2],
{
    if is_tail(tail, n) {
        let end = n.subrange(n.len() - tail.len(), n.len() as int);
        assert(end == tail);
        assert(end[tail.len() - 1] == n[n.len() - 1] && end[tail.len() - 2] == n[n.len() - 2]);
    }
}

/// How much cobblestone is kept.
pub const COBBLE_KEPT: i32 = 64;

/// How many sticks are kept.
pub const STICKS_KEPT: i32 = 16;

/// The last of the slots is dropped: junk, or over the limit of what is kept,
/// counted from the first slot on.
pub open spec fn drops_last(slots: Seq<Option<Stack>>) -> bool {
    match slots.last() {
        Some(stack) => {
            if stack.name@ == "cobblestone"@ {
                tally(slots, named("cobblestone"@)) > COBBLE_KEPT
            } else if stack.name@ == "stick"@ {
                tally(slots, named("stick"@)) > STICKS_KEPT
            } else {
                is_junk(stack.name@)
            }
        },
        None => false,
    }
}

/// The slots that are dropped, in order.
pub open spec fn dropped(slots: Seq<Option<Stack>>) -> Seq<int>
    decreases slots.len(),
{
    if slots.len() == 0 {
        Seq::empty()
    } else if drops_last(slots) {
        dropped(slots.drop_last()).push(slots.len() - 1)
    } else {
        dropped(slots.drop_last())
    }
}

/// The slots to drop so that the inventory keeps room for craft results: junk, and
/// cobblestone and sticks beyond what is kept. Whole stacks.
pub fn tidy_inventory(slots: &Vec<Option<Stack>>) -> (r: Vec<usize>)
    requires
        tally_fits(slots@, named("cobblestone"@)),
        tally_fits(slots@, named("stick"@)),
    ensures
        r@.map_values(|i: usize| i as int) == dropped(slots@),
{
    let mut drop: Vec<usize> = Vec::new();
    let mut cobble: i32 = 0;
    let mut sticks: i32 = 0;
    assert(drop@.map_values(|i: usize| i as int) =~= dropped(slots@.take(0)));
    let mut i: usize = 0;
    while i < slots.len()
        invariant
            i <= slots@.len(),
            tally_fits(slots@, named("cobblestone"@)),
            tally_fits(slots@, named("stick"@)),
            cobble == tally(slots@.take(i as int), named("cobblestone"@)),
            sticks == tally(slots@.take(i as int), named("stick"@)),
            drop@.map_values(|i: usize| i as int) == dropped(slots@.take(i as int)),
        decreases slots@.len() - i,
    {
        let ghost next = slots@.take(i + 1);
        let ghost before = drop@;
        proof {
            assert(next.drop_last() =~= slots@.take(i as int));
            assert(next.last() == slots@[i as int]);
            assert(crate::items::fits(tally(next, named("cobblestone"@))));
            assert(crate::items::fits(tally(next, named("stick"@))));
            reveal_strlit("cobblestone");
            reveal_strlit("stick");
            assert("cobblestone"@[0] == 'c' && "stick"@[0] == 's');
        }
        match &slots[i] {
            Some(stack) => {
                let n = stack.name.as_str();
                if same(n, "cobblestone") {
                    cobble = cobble + stack.count;
                    if cobble > 64 {
                        drop.push(i);
                    }
                } else if same(n, "stick") {
                    sticks = sticks + stack.count;
                    if sticks > 16 {
                        drop.push(i);
                    }
                } else if is_junk_name(n) {
                    drop.push(i);
                }
            },
            None => {},
        }
        proof {
            if drops_last(next) {
                assert(drop@ == before.push(i));
                assert(drop@.map_values(|i: usize| i as int) =~= before.map_values(
                    |i: usize| i as int,
                ).push(i as int));
            } else {
                assert(drop@ == before);
            }
        }
        i += 1;
    }
    assert(slots@.take(slots@.len() as int) =~= slots@);
    drop
}

/// How many items of a name stay.
pub open spec fn kept(slots: Seq<Option<Stack>>, name: Seq<char>) -> int
    decreases slots.len(),
{
    if slots.len() == 0 {
        0
    } else {
        kept(slots.drop_last(), name) + (if drops_last(slots) {
            0
        } else {
            crate::items::held(slots.last(), named(name))
        })
    }
}

/// No stack holds fewer than no items.
pub open spec fn counts_are_natural(slots: Seq<Option<Stack>>) -> bool {
    forall|i: int| 0 <= i < slots.len() ==> ((#[trigger] slots[i]) matches Some(stack) ==> stack.count >= 0)
}

/// Tidying keeps at most 64 cobblestone and at most 16 sticks, all of it where
/// there is no more, and everything that is neither cobblestone nor sticks nor junk.
pub proof fn law_tidying_keeps_what_is_needed(slots: Seq<Option<Stack>>, name: Seq<char>)
    requires
        counts_are_natural(slots),
    ensures
        0 <= kept(slots, name) <= tally(slots, named(name)),
        kept(slots, "cobblestone"@) <= 64,
        kept(slots, "stick"@) <= 16,
        name == "cobblestone"@ && tally(slots, named(name)) <= 64 ==> kept(slots, name) == tally(
            slots,
            named(name),
        ),
        name == "stick"@ && tally(slots, named(name)) <= 16 ==> kept(slots, name) == tally(
            slots,
            named(name),
        ),
        name != "cobblestone"@ && name != "stick"@ && !is_junk(name) ==> kept(slots, name) == tally(
            slots,
            named(name),
        ),
        name != "cobblestone"@ && name != "stick"@ && is_junk(name) ==> kept(slots, name) == 0,
    decreases slots.len(),
{
    reveal_strlit("cobblestone");
    reveal_strlit("stick");
    assert("cobblestone"@[0] == 'c' && "stick"@[0] == 's');
    if slots.len() > 0 {
        let rest = slots.drop_last();
        assert(counts_are_natural(rest)) by {
            assert forall|i: int| 0 <= i < rest.len() implies ((#[trigger] rest[i]) matches Some(stack)
                ==> stack.count >= 0) by {
                assert(slots[i] == rest[i]);
            }
        }
        assert(slots[slots.len() - 1] == slots.last());
        law_tidying_keeps_what_is_needed(rest, name);
        law_tidying_keeps_what_is_needed(rest, "cobblestone"@);
        law_tidying_keeps_what_is_needed(rest, "stick"@);
    }
}

/// So many occupied slots make a craft fail for want of room.
pub const CROWDED: usize = 28;

/// How many slots are occupied.
pub open spec fn occupied(slots: Seq<Option<Stack>>) -> int
    decreases slots.len(),
{
    if slots.len() == 0 {
        0
    } else {
        occupied(slots.drop_last()) + (if slots.last() is Some {
            1int
        } else {
            0
        })
    }
}

/// Whether the inventory is crowded.
pub fn is_crowded(slots: &Vec<Option<Stack>>) -> (r: bool)
    ensures
        r == (occupied(slots@) >= 28),
{
    let mut n: usize = 0;
    let mut i: usize = 0;
    while i < slots.len()
        invariant
            i <= slots@.len(),
            n <= i,
            n == occupied(slots@.take(i as int)),
        decreases slots@.len() - i,
    {
        assert(slots@.take(i + 1).drop_last() =~= slots@.take(i as int));
        if slots[i].is_some() {
            n += 1;
        }
        i += 1;
    }
    assert(slots@.take(slots@.len() as int) =~= slots@);
    n >= CROWDED
}

// ── picking things up ───────────────────────────────────────────────────────

/// Whether an entity is taken for a dropped item: where the registry knows the type
/// of items, only an entity of that type.
pub fn is_drop(item_type: Option<i32>, entity_type: Option<i32>) -> (r: bool)
    ensures
        r == (item_type is None || entity_type == item_type),
{
    match item_type {
        None => true,
        Some(t) => match entity_type {
            None => false,
            Some(e) => e == t,
        },
    }
}

#[derive(Debug, Clone, Copy, PartialEq, Eq, Structural)]
pub enum PickUpAction {
    /// Walk for a tick toward the nearest drop, or the dug block where there is
    /// none.
    Walk,
    Stop,
}

/// How many ticks the bot walks to pick things up.
pub const PICK_UP_TICKS: u32 = 40;

/// What `collect_drops` does next.
pub open spec fn collect_drops_next(left: u32, before: i32, total: i32, lost: bool) -> (u32, PickUpAction) {
    if left == 0 || lost || total > before {
        (left, PickUpAction::Stop)
    } else {
        ((left - 1) as u32, PickUpAction::Walk)
    }
}

/// Walks to the nearest dropped item (falling back to the dug block) to pick it up.
/// Stops early once the inventory holds more than `before`. `left` is how many ticks are
/// left.
pub fn collect_drops(left: u32, before: i32, total: i32, lost: bool) -> (r: (u32, PickUpAction))
    ensures
        r == collect_drops_next(left, before, total, lost),
{
    if left == 0 || lost || total > before {
        (left, PickUpAction::Stop)
    } else {
        ((left - 1) as u32, PickUpAction::Walk)
    }
}

// ── logs ────────────────────────────────────────────────────────────────────

pub const LOG_TYPES: [&'static str; 9] = [
    "oak_log",
    "birch_log",
    "spruce_log",
    "jungle_log",
    "acacia_log",
    "dark_oak_log",
    "mangrove_log",
    "cherry_log",
    "pale_oak_log",
];

/// The distances at which logs are looked for, one after the other.
pub const LOG_RINGS: [i32; 4] = [16, 32, 48, 64];

/// A distance beyond every finite one.
pub const FAR: u64 = 0x7fef_ffff_ffff_ffff;

/// A log in sight: the number of its species in `LOG_TYPES`, its place, and its
/// distance as a key.
#[derive(Debug, Clone, Copy, PartialEq, Eq)]
pub struct LogSighted {
    pub species: usize,
    pub pos: Pos,
    pub key: u64,
}

#[derive(Debug, Clone, Copy, PartialEq, Eq)]
pub enum LogAction {
    /// Look for logs up to this far away, species by species.
    Look(i32),
    /// The nearest log, with the number of its species.
    Found(usize, Pos),
    GiveUp,
}

/// Number `i` is the nearest of the logs, and the first of those as near.
pub open spec fn is_closest_log(logs: Seq<LogSighted>, i: int) -> bool {
    &&& 0 <= i < logs.len()
    &&& logs[i].key < FAR
    &&& forall|j: int| 0 <= j < logs.len() ==> logs[i].key <= (#[trigger] logs[j]).key
    &&& forall|j: int| 0 <= j < i ==> logs[i].key < (#[trigger] logs[j]).key
}

/// No log is within a finite distance.
pub open spec fn no_logs(logs: Seq<LogSighted>) -> bool {
    forall|i: int| 0 <= i < logs.len() ==> FAR <= (#[trigger] logs[i]).key
}

/// Finds the nearest log (any species), searching out in rings: looks one ring farther
/// until there is a log, and takes the nearest of that ring. `tried` is how many rings
/// were looked at, `logs` are the logs of the last of them.
pub fn find_closest_log(tried: usize, logs: &Vec<LogSighted>) -> (r: (usize, LogAction))
    requires
        tried <= 4,
    ensures
        tried > 0 && !no_logs(logs@) ==> r.0 == tried && exists|i: int|
            #[trigger] is_closest_log(logs@, i) && r.1 == LogAction::Found(logs@[i].species, logs@[i].pos),
        (tried == 0 || no_logs(logs@)) && tried < 4 ==> r == (
            (tried + 1) as usize,
            LogAction::Look(LOG_RINGS[tried as int]),
        ),
        no_logs(logs@) && tried == 4 ==> r == (tried, LogAction::GiveUp),
{
    if tried > 0 {
        let mut best: Option<usize> = None;
        let mut limit: u64 = FAR;
        let mut i: usize = 0;
        while i < logs.len()
            invariant
                i <= logs@.len(),
                limit <= FAR,
                forall|j: int| 0 <= j < i ==> limit <= (#[trigger] logs@[j]).key,
                best is None ==> limit == FAR,
                best matches Some(b) ==> b < i && logs@[b as int].key == limit && limit < FAR
                    && forall|j: int| 0 <= j < b ==> limit < (#[trigger] logs@[j]).key,
            decreases logs@.len() - i,
        {
            if logs[i].key < limit {
                limit = logs[i].key;
                best = Some(i);
            }
            i += 1;
        }
        match best {
            Some(b) => {
                assert(is_closest_log(logs@, b as int));
                return (tried, LogAction::Found(logs[b].species, logs[b].pos));
            },
            None => {},
        }
    }
    if tried < 4 {
        (tried + 1, LogAction::Look(LOG_RINGS[tried]))
    } else {
        (tried, LogAction::GiveUp)
    }
}

// ── taking an item in hand ──────────────────────────────────────────────────

/// The first slot that holds an item of this name.
pub fn slot_of(slots: &Vec<Option<Stack>>, name: &str) -> (r: Option<usize>)
    ensures
        r == slot_from(slots@, 0, name@),
        r matches Some(i) ==> i < slots@.len() && slot_named(slots@[i as int], name@) && forall|j: int|
            0 <= j < i ==> !slot_named(#[trigger] slots@[j], name@),
        r is None ==> forall|j: int|
            0 <= j < slots@.len() ==> !slot_named(#[trigger] slots@[j], name@),
{
    find_from(slots, 0, name)
}

#[derive(Debug, Clone, Copy, PartialEq, Eq, Structural)]
pub enum SelectEnd {
    /// The item is in hand.
    Held,
    /// The item is not in the inventory at all.
    NotCarried,
    /// The server has not put the item in hand.
    Unconfirmed,
}

#[derive(Debug, Clone, Copy, PartialEq, Eq, Structural)]
pub enum SelectAction {
    /// Hold this place of the hotbar, then wait for the server.
    Hold(usize),
    /// Swap this slot into the hotbar and hold that, then wait for the server.
    SwapIn(usize),
    Done(SelectEnd),
}

/// The item of this name is in hand.
pub open spec fn is_held(held: Option<String>, name: Seq<char>) -> bool {
    held matches Some(h) && h@ == name
}

/// What `select_item` does next.
pub open spec fn select_item_next(
    tries: u32,
    held: Option<String>,
    slots: Seq<Option<Stack>>,
    name: Seq<char>,
) -> (u32, SelectAction) {
    if is_held(held, name) {
        (tries, SelectAction::Done(SelectEnd::Held))
    } else {
        match slot_from(slots, 0, name) {
            Some(i) => {
                if tries >= 5 {
                    (tries, SelectAction::Done(SelectEnd::Unconfirmed))
                } else if 36 <= i < 45 {
                    ((tries + 1) as u32, SelectAction::Hold((i - 36) as usize))
                } else {
                    ((tries + 1) as u32, SelectAction::SwapIn(i))
                }
            },
            None => (tries, SelectAction::Done(SelectEnd::NotCarried)),
        }
    }
}

/// Takes an item in hand, validated against the server: swap, wait for the server's
/// inventory, and confirm that the item is actually held, in up to five tries. `held` is
/// what is in hand. An item counts as not carried only if it is not in the inventory at
/// all.
pub fn select_item(
    tries: u32,
    held: &Option<String>,
    slots: &Vec<Option<Stack>>,
    name: &str,
) -> (r: (u32, SelectAction))
    ensures
        r == select_item_next(tries, *held, slots@, name@),
{
    let holding: bool = match held {
        Some(h) => same(h.as_str(), name),
        None => false,
    };
    if holding {
        return (tries, SelectAction::Done(SelectEnd::Held));
    }
    match slot_of(slots, name) {
        Some(i) => {
            if tries >= 5 {
                (tries, SelectAction::Done(SelectEnd::Unconfirmed))
            } else if 36 <= i && i < 45 {
                (tries + 1, SelectAction::Hold(i - 36))
            } else {
                (tries + 1, SelectAction::SwapIn(i))
            }
        },
        None => (tries, SelectAction::Done(SelectEnd::NotCarried)),
    }
}

/// Success is reported exactly of an item that is in hand, and the lack of it exactly
/// of one that is not carried at all. The server is asked five times at most, the hotbar
/// has nine places, and only a slot that holds the item is swapped into it.
pub proof fn law_selected_means_held(
    tries: u32,
    held: Option<String>,
    slots: Seq<Option<Stack>>,
    name: Seq<char>,
    place: usize,
)
    requires
        slots.len() <= usize::MAX,
    ensures
        ({
            let (next, action) = select_item_next(tries, held, slots, name);
            &&& action == SelectAction::Done(SelectEnd::Held) <==> is_held(held, name)
            &&& action == SelectAction::Done(SelectEnd::NotCarried) <==> !is_held(held, name)
                && forall|j: int| 0 <= j < slots.len() ==> !slot_named(#[trigger] slots[j], name)
            &&& action == SelectAction::Done(SelectEnd::Unconfirmed) ==> tries >= 5
            &&& action == SelectAction::Hold(place) ==> place < 9 && slot_named(slots[36 + place], name)
            &&& action == SelectAction::SwapIn(place) ==> slot_named(slots[place as int], name)
            &&& !(action is Done) ==> tries < 5 && next == tries + 1
        }),
{
    lemma_slot_from(slots, 0, name);
}

// ── crafting ────────────────────────────────────────────────────────────────

#[derive(Debug, Clone, Copy, PartialEq, Eq, Structural)]
pub enum CraftPhase {
    Start,
    /// Has walked to the table.
    AtTable,
    /// Has tidied the inventory.
    Tidied,
    /// Has opened the table.
    Opened,
    /// Has crafted, and closed the table.
    Crafted,
    /// Has waited so many times for the result.
    Waited(u32),
    Over,
}

#[derive(Debug, Clone, Copy, PartialEq, Eq, Structural)]
pub struct Craft {
    /// There is a table to craft at.
    pub table: bool,
    /// How many items had been carried, and how many are to be made.
    pub before: i32,
    pub made: i64,
    /// Attempts that are left.
    pub left: u32,
    pub phase: CraftPhase,
}

#[derive(Debug, Clone, Copy, PartialEq, Eq, Structural)]
pub struct CraftSeen {
    /// The registry knows the item.
    pub known: bool,
    /// There is a recipe.
    pub recipe: bool,
    /// The recipe needs a table.
    pub needs_table: bool,
    pub crowded: bool,
    /// How many of the item are carried.
    pub have: i32,
    /// A window is open.
    pub window: bool,
    /// The last craft went through.
    pub ok: bool,
}

#[derive(Debug, Clone, Copy, PartialEq, Eq, Structural)]
pub enum CraftEnd {
    UnknownItem,
    NoRecipe,
    NeedsTable,
    /// So many are carried now.
    Crafted(i32),
    NeverAppeared,
    /// The craft itself failed.
    Failed,
}

#[derive(Debug, Clone, Copy, PartialEq, Eq, Structural)]
pub enum CraftAction {
    WalkToTable,
    Tidy,
    OpenTable,
    /// Craft, and close the table where there is one.
    Craft,
    /// Wait four ticks.
    Wait,
    Done(CraftEnd),
}

/// How many items a craft makes.
pub open spec fn batch(result: i32, count: i32) -> int {
    (if result >= 1 {
        result as int
    } else {
        1
    }) * (if count >= 1 {
        count as int
    } else {
        1
    })
}

/// Starts to craft `count` batches of a recipe that gives `result` items.
pub fn start_craft(table: bool, result: i32, count: i32) -> (r: Craft)
    ensures
        r.table == table,
        r.made == batch(result, count),
        r.before == 0,
        r.left == 3,
        r.phase == CraftPhase::Start,
{
    let a: i64 = if result >= 1 {
        result as i64
    } else {
        1
    };
    let b: i64 = if count >= 1 {
        count as i64
    } else {
        1
    };
    assert(0 <= a * b <= 0x4000_0000_0000_0000) by (nonlinear_arith)
        requires
            1 <= a <= 0x8000_0000,
            1 <= b <= 0x7fff_ffff,
    ;
    Craft { table, before: 0, made: a * b, left: 3, phase: CraftPhase::Start }
}

/// The item has appeared, or never did.
pub open spec fn craft_end_next(state: Craft, seen: CraftSeen) -> (Craft, CraftAction) {
    if seen.have > state.before {
        (
            Craft { phase: CraftPhase::Over, ..state },
            CraftAction::Done(CraftEnd::Crafted(seen.have)),
        )
    } else {
        (Craft { phase: CraftPhase::Over, ..state }, CraftAction::Done(CraftEnd::NeverAppeared))
    }
}

/// The item has appeared, or never did.
fn craft_end(state: Craft, seen: CraftSeen) -> (r: (Craft, CraftAction))
    ensures
        r == craft_end_next(state, seen),
{
    if seen.have > state.before {
        (
            Craft { phase: CraftPhase::Over, ..state },
            CraftAction::Done(CraftEnd::Crafted(seen.have)),
        )
    } else {
        (Craft { phase: CraftPhase::Over, ..state }, CraftAction::Done(CraftEnd::NeverAppeared))
    }
}

/// Crafts once more where an attempt is left and the items have not appeared.
pub open spec fn craft_try_next(state: Craft, seen: CraftSeen) -> (Craft, CraftAction) {
    if state.left == 0 || seen.have as i64 >= state.before as i64 + state.made {
        craft_end_next(state, seen)
    } else {
        let next = Craft { left: (state.left - 1) as u32, ..state };
        if state.table && !seen.window {
            (Craft { phase: CraftPhase::Opened, ..next }, CraftAction::OpenTable)
        } else {
            (Craft { phase: CraftPhase::Crafted, ..next }, CraftAction::Craft)
        }
    }
}

/// Crafts once more where an attempt is left and the items have not appeared.
fn craft_try(state: Craft, seen: CraftSeen) -> (r: (Craft, CraftAction))
    requires
        0 <= state.made <= 0x4000_0000_0000_0000,
    ensures
        r == craft_try_next(state, seen),
{
    if state.left == 0 || seen.have as i64 >= state.before as i64 + state.made {
        craft_end(state, seen)
    } else {
        let next = Craft { left: (state.left - 1) as u32, ..state };
        if state.table && !seen.window {
            (Craft { phase: CraftPhase::Opened, ..next }, CraftAction::OpenTable)
        } else {
            (Craft { phase: CraftPhase::Crafted, ..next }, CraftAction::Craft)
        }
    }
}

/// Counts what is carried and crafts.
pub open spec fn craft_begin_next(state: Craft, seen: CraftSeen) -> (Craft, CraftAction) {
    craft_try_next(Craft { before: seen.have, ..state }, seen)
}

/// Counts what is carried and crafts.
fn craft_begin(state: Craft, seen: CraftSeen) -> (r: (Craft, CraftAction))
    requires
        0 <= state.made <= 0x4000_0000_0000_0000,
    ensures
        r == craft_begin_next(state, seen),
{
    craft_try(Craft { before: seen.have, ..state }, seen)
}

/// Makes room in a crowded inventory first.
pub open spec fn craft_tidy_next(state: Craft, seen: CraftSeen) -> (Craft, CraftAction) {
    if seen.crowded {
        (Craft { phase: CraftPhase::Tidied, ..state }, CraftAction::Tidy)
    } else {
        craft_begin_next(state, seen)
    }
}

/// Makes room in a crowded inventory first.
fn craft_tidy(state: Craft, seen: CraftSeen) -> (r: (Craft, CraftAction))
    requires
        0 <= state.made <= 0x4000_0000_0000_0000,
    ensures
        r == craft_tidy_next(state, seen),
{
    if seen.crowded {
        (Craft { phase: CraftPhase::Tidied, ..state }, CraftAction::Tidy)
    } else {
        craft_begin(state, seen)
    }
}

/// What `craft_item` does next.
pub open spec fn craft_item_next(state: Craft, seen: CraftSeen) -> (Craft, CraftAction) {
    match state.phase {
        CraftPhase::Start => {
            if !seen.known {
                (
                    Craft { phase: CraftPhase::Over, ..state },
                    CraftAction::Done(CraftEnd::UnknownItem),
                )
            } else if !seen.recipe {
                (Craft { phase: CraftPhase::Over, ..state }, CraftAction::Done(CraftEnd::NoRecipe))
            } else if seen.needs_table && !state.table {
                (
                    Craft { phase: CraftPhase::Over, ..state },
                    CraftAction::Done(CraftEnd::NeedsTable),
                )
            } else if state.table {
                (Craft { phase: CraftPhase::AtTable, ..state }, CraftAction::WalkToTable)
            } else {
                craft_tidy_next(state, seen)
            }
        },
        CraftPhase::AtTable => craft_tidy_next(state, seen),
        CraftPhase::Tidied => craft_begin_next(state, seen),
        CraftPhase::Opened => (Craft { phase: CraftPhase::Crafted, ..state }, CraftAction::Craft),
        CraftPhase::Crafted => {
            if !seen.ok {
                (Craft { phase: CraftPhase::Over, ..state }, CraftAction::Done(CraftEnd::Failed))
            } else if seen.have as i64 >= state.before as i64 + state.made {
                craft_try_next(state, seen)
            } else {
                (Craft { phase: CraftPhase::Waited(1), ..state }, CraftAction::Wait)
            }
        },
        CraftPhase::Waited(n) => {
            if n >= 8 || seen.have as i64 >= state.before as i64 + state.made {
                craft_try_next(state, seen)
            } else {
                (Craft { phase: CraftPhase::Waited((n + 1) as u32), ..state }, CraftAction::Wait)
            }
        },
        CraftPhase::Over => (state, CraftAction::Done(CraftEnd::NeverAppeared)),
    }
}

/// Crafts an item, at a table where one is given. The craft is retried in place, up to
/// three times, and counts as done only when the item really appears in the
/// inventory.
pub fn craft_item(state: Craft, seen: CraftSeen) -> (r: (Craft, CraftAction))
    requires
        0 <= state.made <= 0x4000_0000_0000_0000,
    ensures
        r == craft_item_next(state, seen),
{
    match state.phase {
        CraftPhase::Start => {
            if !seen.known {
                (
                    Craft { phase: CraftPhase::Over, ..state },
                    CraftAction::Done(CraftEnd::UnknownItem),
                )
            } else if !seen.recipe {
                (Craft { phase: CraftPhase::Over, ..state }, CraftAction::Done(CraftEnd::NoRecipe))
            } else if seen.needs_table && !state.table {
                (
                    Craft { phase: CraftPhase::Over, ..state },
                    CraftAction::Done(CraftEnd::NeedsTable),
                )
            } else if state.table {
                (Craft { phase: CraftPhase::AtTable, ..state }, CraftAction::WalkToTable)
            } else {
                craft_tidy(state, seen)
            }
        },
        CraftPhase::AtTable => craft_tidy(state, seen),
        CraftPhase::Tidied => craft_begin(state, seen),
        CraftPhase::Opened => (Craft { phase: CraftPhase::Crafted, ..state }, CraftAction::Craft),
        CraftPhase::Crafted => {
            if !seen.ok {
                (Craft { phase: CraftPhase::Over, ..state }, CraftAction::Done(CraftEnd::Failed))
            } else if seen.have as i64 >= state.before as i64 + state.made {
                craft_try(state, seen)
            } else {
                (Craft { phase: CraftPhase::Waited(1), ..state }, CraftAction::Wait)
            }
        },
        CraftPhase::Waited(n) => {
            if n >= 8 || seen.have as i64 >= state.before as i64 + state.made {
                craft_try(state, seen)
            } else {
                (Craft { phase: CraftPhase::Waited((n + 1) as u32), ..state }, CraftAction::Wait)
            }
        },
        CraftPhase::Over => (state, CraftAction::Done(CraftEnd::NeverAppeared)),
    }
}

pub open spec fn craft_wf(state: Craft) -> bool {
    &&& state.left <= 3
    &&& state.phase matches CraftPhase::Waited(n) ==> 1 <= n <= 8
}

/// How many steps of `craft_item` are left at most.
pub open spec fn craft_budget(state: Craft) -> int {
    12 * state.left + (match state.phase {
        CraftPhase::Start => 5int,
        CraftPhase::AtTable => 4,
        CraftPhase::Tidied => 3,
        CraftPhase::Opened => 12,
        CraftPhase::Crafted => 11,
        CraftPhase::Waited(n) => 10 - n,
        CraftPhase::Over => 0,
    })
}

/// A craft ends after at most three attempts, and success is reported only where the
/// inventory holds more of the item than before.
pub proof fn law_crafting_ends(state: Craft, seen: CraftSeen, n: i32)
    requires
        craft_wf(state),
        state.phase != CraftPhase::Over,
    ensures
        craft_wf(craft_item_next(state, seen).0),
        0 <= craft_budget(craft_item_next(state, seen).0) < craft_budget(state),
        craft_item_next(state, seen).1 == CraftAction::Done(CraftEnd::Crafted(n)) ==> n == seen.have
            && n > craft_item_next(state, seen).0.before,
{
}

/// The state after a run of observations.
pub open spec fn craft_item_run(state: Craft, seen: Seq<CraftSeen>) -> Craft
    decreases seen.len(),
{
    if seen.len() == 0 {
        state
    } else {
        craft_item_next(craft_item_run(state, seen.drop_last()), seen.last()).0
    }
}

proof fn lemma_craft_item_run(state: Craft, seen: Seq<CraftSeen>)
    requires
        craft_wf(state),
    ensures
        craft_wf(craft_item_run(state, seen)),
        craft_item_run(state, seen).phase == CraftPhase::Over
            || craft_budget(craft_item_run(state, seen)) + seen.len() <= craft_budget(state),
    decreases seen.len(),
{
    if seen.len() > 0 {
        lemma_craft_item_run(state, seen.drop_last());
        let before = craft_item_run(state, seen.drop_last());
        if !(before.phase == CraftPhase::Over) {
            law_crafting_ends(before, seen.last(), 0);
        }
    }
}

/// Whatever the bot sees, a craft is over after 41 steps.
pub proof fn law_a_craft_takes_a_bounded_time(table: bool, made: i64, seen: Seq<CraftSeen>)
    requires
        seen.len() >= 41,
    ensures
        craft_item_run(
            Craft { table, before: 0, made, left: 3, phase: CraftPhase::Start },
            seen,
        ).phase == CraftPhase::Over,
{
    lemma_craft_item_run(Craft { table, before: 0, made, left: 3, phase: CraftPhase::Start }, seen);
}

/// An item is not crafted again once it has appeared, and 3x3 recipes are not tried
/// without a table.
pub proof fn law_no_needless_crafting(state: Craft, seen: CraftSeen)
    requires
        craft_item_next(state, seen).1 == CraftAction::Craft,
        state.phase != CraftPhase::Opened,
    ensures
        state.phase is Waited || state.phase is Crafted ==> seen.have < state.before + state.made,
        state.phase == CraftPhase::Start ==> seen.known && seen.recipe && !seen.needs_table,
{
}

/// What a craft reports; `error` is what went wrong where the craft itself failed.
pub open spec fn craft_text(end: CraftEnd, name: Seq<char>, error: Seq<char>) -> Seq<char> {
    match end {
        CraftEnd::UnknownItem => "unknown item "@ + name,
        CraftEnd::NoRecipe => "no recipe for "@ + name,
        CraftEnd::NeedsTable => name + " needs a crafting table"@,
        CraftEnd::Crafted(n) => count_text("crafted "@ + name + " (have "@, n as int, ")"@),
        CraftEnd::NeverAppeared => "craft "@ + name
            + ": result never appeared (server didn't make it)"@,
        CraftEnd::Failed => "craft "@ + name + ": "@ + error,
    }
}

/// What a craft reports: a success exactly if the item appeared.
pub fn report_craft(end: CraftEnd, name: &str, error: &str) -> (r: StepResult)
    ensures
        r.success == (end is Crafted),
        r.message@ == craft_text(end, name@, error@),
{
    proof {
        reveal_strlit("");
    }
    match end {
        CraftEnd::UnknownItem => {
            let m = word_message("unknown item ", name, "");
            assert(m@ =~= craft_text(end, name@, error@));
            failure(m.as_str())
        },
        CraftEnd::NoRecipe => {
            let m = word_message("no recipe for ", name, "");
            assert(m@ =~= craft_text(end, name@, error@));
            failure(m.as_str())
        },
        CraftEnd::NeedsTable => {
            let m = word_message("", name, " needs a crafting table");
            assert(m@ =~= craft_text(end, name@, error@));
            failure(m.as_str())
        },
        CraftEnd::Crafted(n) => {
            let head = word_message("crafted ", name, " (have ");
            let m = count_message(head.as_str(), n, ")");
            success(m.as_str())
        },
        CraftEnd::NeverAppeared => {
            let m = word_message("craft ", name, ": result never appeared (server didn't make it)");
            failure(m.as_str())
        },
        CraftEnd::Failed => {
            let mut m = word_message("craft ", name, ": ");
            m.append(error);
            failure(m.as_str())
        },
    }
}

// ── crafting tables ─────────────────────────────────────────────────────────

#[derive(Debug, Clone, Copy, PartialEq, Eq)]
pub enum TablePhase {
    Start,
    /// Has walked to the remembered table.
    Visited(Pos),
    /// Has struck the remembered table off the map.
    Forgot,
    /// Has tried to craft a table.
    Crafted,
    Over,
}

#[derive(Debug, Clone, Copy, PartialEq, Eq)]
pub struct TableSeen {
    /// The nearest table on the map.
    pub remembered: Option<Pos>,
    /// A table in the loaded world.
    pub found: Option<Pos>,
    /// Tables in the inventory.
    pub carried: i32,
}

#[derive(Debug, Clone, Copy, PartialEq, Eq)]
pub enum TableAction {
    WalkTo(Pos),
    /// The remembered table is gone.
    Forget(Pos),
    /// Craft a table.
    CraftTable,
    /// Walk to the table, remember it and use it.
    Adopt(Pos),
    /// Place a table and use it.
    Place,
    /// Use this table.
    Use(Pos),
    /// There is no table to be had.
    GiveUp,
}

/// Uses a table in the loaded world, or makes one.
pub open spec fn look_for_table_next(seen: TableSeen) -> (TablePhase, TableAction) {
    match seen.found {
        Some(pos) => (TablePhase::Over, TableAction::Adopt(pos)),
        None => {
            if seen.carried == 0 {
                (TablePhase::Crafted, TableAction::CraftTable)
            } else {
                (TablePhase::Over, TableAction::Place)
            }
        },
    }
}

/// Uses a table in the loaded world, or makes one.
fn look_for_table(seen: TableSeen) -> (r: (TablePhase, TableAction))
    ensures
        r == look_for_table_next(seen),
{
    match seen.found {
        Some(pos) => (TablePhase::Over, TableAction::Adopt(pos)),
        None => {
            if seen.carried == 0 {
                (TablePhase::Crafted, TableAction::CraftTable)
            } else {
                (TablePhase::Over, TableAction::Place)
            }
        },
    }
}

/// Puts a table on the map, one that was placed or that stood there already. Returns
/// whether the database took it.
pub fn remember_table(mem: &mut WorldMemory, at: Pos) -> (stored: bool)
    requires
        old(mem).clock() < i64::MAX,
    ensures
        final(mem).clock() == old(mem).clock() + 1,
        final(mem).events() == old(mem).events(),
        ({
            let after = old(mem).pois().insert(
                at,
                recorded_row(PoiKind::CraftingTable, PoiStatus::Available, final(mem).clock()),
            );
            &&& stored ==> final(mem).pois() == after
            &&& !stored ==> final(mem).pois() == after || final(mem).pois() == old(mem).pois()
        }),
        final(mem).place() == old(mem).place(),
        old(mem).in_time() ==> final(mem).in_time(),
{
    mem.record(PoiKind::CraftingTable, at, PoiStatus::Available)
}

/// Notes that the table on the map at this place is gone. Returns whether the database
/// took it.
pub fn forget_table(mem: &mut WorldMemory, at: Pos) -> (stored: bool)
    ensures
        final(mem).clock() == old(mem).clock(),
        final(mem).events() == old(mem).events(),
        stored ==> final(mem).pois() == marked_rows(old(mem).pois(), at, PoiStatus::Gone),
        !stored ==> final(mem).pois() == marked_rows(old(mem).pois(), at, PoiStatus::Gone)
            || final(mem).pois() == old(mem).pois(),
        final(mem).place() == old(mem).place(),
        old(mem).in_time() ==> final(mem).in_time(),
{
    mem.mark(at, PoiStatus::Gone)
}

/// The block is a crafting table.
pub open spec fn is_table_block(block: Option<String>) -> bool {
    block matches Some(name) && name@ == "crafting_table"@
}

/// What `get_crafting_table` does next.
pub open spec fn get_crafting_table_next(phase: TablePhase, block: Option<String>, seen: TableSeen) -> (
    TablePhase,
    TableAction,
) {
    match phase {
        TablePhase::Start => match seen.remembered {
            Some(pos) => (TablePhase::Visited(pos), TableAction::WalkTo(pos)),
            None => look_for_table_next(seen),
        },
        TablePhase::Visited(pos) => {
            if is_table_block(block) {
                (TablePhase::Over, TableAction::Use(pos))
            } else if block is Some {
                (TablePhase::Forgot, TableAction::Forget(pos))
            } else {
                look_for_table_next(seen)
            }
        },
        TablePhase::Forgot => look_for_table_next(seen),
        TablePhase::Crafted => {
            if seen.carried == 0 {
                (TablePhase::Over, TableAction::GiveUp)
            } else {
                (TablePhase::Over, TableAction::Place)
            }
        },
        TablePhase::Over => (phase, TableAction::GiveUp),
    }
}

/// Finds a crafting table or places one from the inventory: a table on the map, walked
/// back to instead of wasting planks on a fresh one; a table in the loaded world; or one
/// that is crafted on demand. A remembered table that is loaded and no table any more is
/// struck off the map; one that is not loaded stays on it. `block` is what block is
/// loaded at the remembered place.
pub fn get_crafting_table(phase: TablePhase, block: &Option<String>, seen: TableSeen) -> (r: (
    TablePhase,
    TableAction,
))
    ensures
        r == get_crafting_table_next(phase, *block, seen),
{
    match phase {
        TablePhase::Start => match seen.remembered {
            Some(pos) => (TablePhase::Visited(pos), TableAction::WalkTo(pos)),
            None => look_for_table(seen),
        },
        TablePhase::Visited(pos) => {
            match block {
                Some(name) => {
                    if same(name.as_str(), "crafting_table") {
                        (TablePhase::Over, TableAction::Use(pos))
                    } else {
                        (TablePhase::Forgot, TableAction::Forget(pos))
                    }
                },
                None => look_for_table(seen),
            }
        },
        TablePhase::Forgot => look_for_table(seen),
        TablePhase::Crafted => {
            if seen.carried == 0 {
                (TablePhase::Over, TableAction::GiveUp)
            } else {
                (TablePhase::Over, TableAction::Place)
            }
        },
        TablePhase::Over => (phase, TableAction::GiveUp),
    }
}

/// A table is struck off the map only where another block is seen in its place, it is
/// used only where it is seen, and a table is crafted only where none is on the map,
/// around or carried.
pub proof fn law_tables_are_reused(phase: TablePhase, block: Option<String>, seen: TableSeen, pos: Pos)
    ensures
        ({
            let action = get_crafting_table_next(phase, block, seen).1;
            &&& action == TableAction::Forget(pos) ==> phase == TablePhase::Visited(pos) && block is Some
                && !is_table_block(block)
            &&& action == TableAction::Use(pos) ==> phase == TablePhase::Visited(pos) && is_table_block(
                block,
            )
            &&& action == TableAction::CraftTable ==> seen.found is None && seen.carried == 0 && (phase
                == TablePhase::Start ==> seen.remembered is None)
        }),
{
}

/// The nearest crafting table on a map that was read; nothing where it cannot be read.
pub fn remembered_table_from(read: &Result<Vec<StoredPoi>, rusqlite::Error>, at: Pos) -> (r: Option<Pos>)
    ensures
        read is Err ==> r is None,
        *read matches Ok(list) ==> {
            &&& r is None <==> no_row_usable(list@, seq![PoiKind::CraftingTable], 99)
            &&& r matches Some(p) ==> exists|poi: Poi|
                poi.pos == p && #[trigger] is_nearest_row(
                    poi,
                    list@,
                    seq![PoiKind::CraftingTable],
                    at,
                    99,
                )
        },
{
    let kinds: [PoiKind; 1] = [PoiKind::CraftingTable];
    assert(kinds@ =~= seq![PoiKind::CraftingTable]);
    match nearest_from(read, &kinds, at, 99) {
        Some(poi) => Some(poi.pos),
        None => None,
    }
}

/// The nearest crafting table on the map. Nothing comes back where the map cannot be
/// read.
pub fn remembered_table(mem: &WorldMemory, at: Pos) -> (r: Option<Pos>)
    ensures
        r matches Some(p) ==> exists|poi: Poi|
            poi.pos == p && #[trigger] is_nearest(
                poi,
                mem.pois(),
                seq![PoiKind::CraftingTable],
                at,
                99,
            ),
        none_usable(mem.pois(), seq![PoiKind::CraftingTable], 99) ==> r is None,
{
    let read = mem.read();
    let r = remembered_table_from(&read, at);
    proof {
        match &read {
            Ok(list) => lemma_spot_of_list(list@, mem.pois(), seq![PoiKind::CraftingTable], at, 99, r),
            Err(_) => {},
        }
    }
    r
}

#[derive(Debug, Clone, Copy, PartialEq, Eq, Structural)]
pub enum ConfirmPhase {
    Start,
    /// Has taken the table in hand.
    Selected,
    /// Has placed it and waited for the server.
    Placed,
}

#[derive(Debug, Clone, Copy, PartialEq, Eq, Structural)]
pub enum ConfirmAction {
    Select,
    /// Place the table on the block below the cell and wait for the server to
    /// confirm it or take it back.
    Place,
    Done(bool),
}

/// What `place_table_confirmed` does next.
pub open spec fn place_table_confirmed_next(
    phase: ConfirmPhase,
    armed: bool,
    there: bool,
) -> (ConfirmPhase, ConfirmAction) {
    match phase {
        ConfirmPhase::Start => (ConfirmPhase::Selected, ConfirmAction::Select),
        ConfirmPhase::Selected => {
            if armed {
                (ConfirmPhase::Placed, ConfirmAction::Place)
            } else {
                (ConfirmPhase::Selected, ConfirmAction::Done(false))
            }
        },
        ConfirmPhase::Placed => (ConfirmPhase::Placed, ConfirmAction::Done(there)),
    }
}

/// Places a crafting table and validates it against the server: the table is taken in
/// hand first, and after placing it counts only if it is really there.
pub fn place_table_confirmed(
    phase: ConfirmPhase,
    armed: bool,
    there: bool,
) -> (r: (ConfirmPhase, ConfirmAction))
    ensures
        r == place_table_confirmed_next(phase, armed, there),
{
    match phase {
        ConfirmPhase::Start => (ConfirmPhase::Selected, ConfirmAction::Select),
        ConfirmPhase::Selected => {
            if armed {
                (ConfirmPhase::Placed, ConfirmAction::Place)
            } else {
                (ConfirmPhase::Selected, ConfirmAction::Done(false))
            }
        },
        ConfirmPhase::Placed => (ConfirmPhase::Placed, ConfirmAction::Done(there)),
    }
}

/// The cells beside the feet: at their level, then one below.
pub open spec fn spot(feet: Pos, k: int) -> Pos {
    let y = if k < 4 {
        feet.1 as int
    } else {
        feet.1 - 1
    };
    if k % 4 == 0 {
        ((feet.0 + 1) as i32, y as i32, feet.2)
    } else if k % 4 == 1 {
        ((feet.0 - 1) as i32, y as i32, feet.2)
    } else if k % 4 == 2 {
        (feet.0, y as i32, (feet.2 + 1) as i32)
    } else {
        (feet.0, y as i32, (feet.2 - 1) as i32)
    }
}

/// Cell number `k` beside the feet.
pub fn cell_beside(feet: Pos, k: u32) -> (r: Pos)
    requires
        has_room(feet, 2),
    ensures
        r == spot(feet, k as int),
{
    let y: i32 = if k < 4 {
        feet.1
    } else {
        feet.1 - 1
    };
    let way: u32 = k % 4;
    if way == 0 {
        (feet.0 + 1, y, feet.2)
    } else if way == 1 {
        (feet.0 - 1, y, feet.2)
    } else if way == 2 {
        (feet.0, y, feet.2 + 1)
    } else {
        (feet.0, y, feet.2 - 1)
    }
}

/// There is ground under the cell.
pub open spec fn has_ground(states: States, c: Pos) -> bool {
    block_state(states, c.0 as int, c.1 - 1, c.2 as int) != 0
}

pub open spec fn is_empty_cell(states: States, c: Pos) -> bool {
    block_state(states, c.0 as int, c.1 as int, c.2 as int) == 0
}

/// The first cell beside the feet, from number `from` on, that is empty and has
/// ground.
pub open spec fn first_spot(states: &States, feet: Pos, from: u32) -> Option<u32>
    decreases 8 - from,
{
    if from >= 8 {
        None
    } else if is_empty_cell(*states, spot(feet, from as int)) && has_ground(
        *states,
        spot(feet, from as int),
    ) {
        Some(from)
    } else {
        first_spot(states, feet, (from + 1) as u32)
    }
}

/// The first cell beside the feet, from number `from` on, that is empty and has
/// ground.
pub fn next_spot(states: &States, feet: Pos, from: u32) -> (r: Option<u32>)
    requires
        has_room(feet, 2),
    ensures
        r == first_spot(states, feet, from),
        r matches Some(k) ==> from <= k < 8,
    decreases 8 - from,
{
    if from >= 8 {
        return None;
    }
    let c = cell_beside(feet, from);
    if state_of(states, c.0, c.1, c.2) == 0 && state_of(states, c.0, c.1 - 1, c.2) != 0 {
        return Some(from);
    }
    next_spot(states, feet, from + 1)
}

/// The first cell beside the feet and at their level, from number `from` on, that has
/// ground.
pub open spec fn first_niche(states: &States, feet: Pos, from: u32) -> Option<u32>
    decreases 4 - from,
{
    if from >= 4 {
        None
    } else if has_ground(*states, spot(feet, from as int)) {
        Some(from)
    } else {
        first_niche(states, feet, (from + 1) as u32)
    }
}

/// The first cell beside the feet and at their level, from number `from` on, that has
/// ground.
pub fn next_niche(states: &States, feet: Pos, from: u32) -> (r: Option<u32>)
    requires
        has_room(feet, 2),
    ensures
        r == first_niche(states, feet, from),
        r matches Some(k) ==> from <= k < 4,
    decreases 4 - from,
{
    if from >= 4 {
        return None;
    }
    let c = cell_beside(feet, from);
    if state_of(states, c.0, c.1 - 1, c.2) != 0 {
        return Some(from);
    }
    next_niche(states, feet, from + 1)
}

/// Whether cell number `k` beside the feet is empty.
pub open spec fn spot_is_open(states: &States, feet: Pos, k: u32) -> bool {
    is_empty_cell(*states, spot(feet, k as int))
}

/// Whether cell number `k` beside the feet is empty.
pub fn is_open_spot(states: &States, feet: Pos, k: u32) -> (r: bool)
    requires
        has_room(feet, 2),
    ensures
        r == spot_is_open(states, feet, k),
{
    let c = cell_beside(feet, k);
    state_of(states, c.0, c.1, c.2) == 0
}

#[derive(Debug, Clone, Copy, PartialEq, Eq, Structural)]
pub enum PutPhase {
    Start,
    /// Has taken the table in hand.
    Selected,
    /// Has tried to place it in this open cell.
    Tried(u32),
    /// Has tried to dig this cell open.
    Dug(u32),
    /// Has tried to place it in this niche.
    Niche(u32),
    Over,
}

#[derive(Debug, Clone, Copy, PartialEq, Eq)]
pub enum PutAction {
    Select,
    /// Place the table in this cell and have it confirmed.
    PlaceIn(Pos),
    /// Dig this cell open.
    Dig(Pos),
    /// The table stands here: remember it.
    Placed(Pos),
    GiveUp,
}

/// Goes on with the niches from number `from` on.
pub open spec fn put_in_niche_next(states: &States, feet: Pos, from: u32) -> (PutPhase, PutAction) {
    match first_niche(states, feet, from) {
        Some(k) => {
            if spot_is_open(states, feet, k) {
                (PutPhase::Niche(k), PutAction::PlaceIn(spot(feet, k as int)))
            } else {
                (PutPhase::Dug(k), PutAction::Dig(spot(feet, k as int)))
            }
        },
        None => (PutPhase::Over, PutAction::GiveUp),
    }
}

/// Goes on with the niches from number `from` on.
fn put_in_niche(states: &States, feet: Pos, from: u32) -> (r: (PutPhase, PutAction))
    requires
        has_room(feet, 2),
    ensures
        r == put_in_niche_next(states, feet, from),
{
    match next_niche(states, feet, from) {
        Some(k) => {
            if is_open_spot(states, feet, k) {
                (PutPhase::Niche(k), PutAction::PlaceIn(cell_beside(feet, k)))
            } else {
                (PutPhase::Dug(k), PutAction::Dig(cell_beside(feet, k)))
            }
        },
        None => (PutPhase::Over, PutAction::GiveUp),
    }
}

/// Goes on with the open cells from number `from` on, then with the niches.
pub open spec fn put_in_spot_next(states: &States, feet: Pos, from: u32) -> (PutPhase, PutAction) {
    match first_spot(states, feet, from) {
        Some(k) => (PutPhase::Tried(k), PutAction::PlaceIn(spot(feet, k as int))),
        None => put_in_niche_next(states, feet, 0),
    }
}

/// Goes on with the open cells from number `from` on, then with the niches.
fn put_in_spot(states: &States, feet: Pos, from: u32) -> (r: (PutPhase, PutAction))
    requires
        has_room(feet, 2),
    ensures
        r == put_in_spot_next(states, feet, from),
{
    match next_spot(states, feet, from) {
        Some(k) => (PutPhase::Tried(k), PutAction::PlaceIn(cell_beside(feet, k))),
        None => put_in_niche(states, feet, 0),
    }
}

/// What `place_crafting_table` does next.
pub open spec fn place_crafting_table_next(
    phase: PutPhase,
    states: &States,
    feet: Pos,
    ok: bool,
) -> (PutPhase, PutAction) {
    match phase {
        PutPhase::Start => (PutPhase::Selected, PutAction::Select),
        PutPhase::Selected => {
            if ok {
                put_in_spot_next(states, feet, 0)
            } else {
                (PutPhase::Over, PutAction::GiveUp)
            }
        },
        PutPhase::Tried(k) => {
            if ok {
                (PutPhase::Over, PutAction::Placed(spot(feet, k as int)))
            } else if k < 8 {
                put_in_spot_next(states, feet, (k + 1) as u32)
            } else {
                (PutPhase::Over, PutAction::GiveUp)
            }
        },
        PutPhase::Dug(k) => {
            if ok && spot_is_open(states, feet, k) {
                (PutPhase::Niche(k), PutAction::PlaceIn(spot(feet, k as int)))
            } else if k < 4 {
                put_in_niche_next(states, feet, (k + 1) as u32)
            } else {
                (PutPhase::Over, PutAction::GiveUp)
            }
        },
        PutPhase::Niche(k) => {
            if ok {
                (PutPhase::Over, PutAction::Placed(spot(feet, k as int)))
            } else if k < 4 {
                put_in_niche_next(states, feet, (k + 1) as u32)
            } else {
                (PutPhase::Over, PutAction::GiveUp)
            }
        },
        PutPhase::Over => (phase, PutAction::GiveUp),
    }
}

/// Places a crafting table on an empty cell next to the bot with solid ground; where
/// there is none (in a tunnel), in a niche dug at the level of the feet. Reports a place
/// only once the server confirms that the table is really there.
pub fn place_crafting_table(
    phase: PutPhase,
    states: &States,
    feet: Pos,
    ok: bool,
) -> (r: (PutPhase, PutAction))
    requires
        has_room(feet, 2),
    ensures
        r == place_crafting_table_next(phase, states, feet, ok),
{
    match phase {
        PutPhase::Start => (PutPhase::Selected, PutAction::Select),
        PutPhase::Selected => {
            if ok {
                put_in_spot(states, feet, 0)
            } else {
                (PutPhase::Over, PutAction::GiveUp)
            }
        },
        PutPhase::Tried(k) => {
            if ok {
                (PutPhase::Over, PutAction::Placed(cell_beside(feet, k)))
            } else if k < 8 {
                put_in_spot(states, feet, (k + 1) as u32)
            } else {
                (PutPhase::Over, PutAction::GiveUp)
            }
        },
        PutPhase::Dug(k) => {
            if ok && is_open_spot(states, feet, k) {
                (PutPhase::Niche(k), PutAction::PlaceIn(cell_beside(feet, k)))
            } else if k < 4 {
                put_in_niche(states, feet, (k + 1) as u32)
            } else {
                (PutPhase::Over, PutAction::GiveUp)
            }
        },
        PutPhase::Niche(k) => {
            if ok {
                (PutPhase::Over, PutAction::Placed(cell_beside(feet, k)))
            } else if k < 4 {
                put_in_niche(states, feet, (k + 1) as u32)
            } else {
                (PutPhase::Over, PutAction::GiveUp)
            }
        },
        PutPhase::Over => (phase, PutAction::GiveUp),
    }
}

proof fn lemma_next_spot(states: &States, feet: Pos, from: u32)
    ensures
        first_spot(states, feet, from) matches Some(k) ==> from <= k < 8 && is_empty_cell(
            *states,
            spot(feet, k as int),
        ) && has_ground(*states, spot(feet, k as int)),
    decreases 8 - from,
{
    if from < 8 {
        lemma_next_spot(states, feet, (from + 1) as u32);
    }
}

pub(crate) proof fn lemma_next_niche(states: &States, feet: Pos, from: u32)
    ensures
        first_niche(states, feet, from) matches Some(k) ==> from <= k < 4 && has_ground(
            *states,
            spot(feet, k as int),
        ),
    decreases 4 - from,
{
    if from < 4 {
        lemma_next_niche(states, feet, (from + 1) as u32);
    }
}

/// A table is placed only into an empty cell, and its place is reported only once it
/// is confirmed.
pub proof fn law_tables_go_into_empty_cells(
    phase: PutPhase,
    states: &States,
    feet: Pos,
    ok: bool,
    p: Pos,
)
    ensures
        place_crafting_table_next(phase, states, feet, ok).1 == PutAction::PlaceIn(p) ==> is_empty_cell(
            *states,
            p,
        ),
        place_crafting_table_next(phase, states, feet, ok).1 == PutAction::Placed(p) ==> ok && match phase {
            PutPhase::Tried(k) => p == spot(feet, k as int),
            PutPhase::Niche(k) => p == spot(feet, k as int),
            _ => false,
        },
{
    lemma_next_spot(states, feet, 0);
    match phase {
        PutPhase::Tried(j) => lemma_next_spot(states, feet, (j + 1) as u32),
        _ => {},
    }
}

/// How many steps of `place_crafting_table` are left at most.
pub open spec fn put_budget(phase: PutPhase) -> int {
    match phase {
        PutPhase::Start => 40,
        PutPhase::Selected => 39,
        PutPhase::Tried(k) => 30 - k,
        PutPhase::Dug(k) => 20 - 2 * k,
        PutPhase::Niche(k) => 19 - 2 * k,
        PutPhase::Over => 0,
    }
}

pub open spec fn put_wf(phase: PutPhase) -> bool {
    match phase {
        PutPhase::Tried(k) => k < 8,
        PutPhase::Dug(k) => k < 4,
        PutPhase::Niche(k) => k < 4,
        _ => true,
    }
}

/// The search for a place ends.
pub proof fn law_placing_a_table_ends(phase: PutPhase, states: &States, feet: Pos, ok: bool)
    requires
        put_wf(phase),
        phase != PutPhase::Over,
    ensures
        put_wf(place_crafting_table_next(phase, states, feet, ok).0),
        0 <= put_budget(place_crafting_table_next(phase, states, feet, ok).0) < put_budget(phase),
{
    lemma_next_spot(states, feet, 0);
    lemma_next_niche(states, feet, 0);
    match phase {
        PutPhase::Tried(k) => lemma_next_spot(states, feet, (k + 1) as u32),
        PutPhase::Dug(k) => lemma_next_niche(states, feet, (k + 1) as u32),
        PutPhase::Niche(k) => lemma_next_niche(states, feet, (k + 1) as u32),
        _ => {},
    }
}

/// The state after a run of observations.
pub open spec fn place_crafting_table_run(feet: Pos, state: PutPhase, seen: Seq<(&States, bool)>) -> PutPhase
    decreases seen.len(),
{
    if seen.len() == 0 {
        state
    } else {
        let before = place_crafting_table_run(feet, state, seen.drop_last());
        place_crafting_table_next(before, seen.last().0, feet, seen.last().1).0
    }
}

proof fn lemma_place_crafting_table_run(feet: Pos, state: PutPhase, seen: Seq<(&States, bool)>)
    requires
        put_wf(state),
    ensures
        put_wf(place_crafting_table_run(feet, state, seen)),
        place_crafting_table_run(feet, state, seen) == PutPhase::Over
            || put_budget(place_crafting_table_run(feet, state, seen)) + seen.len() <= put_budget(state),
    decreases seen.len(),
{
    if seen.len() > 0 {
        lemma_place_crafting_table_run(feet, state, seen.drop_last());
        let before = place_crafting_table_run(feet, state, seen.drop_last());
        if !(before == PutPhase::Over) {
            law_placing_a_table_ends(before, seen.last().0, feet, seen.last().1);
        }
    }
}

/// Whatever the bot sees, the search for a place is over after 40 steps.
pub proof fn law_a_table_takes_a_bounded_time(feet: Pos, seen: Seq<(&States, bool)>)
    requires
        seen.len() >= 40,
    ensures
        place_crafting_table_run(feet, PutPhase::Start, seen) == PutPhase::Over,
{
    lemma_place_crafting_table_run(feet, PutPhase::Start, seen);
}

// ── what holds of every step ────────────────────────────────────────────────

/// A swimmer is capped by a known block that is neither air nor water.
pub proof fn law_air_and_water_are_no_ceiling(blocks: Blocks, p: Pos, n: Seq<char>)
    ensures
        block_name(blocks, p.0 as int, p.1 as int, p.2 as int) is None ==> !capped_at(blocks, p),
        block_name(blocks, p.0 as int, p.1 as int, p.2 as int) == Some(n) ==> (capped_at(blocks, p) <==> !seq![
            "air"@,
            "cave_air"@,
            "void_air"@,
        ].contains(n) && !occurs_in("water"@, n)),
{
    let air = seq!["air"@, "cave_air"@, "void_air"@];
    assert(air[0] == "air"@ && air[1] == "cave_air"@ && air[2] == "void_air"@);
}

/// Under water the bot goes on until its ticks are used up or the connection is lost: it digs
/// where it is capped, at the cost of four ticks, and swims otherwise, at the cost of one.
pub proof fn law_swimming_goes_on(t: u32, ticks: u32, blocks: &Blocks, at: Swimmer, lost: bool)
    requires
        ticks <= u32::MAX - 4,
    ensures
        ({
            let (next, action) = leave_water_next(t, ticks, blocks, at, lost);
            let under = water_at(*blocks, at.head.0 as int, at.head.1 as int, at.head.2 as int);
            &&& action == SwimAction::Done(true) <==> !under
            &&& action == SwimAction::Done(false) <==> under && (lost || t >= ticks)
            &&& action is DigUp <==> under && !lost && t < ticks && capped_at(*blocks, at.above)
            &&& action is DigUp ==> action == SwimAction::DigUp(at.above) && next == t + 4
            &&& action == SwimAction::Swim ==> next == t + 1
            &&& action is Done ==> next == t
        }),
{
}

/// The junk, by name.
pub proof fn law_junk_by_name(n: Seq<char>)
    ensures
        is_junk(n) <==> seq![
            "dirt"@,
            "coarse_dirt"@,
            "rooted_dirt"@,
            "mud"@,
            "clay_ball"@,
            "granite"@,
            "diorite"@,
            "andesite"@,
            "tuff"@,
            "calcite"@,
            "deepslate"@,
            "cobbled_deepslate"@,
            "leaf_litter"@,
            "oak_sapling"@,
            "birch_sapling"@,
            "spruce_sapling"@,
            "oak_leaves"@,
            "birch_leaves"@,
            "spruce_leaves"@,
            "azalea_leaves"@,
            "short_grass"@,
            "tall_grass"@,
            "fern"@,
            "dead_bush"@,
            "seeds"@,
            "wheat_seeds"@,
            "oak_button"@,
            "birch_button"@,
            "spruce_button"@,
            "stone_button"@,
            "raw_copper"@,
            "copper_ore"@,
        ].contains(n),
{
    let junk = seq![
        "dirt"@,
        "coarse_dirt"@,
        "rooted_dirt"@,
        "mud"@,
        "clay_ball"@,
        "granite"@,
        "diorite"@,
        "andesite"@,
        "tuff"@,
        "calcite"@,
        "deepslate"@,
        "cobbled_deepslate"@,
        "leaf_litter"@,
        "oak_sapling"@,
        "birch_sapling"@,
        "spruce_sapling"@,
        "oak_leaves"@,
        "birch_leaves"@,
        "spruce_leaves"@,
        "azalea_leaves"@,
        "short_grass"@,
        "tall_grass"@,
        "fern"@,
        "dead_bush"@,
        "seeds"@,
        "wheat_seeds"@,
        "oak_button"@,
        "birch_button"@,
        "spruce_button"@,
        "stone_button"@,
        "raw_copper"@,
        "copper_ore"@,
    ];
    assert(junk[0] == "dirt"@);
    assert(junk[1] == "coarse_dirt"@);
    assert(junk[2] == "rooted_dirt"@);
    assert(junk[3] == "mud"@);
    assert(junk[4] == "clay_ball"@);
    assert(junk[5] == "granite"@);
    assert(junk[6] == "diorite"@);
    assert(junk[7] == "andesite"@);
    assert(junk[8] == "tuff"@);
    assert(junk[9] == "calcite"@);
    assert(junk[10] == "deepslate"@);
    assert(junk[11] == "cobbled_deepslate"@);
    assert(junk[12] == "leaf_litter"@);
    assert(junk[13] == "oak_sapling"@);
    assert(junk[14] == "birch_sapling"@);
    assert(junk[15] == "spruce_sapling"@);
    assert(junk[16] == "oak_leaves"@);
    assert(junk[17] == "birch_leaves"@);
    assert(junk[18] == "spruce_leaves"@);
    assert(junk[19] == "azalea_leaves"@);
    assert(junk[20] == "short_grass"@);
    assert(junk[21] == "tall_grass"@);
    assert(junk[22] == "fern"@);
    assert(junk[23] == "dead_bush"@);
    assert(junk[24] == "seeds"@);
    assert(junk[25] == "wheat_seeds"@);
    assert(junk[26] == "oak_button"@);
    assert(junk[27] == "birch_button"@);
    assert(junk[28] == "spruce_button"@);
    assert(junk[29] == "stone_button"@);
    assert(junk[30] == "raw_copper"@);
    assert(junk[31] == "copper_ore"@);
}

/// A slot is dropped exactly if it holds junk, or cobblestone or sticks of which there are
/// more than is kept up to and with this slot; slots are dropped in order, each once.
pub proof fn law_what_is_dropped(slots: Seq<Option<Stack>>, i: int)
    ensures
        dropped(slots).contains(i) <==> 0 <= i < slots.len() && (slots[i] matches Some(stack) && if stack.name@
            == "cobblestone"@ {
            tally(slots.take(i + 1), named("cobblestone"@)) > 64
        } else if stack.name@ == "stick"@ {
            tally(slots.take(i + 1), named("stick"@)) > 16
        } else {
            is_junk(stack.name@)
        }),
        forall|j: int, k: int| 0 <= j < k < dropped(slots).len() ==> dropped(slots)[j] < dropped(slots)[k],
    decreases slots.len(),
{
    if slots.len() > 0 {
        let rest = slots.drop_last();
        law_what_is_dropped(rest, i);
        let list = dropped(rest);
        assert forall|j: int| 0 <= j < list.len() implies 0 <= #[trigger] list[j] < rest.len() by {
            law_what_is_dropped(rest, list[j]);
            assert(list.contains(list[j]));
        }
        if 0 <= i < rest.len() {
            assert(rest.take(i + 1) =~= slots.take(i + 1));
            assert(rest[i] == slots[i]);
        }
        assert(slots.take(slots.len() as int) =~= slots);
        if drops_last(slots) {
            let all = dropped(slots);
            assert(all == list.push(slots.len() - 1));
            if i == slots.len() - 1 {
                assert(all[list.len() as int] == i);
            }
            if list.contains(i) {
                let j = choose|j: int| 0 <= j < list.len() && list[j] == i;
                assert(all[j] == i);
            }
            if all.contains(i) && i != slots.len() - 1 {
                let j = choose|j: int| 0 <= j < all.len() && all[j] == i;
                assert(list[j] == i);
            }
        } else if i == slots.len() - 1 {
            if list.contains(i) {
                let j = choose|j: int| 0 <= j < list.len() && list[j] == i;
                assert(list[j] < rest.len());
            }
        }
    }
}

/// Every stack takes one slot, whatever it holds.
pub proof fn law_stacks_are_counted(slots: Seq<Option<Stack>>, stack: Stack)
    ensures
        occupied(slots.push(Some(stack))) == occupied(slots) + 1,
        occupied(slots.push(None)) == occupied(slots),
        occupied(Seq::empty()) == 0,
        0 <= occupied(slots) <= slots.len(),
    decreases slots.len(),
{
    assert(slots.push(Some(stack)).drop_last() =~= slots);
    assert(slots.push(None).drop_last() =~= slots);
    if slots.len() > 0 {
        law_stacks_are_counted(slots.drop_last(), stack);
    }
}

/// The bot walks after a drop until it carries more, its 40 ticks are used up, or the
/// connection is lost.
pub proof fn law_picking_up_stops_for_a_reason(left: u32, before: i32, total: i32, lost: bool)
    ensures
        collect_drops_next(left, before, total, lost).1 == PickUpAction::Stop <==> total > before || left == 0
            || lost,
        collect_drops_next(left, before, total, lost).1 == PickUpAction::Walk ==> collect_drops_next(
            left,
            before,
            total,
            lost,
        ).0 == left - 1,
        PICK_UP_TICKS == 40,
{
}

/// Logs are looked for up to 16, 32, 48 and 64 blocks away: one ring is as wide as the other.
pub proof fn law_rings_are_even(k: int)
    requires
        0 <= k < 4,
    ensures
        LOG_RINGS[k] == 16 * (k + 1),
{
}

/// The closest log is no farther than any other, within a finite distance; there is none
/// exactly if no log is that near.
pub proof fn law_the_closest_log_is_closest(logs: Seq<LogSighted>, i: int, j: int)
    requires
        0 <= j < logs.len(),
    ensures
        is_closest_log(logs, i) ==> logs[i].key <= logs[j].key && (logs[j].key == logs[i].key ==> i <= j),
        is_closest_log(logs, i) ==> !no_logs(logs),
        !no_logs(logs) <==> exists|k: int| 0 <= k < logs.len() && (#[trigger] logs[k]).key < FAR,
        FAR == 0x7fef_ffff_ffff_ffff,
{
    if is_closest_log(logs, i) {
        assert(logs[i].key < FAR);
    }
}

/// Of an item that is carried and not in hand the first slot is taken: held where it is in the
/// hotbar, swapped in from anywhere else. After five tries the bot gives up.
pub proof fn law_the_first_slot_is_taken(
    tries: u32,
    held: Option<String>,
    slots: Seq<Option<Stack>>,
    name: Seq<char>,
    i: int,
)
    requires
        slots.len() <= usize::MAX,
        !(held matches Some(h) && h@ == name),
        0 <= i < slots.len(),
        slot_named(slots[i], name),
        forall|j: int| 0 <= j < i ==> !slot_named(#[trigger] slots[j], name),
    ensures
        ({
            let (next, action) = select_item_next(tries, held, slots, name);
            &&& tries >= 5 <==> action == SelectAction::Done(SelectEnd::Unconfirmed)
            &&& tries < 5 && 36 <= i < 45 ==> action == SelectAction::Hold((i - 36) as usize)
            &&& tries < 5 && !(36 <= i < 45) ==> action == SelectAction::SwapIn(i as usize)
            &&& tries < 5 ==> next == tries + 1
        }),
{
    law_the_first_slot_is_found(slots, 0, name);
    match slot_from(slots, 0, name) {
        Some(k) => {
            if k < i {
                assert(!slot_named(slots[k as int], name));
            }
            if i < k {
                assert(!slot_named(slots[i], name));
            }
        },
        None => {
            assert(!slot_named(slots[i], name));
        },
    }
}

/// A craft makes as many items as its batches give, and one batch of one at least.
pub proof fn law_batches_multiply(result: i32, count: i32)
    ensures
        result >= 1 && count >= 1 ==> batch(result, count) == result * count,
        result < 1 ==> batch(result, count) == batch(1, count),
        count < 1 ==> batch(result, count) == batch(result, 1),
        batch(1, 1) == 1,
        batch(result, count) >= 1,
{
    assert(batch(result, count) >= 1) by (nonlinear_arith)
        requires
            batch(result, count) == (if result >= 1 {
                result as int
            } else {
                1
            }) * (if count >= 1 {
                count as int
            } else {
                1
            }),
    ;
}

/// The state begins to craft with this step.
pub open spec fn craft_begins(state: Craft, seen: CraftSeen) -> bool {
    match state.phase {
        CraftPhase::Start => seen.known && seen.recipe && !seen.needs_table && !state.table
            && !seen.crowded,
        CraftPhase::AtTable => !seen.crowded,
        CraftPhase::Tidied => true,
        _ => false,
    }
}

/// A craft is refused only for an unknown item, for want of a recipe or of a table; with the
/// table it is walked to, and a crowded inventory is tidied first.
pub proof fn law_crafts_are_refused_for_a_reason(state: Craft, seen: CraftSeen)
    requires
        state.phase != CraftPhase::Over,
    ensures
        ({
            let (next, action) = craft_item_next(state, seen);
            let start = state.phase == CraftPhase::Start;
            let fit = seen.known && seen.recipe && (seen.needs_table ==> state.table);
            &&& action == CraftAction::Done(CraftEnd::UnknownItem) <==> start && !seen.known
            &&& action == CraftAction::Done(CraftEnd::NoRecipe) <==> start && seen.known && !seen.recipe
            &&& action == CraftAction::Done(CraftEnd::NeedsTable) <==> start && seen.known && seen.recipe
                && seen.needs_table && !state.table
            &&& action == CraftAction::WalkToTable <==> start && fit && state.table
            &&& action == CraftAction::WalkToTable ==> next.phase == CraftPhase::AtTable
            &&& action == CraftAction::Tidy <==> seen.crowded && ((start && fit && !state.table) || state.phase
                == CraftPhase::AtTable)
            &&& action == CraftAction::Tidy ==> next.phase == CraftPhase::Tidied
            &&& action == CraftAction::Done(CraftEnd::Failed) <==> state.phase == CraftPhase::Crafted
                && !seen.ok
            &&& next.table == state.table && next.made == state.made
            &&& next.before == (if craft_begins(state, seen) {
                seen.have
            } else {
                state.before
            })
        }),
{
}

/// An attempt goes on until all the items are there, for eight waits at most; then the next
/// one is made, at an open table where there is one, as long as one is left. Only with none
/// left, or with all the items there, is the craft over: with success if there is any more of
/// the item than before.
pub proof fn law_crafts_go_on_until_the_items_appear(state: Craft, seen: CraftSeen)
    requires
        craft_wf(state),
        state.made >= 1,
        state.phase != CraftPhase::Over,
    ensures
        ({
            let (next, action) = craft_item_next(state, seen);
            let there = !craft_begins(state, seen) && seen.have >= state.before + state.made;
            let waiting = (state.phase == CraftPhase::Crafted && seen.ok) || state.phase is Waited;
            let spent = state.phase == CraftPhase::Waited(8);
            let asks = craft_begins(state, seen) || spent;
            &&& waiting && there ==> action == CraftAction::Done(CraftEnd::Crafted(seen.have))
            &&& waiting && !there && !spent ==> action == CraftAction::Wait && next.left == state.left
                && next.phase == CraftPhase::Waited(
                match state.phase {
                    CraftPhase::Waited(n) => (n + 1) as u32,
                    _ => 1,
                },
            )
            &&& asks && !there && state.left > 0 ==> next.left == state.left - 1 && if state.table
                && !seen.window {
                action == CraftAction::OpenTable && next.phase == CraftPhase::Opened
            } else {
                action == CraftAction::Craft && next.phase == CraftPhase::Crafted
            }
            &&& asks && !there && state.left == 0 ==> action == CraftAction::Done(
                if seen.have > next.before {
                    CraftEnd::Crafted(seen.have)
                } else {
                    CraftEnd::NeverAppeared
                },
            )
            &&& state.phase == CraftPhase::Opened ==> action == CraftAction::Craft && next.phase
                == CraftPhase::Crafted && next.left == state.left
            &&& action is Done <==> next.phase == CraftPhase::Over
        }),
{
}

/// What a craft says names the item and what came of it.
pub proof fn law_craft_reports_name_the_item(end: CraftEnd, name: Seq<char>, error: Seq<char>)
    ensures
        craft_text(CraftEnd::UnknownItem, name, error) == "unknown item "@ + name,
        craft_text(CraftEnd::NoRecipe, name, error) == "no recipe for "@ + name,
        craft_text(CraftEnd::NeedsTable, name, error) == name + " needs a crafting table"@,
        craft_text(CraftEnd::NeverAppeared, name, error) == "craft "@ + name
            + ": result never appeared (server didn't make it)"@,
        craft_text(CraftEnd::Failed, name, error) == "craft "@ + name + ": "@ + error,
        end matches CraftEnd::Crafted(n) ==> craft_text(end, name, error) == count_text(
            "crafted "@ + name + " (have "@,
            n as int,
            ")"@,
        ),
{
}

/// A remembered table is gone to, used where it is seen, struck off the map where another
/// block is, and left alone where nothing is loaded. Then a table in sight is taken, or one
/// that is carried or crafted is placed; there is none to be had only where the craft gave
/// none.
pub proof fn law_tables_are_had_in_order(phase: TablePhase, block: Option<String>, seen: TableSeen, p: Pos)
    requires
        phase != TablePhase::Over,
    ensures
        ({
            let (next, action) = get_crafting_table_next(phase, block, seen);
            let looks = (phase == TablePhase::Start && seen.remembered is None) || (phase is Visited && block
                is None) || phase == TablePhase::Forgot;
            let table = block matches Some(name) && name@ == "crafting_table"@;
            &&& action == TableAction::WalkTo(p) <==> phase == TablePhase::Start && seen.remembered == Some(p)
            &&& action == TableAction::WalkTo(p) ==> next == TablePhase::Visited(p)
            &&& action == TableAction::Use(p) <==> phase == TablePhase::Visited(p) && table
            &&& action == TableAction::Forget(p) <==> phase == TablePhase::Visited(p) && block is Some && !table
            &&& action == TableAction::Forget(p) ==> next == TablePhase::Forgot
            &&& action == TableAction::Adopt(p) <==> looks && seen.found == Some(p)
            &&& action == TableAction::CraftTable <==> looks && seen.found is None && seen.carried == 0
            &&& action == TableAction::CraftTable ==> next == TablePhase::Crafted
            &&& action == TableAction::Place <==> seen.carried != 0 && ((looks && seen.found is None) || phase
                == TablePhase::Crafted)
            &&& action == TableAction::GiveUp <==> phase == TablePhase::Crafted && seen.carried == 0
            &&& action is Adopt || action is Use || action == TableAction::Place || action == TableAction::GiveUp
                <==> next == TablePhase::Over
        }),
{
}

/// A table counts as placed exactly if it was in hand, was placed and is there.
pub proof fn law_tables_are_confirmed(phase: ConfirmPhase, armed: bool, there: bool)
    ensures
        ({
            let (next, action) = place_table_confirmed_next(phase, armed, there);
            &&& action == ConfirmAction::Done(true) <==> phase == ConfirmPhase::Placed && there
            &&& action == ConfirmAction::Done(false) <==> (phase == ConfirmPhase::Placed && !there) || (phase
                == ConfirmPhase::Selected && !armed)
            &&& action == ConfirmAction::Place <==> phase == ConfirmPhase::Selected && armed
            &&& action == ConfirmAction::Place <==> next == ConfirmPhase::Placed && phase
                != ConfirmPhase::Placed
            &&& action == ConfirmAction::Select <==> phase == ConfirmPhase::Start
            &&& phase == ConfirmPhase::Placed ==> next == ConfirmPhase::Placed
            &&& action == ConfirmAction::Select ==> next == ConfirmPhase::Selected
        }),
{
}

/// The cells beside the feet are the four that share a side with them, at their level first
/// and then one below.
pub proof fn law_spots_are_beside_the_feet(feet: Pos, k: int, c: Pos)
    requires
        has_room(feet, 2),
        0 <= k < 8,
    ensures
        spot(feet, k).1 == (if k < 4 {
            feet.1 as int
        } else {
            feet.1 - 1
        }),
        (exists|j: int| 0 <= j < 8 && #[trigger] spot(feet, j) == c) <==> (c.1 == feet.1 || c.1 == feet.1 - 1)
            && ((c.0 == feet.0 && (c.2 == feet.2 + 1 || c.2 == feet.2 - 1)) || (c.2 == feet.2 && (c.0 == feet.0
            + 1 || c.0 == feet.0 - 1))),
        (spot(feet, k).0 == feet.0 + 1 <==> k % 4 == 0) && (spot(feet, k).0 == feet.0 - 1 <==> k % 4 == 1),
        (spot(feet, k).2 == feet.2 + 1 <==> k % 4 == 2) && (spot(feet, k).2 == feet.2 - 1 <==> k % 4 == 3),
{
    if (c.1 == feet.1 || c.1 == feet.1 - 1) && ((c.0 == feet.0 && (c.2 == feet.2 + 1 || c.2 == feet.2 - 1)) || (
    c.2 == feet.2 && (c.0 == feet.0 + 1 || c.0 == feet.0 - 1))) {
        let base: int = if c.1 == feet.1 {
            0
        } else {
            4
        };
        assert(spot(feet, base) == c || spot(feet, base + 1) == c || spot(feet, base + 2) == c || spot(
            feet,
            base + 3,
        ) == c);
    }
}

/// A cell is empty where the world shows no block there, and has ground where it shows one
/// right below.
pub proof fn law_empty_means_no_block(states: States, c: Pos)
    ensures
        is_empty_cell(states, c) <==> block_state(states, c.0 as int, c.1 as int, c.2 as int) == 0,
        has_ground(states, c) <==> block_state(states, c.0 as int, c.1 - 1, c.2 as int) != 0,
{
}

/// What is found is the first cell that will do, from the given one on.
pub proof fn law_spots_are_found_in_order(states: &States, feet: Pos, from: u32)
    ensures
        match first_spot(states, feet, from) {
            Some(k) => from <= k < 8 && is_empty_cell(*states, spot(feet, k as int)) && has_ground(
                *states,
                spot(feet, k as int),
            ) && forall|j: int|
                from <= j < k ==> !(is_empty_cell(*states, #[trigger] spot(feet, j)) && has_ground(
                    *states,
                    spot(feet, j),
                )),
            None => forall|j: int|
                from <= j < 8 ==> !(is_empty_cell(*states, #[trigger] spot(feet, j)) && has_ground(
                    *states,
                    spot(feet, j),
                )),
        },
    decreases 8 - from,
{
    if from < 8 {
        law_spots_are_found_in_order(states, feet, (from + 1) as u32);
    }
}

/// What is found is the first niche with ground at the level of the feet, from the given one
/// on.
pub proof fn law_niches_are_found_in_order(states: &States, feet: Pos, from: u32)
    ensures
        match first_niche(states, feet, from) {
            Some(k) => from <= k < 4 && has_ground(*states, spot(feet, k as int)) && forall|j: int|
                from <= j < k ==> !has_ground(*states, #[trigger] spot(feet, j)),
            None => forall|j: int| from <= j < 4 ==> !has_ground(*states, #[trigger] spot(feet, j)),
        },
    decreases 4 - from,
{
    if from < 4 {
        law_niches_are_found_in_order(states, feet, (from + 1) as u32);
    }
}

/// Every cell that will do is tried in order, then every niche; the search is given up only
/// with no table in hand or with none of them left.
pub proof fn law_every_spot_is_tried(phase: PutPhase, states: &States, feet: Pos, ok: bool)
    requires
        put_wf(phase),
        phase != PutPhase::Over,
    ensures
        ({
            let (next, action) = place_crafting_table_next(phase, states, feet, ok);
            let spots = match phase {
                PutPhase::Selected => if ok {
                    Some(0u32)
                } else {
                    None
                },
                PutPhase::Tried(k) => if ok {
                    None
                } else {
                    Some((k + 1) as u32)
                },
                _ => None,
            };
            let dug = phase matches PutPhase::Dug(k) && ok && spot_is_open(states, feet, k);
            let niches = match phase {
                PutPhase::Dug(k) => if dug {
                    None
                } else {
                    Some((k + 1) as u32)
                },
                PutPhase::Niche(k) => if ok {
                    None
                } else {
                    Some((k + 1) as u32)
                },
                _ => if spots matches Some(from) && first_spot(states, feet, from) is None {
                    Some(0u32)
                } else {
                    None
                },
            };
            &&& action == PutAction::Select <==> phase == PutPhase::Start
            &&& action == PutAction::Select ==> next == PutPhase::Selected
            &&& action == PutAction::GiveUp <==> (phase == PutPhase::Selected && !ok) || (niches matches Some(
                from,
            ) && first_niche(states, feet, from) is None)
            &&& spots matches Some(from) ==> (first_spot(states, feet, from) matches Some(k) ==> next
                == PutPhase::Tried(k) && action == PutAction::PlaceIn(spot(feet, k as int)))
            &&& niches matches Some(from) ==> (first_niche(states, feet, from) matches Some(k) ==> if is_empty_cell(
                *states,
                spot(feet, k as int),
            ) {
                next == PutPhase::Niche(k) && action == PutAction::PlaceIn(spot(feet, k as int))
            } else {
                next == PutPhase::Dug(k) && action == PutAction::Dig(spot(feet, k as int))
            })
            &&& phase matches PutPhase::Dug(k) ==> (dug ==> next == PutPhase::Niche(k) && action
                == PutAction::PlaceIn(spot(feet, k as int)))
            &&& action is Placed <==> ok && (phase is Tried || phase is Niche)
            &&& action is Placed || action == PutAction::GiveUp <==> next == PutPhase::Over
        }),
{
}

/// Nine species of logs are looked for, and 28 occupied slots are a crowd.
pub proof fn law_logs_of_nine_species()
    ensures
        LOG_TYPES[0]@ == "oak_log"@,
        LOG_TYPES[1]@ == "birch_log"@,
        LOG_TYPES[2]@ == "spruce_log"@,
        LOG_TYPES[3]@ == "jungle_log"@,
        LOG_TYPES[4]@ == "acacia_log"@,
        LOG_TYPES[5]@ == "dark_oak_log"@,
        LOG_TYPES[6]@ == "mangrove_log"@,
        LOG_TYPES[7]@ == "cherry_log"@,
        LOG_TYPES[8]@ == "pale_oak_log"@,
        CROWDED == 28,
        COBBLE_KEPT == 64,
        STICKS_KEPT == 16,
{
}

} // verus!
