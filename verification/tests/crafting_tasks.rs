use ruststeve::bot_utils::{
    cell_beside, collect_drops, craft_item, get_crafting_table, head_in_water, is_capped, is_crowded, is_drop,
    is_open_spot, leave_water, next_niche, next_spot, place_crafting_table, place_table_confirmed, remembered_table,
    report_craft, select_item, slot_of, start_craft, tidy_inventory, ConfirmAction, ConfirmPhase, CraftAction, CraftEnd,
    CraftPhase, CraftSeen, PickUpAction, PutAction, PutPhase, SelectAction, SelectEnd, SwimAction, Swimmer,
    TableAction, TablePhase, TableSeen,
};
use ruststeve::items::{find_from, Stack};
use ruststeve::memory::{PoiKind, PoiStatus, WorldMemory};
use ruststeve::tasks::bucket::{
    fill_water_buckets, find_water, report_water, WaterAction, WaterEnd, WaterPhase, WaterSeen,
};
use ruststeve::tasks::craft::{
    craft_at_table, craft_buckets, craft_crafting_table, craft_furnace, craft_iron_pickaxe, craft_planks,
    craft_sticks, craft_stone_pickaxe, craft_stone_sword, craft_wooden_pickaxe, get_flint_and_steel, plank_jobs,
    report_buckets, report_no_flint, report_no_table, report_planks, AtTableAction, AtTablePhase, AtTableSeen,
    BatchAction, BucketAction, BucketSeen, FlintAction, FlintPhase, HandItem, PlanksAction, PlanksPhase, TableItem,
    TablePlan,
};
use ruststeve::tasks::food::{
    animal_type_ids, count_food, gather_food, nearest_animal, report_food, sword_name, EntityKind, HuntAction,
    HuntEnd, HuntPhase, HuntSeen, Sighted,
};
use ruststeve::tasks::smelt::{
    furnace_beside, get_furnace, is_furnace, load_slot, report_smelt, slot_empty, smelt_iron, Feed, HearthAction,
    HearthPhase, HearthSeen, LoadAction, LoadPhase, SmeltAction, SmeltEnd, SmeltPhase, SmeltSeen, FUEL_SLOT, ORE_SLOT,
};
use ruststeve::types::Tier;
use ruststeve::world::{Blocks, Grid, States};

type Pos = (i32, i32, i32);

fn blocks(min: Pos, size: usize, named: &[(Pos, &str)]) -> Blocks {
    let mut cells = vec![vec![vec![None; size]; size]; size];
    for (p, name) in named {
        cells[(p.0 - min.0) as usize][(p.1 - min.1) as usize][(p.2 - min.2) as usize] = Some(name.to_string());
    }
    Grid { min, cells }
}

fn states(min: Pos, size: usize, fill: u32, set: &[(Pos, u32)]) -> States {
    let mut cells = vec![vec![vec![fill; size]; size]; size];
    for (p, s) in set {
        cells[(p.0 - min.0) as usize][(p.1 - min.1) as usize][(p.2 - min.2) as usize] = *s;
    }
    Grid { min, cells }
}

fn stack(name: &str, count: i32) -> Option<Stack> {
    Some(Stack { name: name.to_string(), count })
}

#[test]
fn a_submerged_head_is_noticed() {
    let b = blocks((0, 0, 0), 2, &[((0, 1, 0), "water"), ((1, 1, 0), "stone"), ((0, 0, 0), "cave_air")]);
    assert!(head_in_water(&b, (0, 1, 0)));
    assert!(!head_in_water(&b, (1, 1, 0)));
    assert!(is_capped(&b, (1, 1, 0)));
    assert!(!is_capped(&b, (0, 1, 0)));
    assert!(!is_capped(&b, (0, 0, 0)));
    assert!(!is_capped(&b, (1, 1, 1)));
}

#[test]
fn water_is_left_by_swimming_or_digging() {
    let at = Swimmer { head: (0, 1, 0), above: (0, 2, 0) };
    let open = blocks((0, 0, 0), 3, &[((0, 1, 0), "water"), ((0, 2, 0), "water")]);
    let under_stone = blocks((0, 0, 0), 3, &[((0, 1, 0), "water"), ((0, 2, 0), "stone")]);
    let dry = blocks((0, 0, 0), 3, &[((0, 1, 0), "air")]);
    assert_eq!(leave_water(0, 80, &open, at, false), (1, SwimAction::Swim));
    assert_eq!(leave_water(1, 80, &under_stone, at, false), (5, SwimAction::DigUp((0, 2, 0))));
    assert_eq!(leave_water(80, 80, &open, at, false), (80, SwimAction::Done(false)));
    assert_eq!(leave_water(3, 80, &dry, at, false), (3, SwimAction::Done(true)));
    assert_eq!(leave_water(3, 80, &open, at, true), (3, SwimAction::Done(false)));
}

#[test]
fn junk_and_surplus_are_dropped() {
    let slots = vec![
        stack("cobblestone", 40),
        stack("dirt", 1),
        stack("cobblestone", 30),
        None,
        stack("stick", 16),
        stack("stick", 1),
        stack("iron_ingot", 64),
        stack("cobblestone", 1),
        stack("raw_copper", 3),
    ];
    assert_eq!(tidy_inventory(&slots), vec![1, 2, 5, 7, 8]);
    assert!(tidy_inventory(&vec![stack("cobblestone", 64), stack("stick", 16), stack("flint", 9)]).is_empty());
    assert!(tidy_inventory(&vec![stack("oak_planks", 64), stack("iron_axe", 1), stack("gravel", 64)]).is_empty());
}

#[test]
fn an_inventory_is_crowded_from_28_slots_on() {
    let mut slots = vec![stack("dirt", 1); 27];
    slots.push(None);
    assert!(!is_crowded(&slots));
    slots.push(stack("dirt", 1));
    assert!(is_crowded(&slots));
}

#[test]
fn drops_are_told_from_other_entities() {
    assert!(is_drop(None, Some(4)));
    assert!(is_drop(Some(4), Some(4)));
    assert!(!is_drop(Some(4), Some(5)));
    assert!(!is_drop(Some(4), None));
    assert_eq!(collect_drops(40, 10, 10, false), (39, PickUpAction::Walk));
    assert_eq!(collect_drops(40, 10, 11, false), (40, PickUpAction::Stop));
    assert_eq!(collect_drops(40, 10, 10, true), (40, PickUpAction::Stop));
    assert_eq!(collect_drops(0, 10, 10, false), (0, PickUpAction::Stop));
}

#[test]
fn an_item_is_taken_in_hand() {
    let slots = vec![None, stack("dirt", 1), stack("bucket", 1), stack("bucket", 1)];
    assert_eq!(slot_of(&slots, "bucket"), Some(2));
    assert_eq!(slot_of(&slots, "flint"), None);
    let none: Option<String> = None;
    let hand = |name: &str| Some(name.to_string());
    let at = |slot: usize| {
        let mut slots = vec![None; 46];
        slots[slot] = stack("bucket", 1);
        slots
    };
    assert_eq!(select_item(0, &none, &at(40), "bucket"), (1, SelectAction::Hold(4)));
    assert_eq!(select_item(1, &hand("dirt"), &at(36), "bucket"), (2, SelectAction::Hold(0)));
    assert_eq!(select_item(1, &none, &at(45), "bucket"), (2, SelectAction::SwapIn(45)));
    assert_eq!(select_item(1, &none, &at(12), "bucket"), (2, SelectAction::SwapIn(12)));
    assert_eq!(select_item(2, &hand("bucket"), &at(12), "bucket"), (2, SelectAction::Done(SelectEnd::Held)));
    assert_eq!(select_item(2, &none, &at(12), "flint"), (2, SelectAction::Done(SelectEnd::NotCarried)));
    assert_eq!(select_item(5, &none, &at(12), "flint"), (5, SelectAction::Done(SelectEnd::NotCarried)));
    assert_eq!(select_item(5, &none, &at(12), "bucket"), (5, SelectAction::Done(SelectEnd::Unconfirmed)));
    assert_eq!(select_item(5, &hand("bucket"), &at(12), "bucket"), (5, SelectAction::Done(SelectEnd::Held)));
}

fn craft_seen() -> CraftSeen {
    CraftSeen { known: true, recipe: true, needs_table: false, crowded: false, have: 0, window: false, ok: true }
}

#[test]
fn crafts_are_refused_for_their_reasons() {
    let start = start_craft(false, 4, 1);
    assert_eq!(
        craft_item(start, CraftSeen { known: false, ..craft_seen() }).1,
        CraftAction::Done(CraftEnd::UnknownItem)
    );
    assert_eq!(
        craft_item(start, CraftSeen { recipe: false, ..craft_seen() }).1,
        CraftAction::Done(CraftEnd::NoRecipe)
    );
    assert_eq!(
        craft_item(start, CraftSeen { needs_table: true, ..craft_seen() }).1,
        CraftAction::Done(CraftEnd::NeedsTable)
    );
}

#[test]
fn a_craft_at_a_table_opens_it() {
    let mut s = start_craft(true, 1, 1);
    let mut seen = CraftSeen { needs_table: true, crowded: true, have: 3, ..craft_seen() };
    let mut actions = Vec::new();
    loop {
        let (next, action) = craft_item(s, seen);
        s = next;
        actions.push(action);
        match action {
            CraftAction::Wait => seen.have = 4,
            CraftAction::Done(_) => break,
            _ => {}
        }
    }
    assert_eq!(
        actions,
        vec![
            CraftAction::WalkToTable,
            CraftAction::Tidy,
            CraftAction::OpenTable,
            CraftAction::Craft,
            CraftAction::Wait,
            CraftAction::Done(CraftEnd::Crafted(4)),
        ]
    );
}

#[test]
fn a_craft_is_tried_three_times_and_then_given_up() {
    let mut s = start_craft(false, 4, 2);
    assert_eq!(s.made, 8);
    let mut crafts = 0;
    let mut waits = 0;
    loop {
        let (next, action) = craft_item(s, craft_seen());
        s = next;
        match action {
            CraftAction::Craft => crafts += 1,
            CraftAction::Wait => waits += 1,
            CraftAction::Done(end) => {
                assert_eq!(end, CraftEnd::NeverAppeared);
                break;
            }
            _ => panic!("unexpected"),
        }
    }
    assert_eq!((crafts, waits), (3, 24));
    assert_eq!(s.phase, CraftPhase::Over);
    assert_eq!(start_craft(false, 0, -5).made, 1);
}

#[test]
fn a_partial_craft_counts_once_the_tries_are_over() {
    let mut s = start_craft(false, 4, 2);
    let mut seen = craft_seen();
    let end = loop {
        let (next, action) = craft_item(s, seen);
        s = next;
        match action {
            CraftAction::Craft => seen.have = 4,
            CraftAction::Done(end) => break end,
            _ => {}
        }
    };
    assert_eq!(end, CraftEnd::Crafted(4));
    let (s, _) = craft_item(start_craft(false, 1, 1), craft_seen());
    assert_eq!(craft_item(s, CraftSeen { ok: false, ..craft_seen() }).1, CraftAction::Done(CraftEnd::Failed));
}

#[test]
fn crafts_are_reported() {
    assert_eq!(report_craft(CraftEnd::UnknownItem, "stick", "").message, "unknown item stick");
    assert_eq!(report_craft(CraftEnd::NoRecipe, "stick", "").message, "no recipe for stick");
    assert_eq!(report_craft(CraftEnd::NeedsTable, "furnace", "").message, "furnace needs a crafting table");
    let ok = report_craft(CraftEnd::Crafted(8), "stick", "");
    assert!(ok.success);
    assert_eq!(ok.message, "crafted stick (have 8)");
    assert_eq!(
        report_craft(CraftEnd::NeverAppeared, "stick", "").message,
        "craft stick: result never appeared (server didn't make it)"
    );
    let e = report_craft(CraftEnd::Failed, "stick", "Broken pipe (os error 32)");
    assert!(!e.success);
    assert_eq!(e.message, "craft stick: Broken pipe (os error 32)");
}

fn table_seen() -> TableSeen {
    TableSeen { remembered: None, found: None, carried: 0 }
}

#[test]
fn a_remembered_table_is_reused() {
    let spot = (5, 64, 5);
    let seen = TableSeen { remembered: Some(spot), ..table_seen() };
    let block = |name: &str| Some(name.to_string());
    let (p, a) = get_crafting_table(TablePhase::Start, &None, seen);
    assert_eq!(a, TableAction::WalkTo(spot));
    assert_eq!(get_crafting_table(p, &block("crafting_table"), seen).1, TableAction::Use(spot));
    let (q, a) = get_crafting_table(p, &block("air"), seen);
    assert_eq!(a, TableAction::Forget(spot));
    let found = TableSeen { found: Some((1, 1, 1)), ..seen };
    assert_eq!(get_crafting_table(q, &block("air"), found).1, TableAction::Adopt((1, 1, 1)));
    // Not loaded: it stays on the map, and another is placed for now.
    assert_eq!(get_crafting_table(p, &None, TableSeen { carried: 1, ..seen }).1, TableAction::Place);
}

#[test]
fn the_nearest_table_on_the_map_is_remembered() {
    let mut m = match WorldMemory::open(":memory:") {
        Ok(m) => m,
        Err(_) => panic!("no memory"),
    };
    assert_eq!(remembered_table(&m, (0, 0, 0)), None);
    assert!(m.record(PoiKind::CraftingTable, (9, 0, 0), PoiStatus::Available));
    assert!(m.record(PoiKind::CraftingTable, (4, 0, 0), PoiStatus::Available));
    assert!(m.record(PoiKind::Furnace, (1, 0, 0), PoiStatus::Available));
    assert_eq!(remembered_table(&m, (0, 0, 0)), Some((4, 0, 0)));
    assert!(m.mark((4, 0, 0), PoiStatus::Gone));
    assert_eq!(remembered_table(&m, (0, 0, 0)), Some((9, 0, 0)));
}

#[test]
fn a_table_is_crafted_on_demand() {
    let carried = TableSeen { carried: 1, ..table_seen() };
    let (p, a) = get_crafting_table(TablePhase::Start, &None, table_seen());
    assert_eq!(a, TableAction::CraftTable);
    assert_eq!(get_crafting_table(p, &None, table_seen()).1, TableAction::GiveUp);
    assert_eq!(get_crafting_table(p, &None, carried).1, TableAction::Place);
    assert_eq!(get_crafting_table(TablePhase::Start, &None, carried).1, TableAction::Place);
}

#[test]
fn a_table_counts_only_if_it_is_there() {
    let (p, a) = place_table_confirmed(ConfirmPhase::Start, false, false);
    assert_eq!(a, ConfirmAction::Select);
    assert_eq!(place_table_confirmed(p, false, false).1, ConfirmAction::Done(false));
    let (p, a) = place_table_confirmed(p, true, false);
    assert_eq!(a, ConfirmAction::Place);
    assert_eq!(place_table_confirmed(p, true, false).1, ConfirmAction::Done(false));
    assert_eq!(place_table_confirmed(p, true, true).1, ConfirmAction::Done(true));
}

#[test]
fn tables_go_beside_the_feet() {
    let feet = (0, 64, 0);
    assert_eq!(cell_beside(feet, 0), (1, 64, 0));
    assert_eq!(cell_beside(feet, 3), (0, 64, -1));
    assert_eq!(cell_beside(feet, 5), (-1, 63, 0));
    // Flat ground at 63, air above.
    let mut ground = Vec::new();
    for x in -3..=3 {
        for z in -3..=3 {
            ground.push(((x, 63, z), 1));
        }
    }
    let flat = states((-3, 61, -3), 7, 0, &ground);
    assert_eq!(next_spot(&flat, feet, 0), Some(0));
    assert_eq!(next_spot(&flat, feet, 4), None);
    assert!(is_open_spot(&flat, feet, 0));
    let tunnel = states((-3, 61, -3), 7, 1, &[((0, 64, 0), 0), ((0, 65, 0), 0)]);
    assert_eq!(next_spot(&tunnel, feet, 0), None);
    assert_eq!(next_niche(&tunnel, feet, 2), Some(2));
    assert_eq!(next_niche(&tunnel, feet, 4), None);
}

#[test]
fn a_table_is_placed_in_the_first_cell_that_holds_it() {
    let feet = (0, 64, 0);
    let mut ground = Vec::new();
    for x in -3..=3 {
        for z in -3..=3 {
            ground.push(((x, 63, z), 1));
        }
    }
    let flat = states((-3, 61, -3), 7, 0, &ground);
    let (p, a) = place_crafting_table(PutPhase::Start, &flat, feet, false);
    assert_eq!(a, PutAction::Select);
    assert_eq!(place_crafting_table(p, &flat, feet, false).1, PutAction::GiveUp);
    let (p, a) = place_crafting_table(p, &flat, feet, true);
    assert_eq!(a, PutAction::PlaceIn((1, 64, 0)));
    assert_eq!(place_crafting_table(p, &flat, feet, true).1, PutAction::Placed((1, 64, 0)));
    let (p, a) = place_crafting_table(p, &flat, feet, false);
    assert_eq!(a, PutAction::PlaceIn((-1, 64, 0)));
    assert_eq!(p, PutPhase::Tried(1));
}

#[test]
fn a_niche_is_dug_in_a_tunnel() {
    let feet = (0, 64, 0);
    let tunnel = states((-3, 61, -3), 7, 1, &[((0, 64, 0), 0), ((0, 65, 0), 0)]);
    let opened = states((-3, 61, -3), 7, 1, &[((0, 64, 0), 0), ((0, 65, 0), 0), ((1, 64, 0), 0)]);
    let (p, a) = place_crafting_table(PutPhase::Selected, &tunnel, feet, true);
    assert_eq!(a, PutAction::Dig((1, 64, 0)));
    assert_eq!(place_crafting_table(p, &tunnel, feet, true).1, PutAction::Dig((-1, 64, 0)));
    assert_eq!(place_crafting_table(p, &tunnel, feet, false).1, PutAction::Dig((-1, 64, 0)));
    let (p, a) = place_crafting_table(p, &opened, feet, true);
    assert_eq!(a, PutAction::PlaceIn((1, 64, 0)));
    assert_eq!(place_crafting_table(p, &opened, feet, true).1, PutAction::Placed((1, 64, 0)));
    let mut phase = PutPhase::Start;
    let mut steps = 0;
    while phase != PutPhase::Over {
        let ok = phase == PutPhase::Selected;
        phase = place_crafting_table(phase, &tunnel, feet, ok).0;
        steps += 1;
    }
    assert!(steps <= 40);
}

#[test]
fn planks_are_made_of_each_stack_of_logs() {
    let jobs = plank_jobs(&vec![stack("oak_log", 3), stack("dirt", 1), stack("dark_oak_log", 20)]);
    assert_eq!(jobs.len(), 2);
    assert_eq!((jobs[0].planks.as_str(), jobs[0].count), ("oak_planks", 3));
    assert_eq!((jobs[1].planks.as_str(), jobs[1].count), ("dark_oak_planks", 8));
    let (p, a) = craft_planks(PlanksPhase::Job(0), 2, false);
    assert_eq!(a, PlanksAction::Craft(0));
    let (p, a) = craft_planks(p, 2, false);
    assert_eq!(a, PlanksAction::CraftInstead(HandItem::OakPlanks, 0));
    let (p, a) = craft_planks(p, 2, false);
    assert_eq!(a, PlanksAction::Craft(1));
    assert_eq!(craft_planks(p, 2, true).1, PlanksAction::Done(true));
    assert_eq!(craft_planks(PlanksPhase::Job(0), 0, true).1, PlanksAction::Done(false));
    assert_eq!(report_planks(true).message, "crafted planks from logs");
    assert!(report_planks(true).success);
    assert_eq!(report_planks(false).message, "no logs in inventory");
    assert!(!report_planks(false).success);
}

#[test]
fn sticks_come_in_two_batches() {
    assert_eq!(craft_sticks(0, false), (1, BatchAction::Craft(HandItem::Stick)));
    assert_eq!(craft_sticks(1, true), (2, BatchAction::Craft(HandItem::Stick)));
    assert_eq!(craft_sticks(1, false), (1, BatchAction::Done));
    assert_eq!(craft_sticks(2, true), (2, BatchAction::Done));
    assert_eq!(craft_crafting_table(0), (1, BatchAction::Craft(HandItem::CraftingTable)));
    assert_eq!(craft_crafting_table(1), (1, BatchAction::Done));
    assert_eq!(HandItem::Stick.name(), "stick");
    assert_eq!(HandItem::CraftingTable.name(), "crafting_table");
    assert_eq!(HandItem::OakPlanks.name(), "oak_planks");
}

#[test]
fn table_crafts_have_their_plans() {
    assert_eq!(craft_wooden_pickaxe().item.name(), "wooden_pickaxe");
    assert_eq!(craft_wooden_pickaxe().sticks, 0);
    assert_eq!((craft_stone_pickaxe().sticks, craft_stone_pickaxe().strict), (2, true));
    assert_eq!(craft_stone_sword().item, TableItem::StoneSword);
    assert_eq!(craft_stone_sword().sticks, 1);
    assert_eq!(craft_furnace().sticks, 0);
    assert_eq!((craft_iron_pickaxe().sticks, craft_iron_pickaxe().strict), (2, false));
    assert_eq!(TableItem::FlintAndSteel.name(), "flint_and_steel");
    assert_eq!(TableItem::Bucket.name(), "bucket");
}

#[test]
fn sticks_are_seen_to_before_the_table() {
    let short = AtTableSeen { sticks: 1, ok: false, table: true };
    let (p, a) = craft_at_table(craft_stone_pickaxe(), AtTablePhase::Start, short);
    assert_eq!(a, AtTableAction::CraftSticks);
    assert_eq!(craft_at_table(craft_stone_pickaxe(), p, short).1, AtTableAction::Done);
    assert_eq!(craft_at_table(craft_iron_pickaxe(), p, short).1, AtTableAction::GetTable);
    let (p, a) = craft_at_table(craft_furnace(), AtTablePhase::Start, short);
    assert_eq!(a, AtTableAction::GetTable);
    let (q, a) = craft_at_table(craft_furnace(), p, short);
    assert_eq!(a, AtTableAction::CraftItem);
    assert_eq!(craft_at_table(craft_furnace(), q, short).1, AtTableAction::Done);
    assert_eq!(craft_at_table(craft_furnace(), p, AtTableSeen { table: false, ..short }).1, AtTableAction::NoTable);
    assert_eq!(report_no_table().message, "need a crafting table");
    assert!(!report_no_table().success);
}

#[test]
fn buckets_are_crafted_while_iron_lasts() {
    let seen = BucketSeen { buckets: 0, water_buckets: 1, iron_ingots: 3, ok: true };
    let plan = TablePlan { item: TableItem::Bucket, sticks: 0, strict: false };
    assert_eq!(craft_buckets(false, 2, seen), (true, BucketAction::Craft(plan)));
    assert_eq!(craft_buckets(true, 2, BucketSeen { buckets: 1, ..seen }).1, BucketAction::Done(1));
    assert_eq!(craft_buckets(false, 2, BucketSeen { iron_ingots: 2, ..seen }).1, BucketAction::Done(0));
    assert_eq!(craft_buckets(true, 2, BucketSeen { ok: false, ..seen }).1, BucketAction::Failed);
    assert_eq!(report_buckets(2).message, "have 2 buckets");
    assert!(report_buckets(0).success);
}

#[test]
fn flint_is_mined_before_it_is_struck() {
    let (p, a) = get_flint_and_steel(FlintPhase::Start, 0);
    assert_eq!(a, FlintAction::MineGravel(1));
    let plan = TablePlan { item: TableItem::FlintAndSteel, sticks: 0, strict: false };
    assert_eq!(get_flint_and_steel(p, 0).1, FlintAction::NoFlint);
    assert_eq!(get_flint_and_steel(p, 1).1, FlintAction::Craft(plan));
    assert_eq!(get_flint_and_steel(FlintPhase::Start, 1).1, FlintAction::Craft(plan));
    assert_eq!(get_flint_and_steel(FlintPhase::Crafted, 1).1, FlintAction::Done);
    assert_eq!(report_no_flint().message, "could not get flint from gravel");
}

#[test]
fn surface_water_is_preferred() {
    let s = states((0, 0, 0), 4, 0, &[((0, 1, 0), 9)]);
    let waters = vec![(0, 0, 0), (1, 0, 0), (2, 0, 0)];
    assert_eq!(find_water(&s, &waters, Some((9, 9, 9))), Some((1, 0, 0)));
    assert_eq!(find_water(&s, &vec![(0, 0, 0)], Some((9, 9, 9))), Some((9, 9, 9)));
    assert_eq!(find_water(&s, &vec![], None), None);
}

fn water_seen() -> WaterSeen {
    WaterSeen { filled: 0, buckets: 2, late: false, any: Some((1, 2, 3)), armed: true }
}

fn fill(phase: WaterPhase, seen: WaterSeen) -> (WaterPhase, WaterAction) {
    let slots = vec![stack("dirt", 1), stack("bucket", 2), stack("bucket", 1)];
    fill_water_buckets(phase, 2, &states((0, 0, 0), 4, 0, &[]), &vec![], &slots, seen)
}

#[test]
fn water_buckets_are_filled_one_by_one() {
    let pool = (1, 2, 3);
    let (p, a) = fill(WaterPhase::Top, water_seen());
    assert_eq!(a, WaterAction::Approach(pool));
    let (p, a) = fill(p, water_seen());
    assert_eq!(a, WaterAction::Select);
    let (p, a) = fill(p, water_seen());
    assert_eq!(a, WaterAction::Aim(pool));
    let (p, a) = fill(p, water_seen());
    assert_eq!(a, WaterAction::Use);
    let (q, a) = fill(p, WaterSeen { filled: 1, buckets: 1, ..water_seen() });
    assert_eq!(a, WaterAction::Approach(pool));
    assert_eq!(q, WaterPhase::At(pool));
    let (q, a) = fill(p, water_seen());
    assert_eq!(a, WaterAction::UseAgain(pool));
    let (q, a) = fill(q, water_seen());
    assert_eq!(a, WaterAction::Predict);
    assert_eq!(fill(q, WaterSeen { filled: 1, buckets: 0, ..water_seen() }).1, WaterAction::Done(WaterEnd::Filled(1)));
    let (q, a) = fill(q, WaterSeen { filled: 2, ..water_seen() });
    assert_eq!(a, WaterAction::UseUp(1));
    assert_eq!(fill(q, WaterSeen { filled: 2, ..water_seen() }).1, WaterAction::Done(WaterEnd::Filled(2)));
}

#[test]
fn buckets_are_filled_at_the_surface() {
    let s = states((0, 0, 0), 4, 0, &[((0, 1, 0), 9)]);
    let waters = vec![(0, 0, 0), (1, 0, 0)];
    let (_, a) = fill_water_buckets(WaterPhase::Top, 2, &s, &waters, &vec![], water_seen());
    assert_eq!(a, WaterAction::Approach((1, 0, 0)));
}

#[test]
fn filling_stops_for_its_reasons() {
    let top = WaterPhase::Top;
    assert_eq!(fill(top, WaterSeen { any: None, ..water_seen() }).1, WaterAction::Done(WaterEnd::NoWater));
    assert_eq!(
        fill(top, WaterSeen { buckets: 0, any: None, ..water_seen() }).1,
        WaterAction::Done(WaterEnd::Filled(0))
    );
    assert_eq!(fill(top, WaterSeen { late: true, ..water_seen() }).1, WaterAction::Done(WaterEnd::Filled(0)));
    assert_eq!(
        fill(WaterPhase::Selected((1, 2, 3)), WaterSeen { armed: false, ..water_seen() }).1,
        WaterAction::Done(WaterEnd::Filled(0))
    );
    assert_eq!(report_water(WaterEnd::NoWater, 2).message, "no water found nearby");
    assert!(!report_water(WaterEnd::NoWater, 2).success);
    assert_eq!(report_water(WaterEnd::Filled(2), 2).message, "filled 2/2 water buckets");
    assert!(report_water(WaterEnd::Filled(2), 2).success);
    assert!(!report_water(WaterEnd::Filled(1), 2).success);
}

#[test]
fn meat_is_counted_without_leather() {
    assert_eq!(count_food(&vec![stack("beef", 2), stack("leather", 5), stack("cooked_rabbit", 1), stack("bread", 4)]), 3);
}

fn entity(name: &str, id: i32) -> EntityKind {
    EntityKind { name: name.to_string(), id }
}

#[test]
fn animals_are_known_by_their_type() {
    let ids = animal_type_ids(&vec![entity("cow", 7), entity("zombie", 8), entity("rabbit", 9)]);
    assert_eq!(ids.len(), 2);
    assert!(ids.contains(&7) && ids.contains(&9));
    let seen = vec![
        Sighted { entity_type: Some(8), key: 1 },
        Sighted { entity_type: None, key: 0 },
        Sighted { entity_type: Some(9), key: 30 },
        Sighted { entity_type: Some(7), key: 20 },
        Sighted { entity_type: Some(9), key: 20 },
    ];
    assert_eq!(nearest_animal(&seen, &ids), Some(3));
    assert_eq!(nearest_animal(&seen[..2].to_vec(), &ids), None);
    assert_eq!(sword_name(Tier::Stone), "stone_sword");
    assert_eq!(sword_name(Tier::Diamond), "diamond_sword");
}

fn hunt_seen() -> HuntSeen {
    HuntSeen { armed: true, food: 0, late: false, lost: false, alive: true, far: false }
}

fn hunt(phase: HuntPhase, seen: HuntSeen) -> (HuntPhase, HuntAction) {
    let ids = animal_type_ids(&vec![entity("cow", 7)]);
    let sighted = vec![Sighted { entity_type: Some(3), key: 1 }, Sighted { entity_type: Some(7), key: 5 }];
    gather_food(phase, 5, &sighted, &ids, seen)
}

#[test]
fn the_best_sword_is_taken() {
    let bare = HuntSeen { armed: false, ..hunt_seen() };
    let (p, a) = hunt(HuntPhase::Arming(0), hunt_seen());
    assert_eq!(a, HuntAction::TakeSword(Tier::Diamond));
    let (p, a) = hunt(p, bare);
    assert_eq!(a, HuntAction::TakeSword(Tier::Iron));
    assert_eq!(hunt(p, hunt_seen()).1, HuntAction::Chase(1));
    let (p, a) = hunt(p, bare);
    assert_eq!(a, HuntAction::TakeSword(Tier::Stone));
    let (p, a) = hunt(p, bare);
    assert_eq!(a, HuntAction::TakeSword(Tier::Wood));
    assert_eq!(hunt(p, bare).1, HuntAction::Chase(1));
}

#[test]
fn an_animal_is_chased_and_struck() {
    let (p, a) = hunt(HuntPhase::Top, hunt_seen());
    assert_eq!(a, HuntAction::Chase(1));
    let (p, a) = hunt(p, HuntSeen { far: true, ..hunt_seen() });
    assert_eq!(a, HuntAction::Close);
    let (p, a) = hunt(p, hunt_seen());
    assert_eq!(a, HuntAction::Attack);
    let (p, a) = hunt(p, HuntSeen { alive: false, ..hunt_seen() });
    assert_eq!(a, HuntAction::Collect);
    assert_eq!(hunt(p, HuntSeen { food: 5, ..hunt_seen() }).1, HuntAction::Done(HuntEnd::Gathered(5)));
}

#[test]
fn a_chase_is_given_up() {
    let mut phase = hunt(HuntPhase::Top, hunt_seen()).0;
    let mut strikes = 0;
    loop {
        let (next, action) = hunt(phase, hunt_seen());
        phase = next;
        match action {
            HuntAction::Attack => strikes += 1,
            HuntAction::Collect => break,
            _ => panic!("unexpected"),
        }
    }
    assert_eq!(strikes, 26);
    let mut phase = hunt(HuntPhase::Top, hunt_seen()).0;
    let mut ticks = 0;
    loop {
        let (next, action) = hunt(phase, HuntSeen { far: true, ..hunt_seen() });
        phase = next;
        match action {
            HuntAction::Close => ticks += 1,
            HuntAction::Collect => break,
            _ => panic!("unexpected"),
        }
    }
    assert_eq!(ticks, 80);
}

#[test]
fn a_hunter_without_prey_wanders() {
    let ids = animal_type_ids(&vec![entity("cow", 7)]);
    let wander = |phase: HuntPhase, seen: HuntSeen| gather_food(phase, 5, &vec![], &ids, seen);
    let mut phase = HuntPhase::Top;
    let mut turns = 0;
    let mut runs = 0;
    for _ in 0..80 {
        let (next, action) = wander(phase, hunt_seen());
        phase = next;
        match action {
            HuntAction::Turn => turns += 1,
            HuntAction::Run => runs += 1,
            _ => panic!("unexpected"),
        }
    }
    assert_eq!((turns, runs), (2, 78));
    assert_eq!(
        wander(phase, HuntSeen { lost: true, ..hunt_seen() }).1,
        HuntAction::Done(HuntEnd::Disconnected)
    );
    assert_eq!(report_food(HuntEnd::Disconnected, 5).message, "disconnected");
    assert!(!report_food(HuntEnd::Disconnected, 5).success);
    assert_eq!(report_food(HuntEnd::Gathered(5), 5).message, "gathered 5/5 food");
    assert!(report_food(HuntEnd::Gathered(5), 5).success);
    assert!(!report_food(HuntEnd::Gathered(4), 5).success);
}

#[test]
fn a_furnace_beside_the_bot_is_found() {
    assert!(is_furnace("furnace"));
    assert!(is_furnace("lit_furnace"));
    assert!(!is_furnace("blast_furnace"));
    let b = blocks((-2, -2, -2), 5, &[((0, 1, -1), "furnace"), ((0, 0, 1), "lit_furnace")]);
    assert_eq!(furnace_beside(&b, (0, 0, 0)), Some((0, 0, 1)));
    let up = blocks((-2, -2, -2), 5, &[((0, 1, -1), "furnace")]);
    assert_eq!(furnace_beside(&up, (0, 0, 0)), Some((0, 1, -1)));
    let over = blocks((-2, -2, -2), 5, &[((0, 1, 0), "furnace")]);
    assert_eq!(furnace_beside(&over, (0, 0, 0)), None);
}

#[test]
fn furnaces_are_reused_or_placed() {
    let feet = (0, 64, 0);
    let tunnel = states((-3, 61, -3), 7, 1, &[((0, 64, 0), 0), ((0, 65, 0), 0)]);
    let opened = states((-3, 61, -3), 7, 1, &[((0, 64, 0), 0), ((1, 64, 0), 0)]);
    let bare = blocks((-2, 62, -2), 5, &[]);
    let beside = blocks((-2, 62, -2), 5, &[((0, 64, 1), "furnace")]);
    let seen = HearthSeen { found: None, carried: 1, ok: true };
    let found = HearthSeen { found: Some((2, 2, 2)), ..seen };
    let start = HearthPhase::Start;
    assert_eq!(get_furnace(start, &beside, &tunnel, feet, found).1, HearthAction::Use((0, 64, 1)));
    assert_eq!(get_furnace(start, &bare, &tunnel, feet, found).1, HearthAction::Use((2, 2, 2)));
    assert_eq!(get_furnace(start, &bare, &tunnel, feet, HearthSeen { carried: 0, ..seen }).1, HearthAction::GiveUp);
    let (p, a) = get_furnace(start, &bare, &tunnel, feet, seen);
    assert_eq!(a, HearthAction::Select);
    assert_eq!(get_furnace(p, &bare, &tunnel, feet, HearthSeen { ok: false, ..seen }).1, HearthAction::GiveUp);
    let (p, a) = get_furnace(p, &bare, &tunnel, feet, seen);
    assert_eq!(a, HearthAction::Dig((1, 64, 0)));
    assert_eq!(get_furnace(p, &bare, &tunnel, feet, seen).1, HearthAction::Dig((-1, 64, 0)));
    let (p, a) = get_furnace(p, &bare, &opened, feet, seen);
    assert_eq!(a, HearthAction::PlaceIn((1, 64, 0)));
    let placed = blocks((-2, 62, -2), 5, &[((1, 64, 0), "furnace")]);
    assert_eq!(get_furnace(p, &placed, &opened, feet, seen).1, HearthAction::Use((1, 64, 0)));
}

#[test]
fn a_furnace_that_was_not_placed_is_not_used() {
    let feet = (0, 64, 0);
    let floor = states(
        (-3, 61, -3),
        7,
        1,
        &[((1, 64, 0), 0), ((-1, 64, 0), 0), ((0, 64, 1), 0), ((0, 64, -1), 0), ((0, 64, 0), 0)],
    );
    let bare = blocks((-2, 62, -2), 5, &[]);
    let seen = HearthSeen { found: None, carried: 1, ok: true };
    let mut phase = HearthPhase::Start;
    let mut actions = Vec::new();
    while phase != HearthPhase::Over {
        let (next, action) = get_furnace(phase, &bare, &floor, feet, seen);
        phase = next;
        actions.push(action);
    }
    assert_eq!(
        actions,
        vec![
            HearthAction::Select,
            HearthAction::PlaceIn((1, 64, 0)),
            HearthAction::PlaceIn((-1, 64, 0)),
            HearthAction::PlaceIn((0, 64, 1)),
            HearthAction::PlaceIn((0, 64, -1)),
            HearthAction::GiveUp,
        ]
    );
    let lit = blocks((-2, 62, -2), 5, &[((-1, 64, 0), "lit_furnace")]);
    let (second, _) = get_furnace(HearthPhase::Placed(0), &bare, &floor, feet, seen);
    assert_eq!(get_furnace(second, &lit, &floor, feet, seen).1, HearthAction::Use((-1, 64, 0)));
}

#[test]
fn stacks_are_moved_into_the_furnace() {
    let window = vec![stack("coal", 1), None, None, stack("dirt", 1), stack("coal", 9)];
    assert_eq!(find_from(&window, 3, "coal"), Some(4));
    assert_eq!(find_from(&window, 3, "raw_iron"), None);
    assert_eq!(find_from(&window, 9, "coal"), None);
    let load = |phase: LoadPhase, feed: Feed, carrying: bool| {
        load_slot(phase, &window, 3, feed.name(), feed.slot(), carrying)
    };
    let (p, a) = load(LoadPhase::Start, Feed::Coal, false);
    assert_eq!(a, LoadAction::Click(4));
    let (p, a) = load(p, Feed::Coal, true);
    assert_eq!(a, LoadAction::Click(1));
    assert_eq!(load(p, Feed::Coal, false).1, LoadAction::Done(true));
    let (p, a) = load(p, Feed::Coal, true);
    assert_eq!(a, LoadAction::Click(4));
    assert_eq!(load(p, Feed::Coal, false).1, LoadAction::Done(true));
    assert_eq!(load(LoadPhase::Start, Feed::RawIron, false).1, LoadAction::Done(false));
    assert_eq!((Feed::RawIron.name(), Feed::RawIron.slot()), ("raw_iron", ORE_SLOT));
    assert_eq!((Feed::Charcoal.name(), Feed::Charcoal.slot()), ("charcoal", FUEL_SLOT));
    assert!(slot_empty(&window, 1));
    assert!(!slot_empty(&window, 0));
    assert!(slot_empty(&window, 99));
}

fn smelt_seen() -> SmeltSeen {
    SmeltSeen { furnace: true, open: true, loaded: true, late: false, ingots: 0, raw_iron: 5, coal: 3, charcoal: 0 }
}

/// The window of a furnace with or without ore, fuel and ingots in it.
fn furnace(ore: bool, fuel: bool, output: bool) -> Vec<Option<Stack>> {
    let put = |there: bool, name: &str| if there { stack(name, 1) } else { None };
    vec![put(ore, "raw_iron"), put(fuel, "coal"), put(output, "iron_ingot"), stack("raw_iron", 5)]
}

fn smelt_to(phase: SmeltPhase, window: &Vec<Option<Stack>>, seen: SmeltSeen) -> (SmeltPhase, SmeltAction) {
    smelt_iron(phase, 11, window, seen)
}

#[test]
fn iron_is_loaded_and_smelted() {
    let burning = furnace(true, true, false);
    let mut phase = SmeltPhase::Start;
    let mut actions = Vec::new();
    for _ in 0..6 {
        let (next, action) = smelt_to(phase, &burning, smelt_seen());
        phase = next;
        actions.push(action);
    }
    assert_eq!(
        actions,
        vec![
            SmeltAction::GetFurnace,
            SmeltAction::Open,
            SmeltAction::Load(Feed::RawIron),
            SmeltAction::Load(Feed::Coal),
            SmeltAction::Wait,
            SmeltAction::Wait,
        ]
    );
    let dry = SmeltSeen { loaded: false, ..smelt_seen() };
    assert_eq!(smelt_to(SmeltPhase::FirstCoal, &burning, dry).1, SmeltAction::Load(Feed::Charcoal));
}

#[test]
fn slots_are_topped_up() {
    let done = furnace(false, false, true);
    let (p, a) = smelt_to(SmeltPhase::Waited, &done, smelt_seen());
    assert_eq!(a, SmeltAction::TakeIngots);
    let (p, a) = smelt_to(p, &done, smelt_seen());
    assert_eq!(a, SmeltAction::Load(Feed::RawIron));
    let (p, a) = smelt_to(p, &done, smelt_seen());
    assert_eq!(a, SmeltAction::Load(Feed::Coal));
    let loaded = furnace(true, false, false);
    let (q, a) = smelt_to(p, &loaded, SmeltSeen { loaded: false, ..smelt_seen() });
    assert_eq!(a, SmeltAction::Load(Feed::Charcoal));
    assert_eq!(smelt_to(q, &loaded, smelt_seen()), (SmeltPhase::Waited, SmeltAction::Wait));
}

#[test]
fn smelting_ends_when_nothing_is_left() {
    let empty = furnace(false, true, false);
    let last = furnace(false, true, true);
    let done = SmeltSeen { raw_iron: 0, ..smelt_seen() };
    let (p, a) = smelt_to(SmeltPhase::Waited, &empty, done);
    assert_eq!((p, a), (SmeltPhase::Grace, SmeltAction::Wait));
    let (q, a) = smelt_to(p, &last, done);
    assert_eq!(a, SmeltAction::TakeIngots);
    let (q, a) = smelt_to(q, &empty, done);
    assert_eq!(a, SmeltAction::Close);
    assert_eq!(
        smelt_to(q, &empty, SmeltSeen { ingots: 7, ..done }).1,
        SmeltAction::Done(SmeltEnd::Smelted(7))
    );
    assert_eq!(smelt_to(p, &empty, done).1, SmeltAction::Close);
    let late = SmeltSeen { late: true, ..smelt_seen() };
    assert_eq!(smelt_to(SmeltPhase::Taken, &furnace(true, true, false), late).1, SmeltAction::Close);
}

#[test]
fn smelting_is_reported() {
    assert_eq!(
        smelt_to(SmeltPhase::Sought, &vec![], SmeltSeen { furnace: false, ..smelt_seen() }).1,
        SmeltAction::Done(SmeltEnd::NoFurnace)
    );
    assert_eq!(
        smelt_to(SmeltPhase::Opened, &vec![], SmeltSeen { open: false, ..smelt_seen() }).1,
        SmeltAction::Done(SmeltEnd::NotOpened)
    );
    assert_eq!(report_smelt(SmeltEnd::NoFurnace, 11).message, "no furnace to smelt with");
    assert_eq!(report_smelt(SmeltEnd::NotOpened, 11).message, "could not open furnace");
    assert_eq!(report_smelt(SmeltEnd::Smelted(11), 11).message, "smelted 11/11 iron");
    assert!(report_smelt(SmeltEnd::Smelted(11), 11).success);
    assert_eq!(report_smelt(SmeltEnd::Smelted(4), 11).message, "smelted 4/11 iron (partial)");
    assert!(report_smelt(SmeltEnd::Smelted(4), 11).success);
    assert_eq!(report_smelt(SmeltEnd::Smelted(0), 11).message, "smelted no iron");
    assert!(!report_smelt(SmeltEnd::Smelted(0), 11).success);
}
