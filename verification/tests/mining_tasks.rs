use ruststeve::items::Stack;
use ruststeve::memory::{PoiKind, PoiStatus, WorldMemory};
use ruststeve::state::{stock_of, sync_from_bot, Counter};
use ruststeve::tasks::log_search::BlockKind;
use ruststeve::tasks::mining::{
    can_step_down, count_cobble, count_ore_resource, descend_step, dig_down, ensure_pickaxe, equip_pickaxe,
    find_gravel, find_stone, held_is_pickaxe, is_stone, is_stone_at, known_ore, mine_gravel_for_flint, mine_ore,
    mine_stone, observe_blocks, ore_block_matches, ore_depth, ore_kind, ore_kind_tier, ore_states,
    pickaxe_tier_rank, plan_dig_down, record_descent, report_flint, report_ore, report_stone, start_mine_ore,
    start_mine_stone, strip_tunnel, DownAction, DownPhase, DownPlan, DownSeen, EquipAction, GravelAction,
    GravelPhase, GravelSeen, MineStone, OreAction, OreEnd, OrePhase, OreSeen, Pickaxe, StairAction, StairPhase,
    StairSeen, StoneAction, StoneEnd, StoneSeen, Vein, VeinAction, PICKAXES,
};
use ruststeve::world::{Blocks, Grid, States};

type Pos = (i32, i32, i32);

fn blocks(min: Pos, size: usize, named: &[(Pos, &str)]) -> Blocks {
    let mut cells = vec![vec![vec![None; size]; size]; size];
    for (p, name) in named {
        cells[(p.0 - min.0) as usize][(p.1 - min.1) as usize][(p.2 - min.2) as usize] = Some(name.to_string());
    }
    Grid { min, cells }
}

fn states(min: Pos, size: usize, fill: u32, set: &[(Pos, u32)]) -> States {
    let mut cells = vec![vec![vec![fill; size]; size]; size];
    for (p, s) in set {
        cells[(p.0 - min.0) as usize][(p.1 - min.1) as usize][(p.2 - min.2) as usize] = *s;
    }
    Grid { min, cells }
}

fn stack(name: &str, count: i32) -> Option<Stack> {
    Some(Stack { name: name.to_string(), count })
}

fn memory() -> WorldMemory {
    match WorldMemory::open(":memory:") {
        Ok(m) => m,
        Err(_) => panic!("no memory"),
    }
}

#[test]
fn the_way_down_is_remembered() {
    let mut m = memory();
    assert!(record_descent(&mut m, (3, 70, -2)));
    assert_eq!(m.nearest(&[PoiKind::DescentPoint], (0, 0, 0), 0).unwrap().pos, (3, 70, -2));
}

#[test]
fn stone_is_recognised_and_counted() {
    assert!(is_stone("tuff"));
    assert!(is_stone("cobbled_deepslate"));
    assert!(!is_stone("dirt"));
    assert!(!is_stone("stone_bricks"));
    assert_eq!(count_cobble(&vec![stack("cobblestone", 5), None, stack("cobbled_deepslate", 2), stack("stone", 9)]), 7);
}

#[test]
fn the_nearest_stone_is_found() {
    let b = blocks((-5, -5, -5), 11, &[((3, 0, 0), "stone"), ((0, -2, 0), "granite"), ((0, 0, 2), "andesite")]);
    assert!(is_stone_at(&b, 3, 0, 0));
    assert!(!is_stone_at(&b, 1, 0, 0));
    // (0, -2, 0) and (0, 0, 2) tie; the lower one comes first.
    assert_eq!(find_stone(&b, (0, 0, 0), 4), Some((0, -2, 0)));
    assert_eq!(find_stone(&b, (0, 0, 0), 1), None);
}

#[test]
fn gravel_is_looked_for_mostly_below() {
    let b = blocks((-25, -25, -25), 51, &[((0, 7, 0), "gravel"), ((20, -12, 20), "gravel")]);
    assert_eq!(find_gravel(&b, (0, 0, 0)), Some((20, -12, 20)));
    assert_eq!(find_gravel(&b, (0, 1, 0)), Some((0, 7, 0)));
    assert_eq!(find_gravel(&b, (0, 2, 0)), Some((0, 7, 0)));
    assert_eq!(find_gravel(&b, (-1, 0, 0)), None);
}

#[test]
fn the_floor_is_not_opened_into_danger() {
    let solid = states((-4, -4, -4), 9, 1, &[]);
    let dry = blocks((-4, -4, -4), 9, &[]);
    assert_eq!(plan_dig_down(&dry, &solid, (0, 0, 0), -64), DownPlan::Dig);
    for wet in [(0, 0, 0), (0, -1, 0), (1, 0, 0), (-1, 0, 0), (0, 0, 1), (0, 0, -1)] {
        let b = blocks((-4, -4, -4), 9, &[(wet, "water")]);
        assert_eq!(plan_dig_down(&b, &solid, (0, 0, 0), -64), DownPlan::Refuse);
    }
    let two_below = blocks((-4, -4, -4), 9, &[((0, -2, 0), "lava")]);
    assert_eq!(plan_dig_down(&two_below, &solid, (0, 0, 0), -64), DownPlan::Dig);
    let drop = states((-4, -4, -4), 9, 1, &[((0, -1, 0), 0), ((0, -2, 0), 0), ((0, -3, 0), 0)]);
    assert_eq!(plan_dig_down(&dry, &drop, (0, 0, 0), -64), DownPlan::Refuse);
    let shallow = states((-4, -4, -4), 9, 1, &[((0, -1, 0), 0), ((0, -2, 0), 0)]);
    assert_eq!(plan_dig_down(&dry, &shallow, (0, 0, 0), -64), DownPlan::Dig);
    let open = states((-4, -4, -4), 9, 1, &[((0, 0, 0), 0)]);
    assert_eq!(plan_dig_down(&dry, &open, (0, 0, 0), -64), DownPlan::Fall);
    assert_eq!(plan_dig_down(&dry, &solid, (0, 0, 0), -4), DownPlan::Refuse);
    assert_eq!(plan_dig_down(&dry, &solid, (0, 0, 0), -5), DownPlan::Dig);
}

#[test]
fn a_dig_counts_only_if_the_bot_came_down() {
    let at = (0, 0, 0);
    let dry = blocks((-4, -4, -4), 9, &[]);
    let wet = blocks((-4, -4, -4), 9, &[((0, -1, 0), "lava")]);
    let solid = states((-4, -4, -4), 9, 1, &[]);
    let open = states((-4, -4, -4), 9, 1, &[((0, 0, 0), 0)]);
    let seen = DownSeen { dug: true, lower: false };
    let (p, a) = dig_down(DownPhase::Start, &dry, &solid, at, -64, seen);
    assert_eq!(a, DownAction::Dig(at));
    assert_eq!(dig_down(p, &dry, &solid, at, -64, DownSeen { dug: false, ..seen }).1, DownAction::Done(false));
    let (p, a) = dig_down(p, &dry, &solid, at, -64, seen);
    assert_eq!(a, DownAction::Wait);
    assert_eq!(dig_down(p, &dry, &solid, at, -64, seen).1, DownAction::Done(false));
    assert_eq!(dig_down(p, &dry, &solid, at, -64, DownSeen { lower: true, ..seen }).1, DownAction::Done(true));
    let (p, a) = dig_down(DownPhase::Start, &dry, &open, at, -64, seen);
    assert_eq!(a, DownAction::Wait);
    assert_eq!(dig_down(p, &dry, &open, at, -64, seen).1, DownAction::Done(true));
    assert_eq!(dig_down(DownPhase::Start, &wet, &solid, at, -64, seen).1, DownAction::Done(false));
}

#[test]
fn a_stair_step_opens_head_feet_and_step() {
    let dry = blocks((6, 36, 6), 9, &[]);
    let wet = blocks((6, 36, 6), 9, &[((10, 38, 11), "water")]);
    let seen = StairSeen { moved: false, lower: true };
    let at = (10, 40, 10);
    let mut phase = StairPhase::Start;
    let mut actions = Vec::new();
    loop {
        let (next, action) = descend_step(phase, &dry, at, -64, (0, 1), seen);
        phase = next;
        actions.push(action);
        if let StairAction::Done(_) = action {
            break;
        }
    }
    assert_eq!(
        actions,
        vec![
            StairAction::Dig((10, 41, 11)),
            StairAction::Dig((10, 40, 11)),
            StairAction::Dig((10, 39, 11)),
            StairAction::Walk((10, 39, 11)),
            StairAction::Nudge((10, 39, 11)),
            StairAction::Done(true),
        ]
    );
    assert_eq!(
        descend_step(StairPhase::Walked, &dry, at, -64, (0, 1), StairSeen { moved: true, lower: false }).1,
        StairAction::Done(false)
    );
    assert_eq!(descend_step(StairPhase::Start, &wet, at, -64, (0, 1), seen).1, StairAction::Done(false));
    assert_eq!(descend_step(StairPhase::Start, &dry, at, 34, (0, 1), seen).1, StairAction::Done(false));
}

#[test]
fn a_stair_step_avoids_liquid_and_the_bottom() {
    let dry = blocks((-4, -4, -4), 9, &[]);
    assert!(can_step_down(&dry, (0, 0, 0), -7, 0, 1));
    assert!(!can_step_down(&dry, (0, 0, 0), -6, 0, 1));
    for y in [1, 0, -1, -2] {
        let b = blocks((-4, -4, -4), 9, &[((0, y, 1), "lava")]);
        assert!(!can_step_down(&b, (0, 0, 0), -64, 0, 1));
        assert!(can_step_down(&b, (0, 0, 0), -64, 0, -1));
    }
}

#[test]
fn tunnels_go_six_blocks() {
    assert_eq!(strip_tunnel((1, 2), 0, 1), (1, 8));
    assert_eq!(strip_tunnel((1, 2), -1, 0), (-5, 2));
}

#[test]
fn the_best_pickaxe_is_taken_first() {
    let all: Vec<Option<Stack>> = PICKAXES.iter().rev().map(|p| stack(p.name(), 1)).collect();
    let mut tried = 0;
    let mut taken = Vec::new();
    loop {
        match equip_pickaxe(tried, &all, false) {
            (n, EquipAction::Select(pickaxe)) => {
                tried = n;
                taken.push(pickaxe.name());
            }
            (_, end) => {
                assert_eq!(end, EquipAction::Unconfirmed);
                break;
            }
        }
    }
    assert_eq!(
        taken,
        vec![
            "netherite_pickaxe",
            "diamond_pickaxe",
            "iron_pickaxe",
            "stone_pickaxe",
            "golden_pickaxe",
            "wooden_pickaxe"
        ]
    );
    assert_eq!(equip_pickaxe(2, &all, true), (2, EquipAction::Done(true)));
    assert_eq!(equip_pickaxe(0, &all, true), (1, EquipAction::Select(Pickaxe::Netherite)));
    assert!(held_is_pickaxe(&Some("golden_pickaxe".to_string())));
    assert!(!held_is_pickaxe(&Some("stick".to_string())));
    assert!(!held_is_pickaxe(&None));
}

#[test]
fn only_carried_pickaxes_are_tried() {
    for pickaxe in PICKAXES {
        let one = vec![None, stack("dirt", 3), stack(pickaxe.name(), 1)];
        let (tried, action) = equip_pickaxe(0, &one, false);
        assert_eq!(action, EquipAction::Select(pickaxe));
        assert_eq!(equip_pickaxe(tried, &one, true).1, EquipAction::Done(true));
        assert_eq!(equip_pickaxe(tried, &one, false).1, EquipAction::Unconfirmed);
    }
    let some = vec![stack("wooden_pickaxe", 1), stack("golden_pickaxe", 1), stack("stone_pickaxe", 1)];
    assert_eq!(equip_pickaxe(0, &some, false), (4, EquipAction::Select(Pickaxe::Stone)));
    assert_eq!(equip_pickaxe(4, &some, false), (5, EquipAction::Select(Pickaxe::Golden)));
    let none = vec![stack("iron_sword", 1)];
    assert_eq!(equip_pickaxe(0, &none, false), (0, EquipAction::Done(false)));
    let axe = Some("iron_axe".to_string());
    assert_eq!(ensure_pickaxe(0, &axe, &none, false), (0, EquipAction::Done(false)));
    assert_eq!(ensure_pickaxe(0, &axe, &some, false), (4, EquipAction::Select(Pickaxe::Stone)));
    assert_eq!(ensure_pickaxe(0, &Some("iron_pickaxe".to_string()), &none, false), (0, EquipAction::Done(true)));
    assert_eq!(ensure_pickaxe(0, &None, &none, true), (0, EquipAction::Done(false)));
}

#[test]
fn ores_are_matched_by_family() {
    assert!(ore_block_matches("deepslate_iron_ore", "iron"));
    assert!(ore_block_matches("coal_ore", "coal"));
    assert!(ore_block_matches("gold_ore", "gold"));
    assert!(!ore_block_matches("nether_gold_ore", "gold"));
    assert!(!ore_block_matches("iron_ore", "coal"));
    assert!(!ore_block_matches("diamond_ore", "diamond"));
}

#[test]
fn ore_resources_are_counted() {
    let slots = vec![
        stack("coal", 4),
        stack("charcoal", 9),
        stack("raw_iron", 2),
        stack("iron_ingot", 3),
        stack("iron_ore", 5),
        stack("deepslate_iron_ore", 7),
        stack("coal", -2),
    ];
    assert_eq!(count_ore_resource(&slots, "coal"), 13);
    assert_eq!(count_ore_resource(&slots, "iron"), 17);
    let inventory = sync_from_bot(&slots, "overworld", false, true).inventory;
    assert_eq!(inventory.coal, 13);
    assert_eq!(inventory.iron_ore + inventory.iron_ingots, 17);
    assert_eq!(stock_of(&slots, Counter::IronOre), 14);
    assert_eq!(count_ore_resource(&slots, "gold"), 0);
    assert_eq!(ore_kind("coal"), PoiKind::CoalOre);
    assert_eq!(ore_kind("gold"), PoiKind::GoldOre);
    assert_eq!(ore_kind("diamond"), PoiKind::DiamondOre);
    assert_eq!(ore_kind("iron"), PoiKind::IronOre);
    assert_eq!(ore_depth("iron"), 35);
    assert_eq!(ore_depth("coal"), 50);
}

#[test]
fn ores_are_classified_with_their_tier() {
    assert_eq!(ore_kind_tier("deepslate_iron_ore"), Some((PoiKind::IronOre, 2)));
    assert_eq!(ore_kind_tier("coal_ore"), Some((PoiKind::CoalOre, 1)));
    assert_eq!(ore_kind_tier("copper_ore"), Some((PoiKind::CopperOre, 2)));
    assert_eq!(ore_kind_tier("nether_gold_ore"), Some((PoiKind::GoldOre, 3)));
    assert_eq!(ore_kind_tier("diamond_ore"), Some((PoiKind::DiamondOre, 3)));
    assert_eq!(ore_kind_tier("redstone_ore"), Some((PoiKind::RedstoneOre, 3)));
    assert_eq!(ore_kind_tier("lapis_ore"), Some((PoiKind::LapisOre, 2)));
    assert_eq!(ore_kind_tier("stone"), None);
}

fn registry() -> Vec<BlockKind> {
    vec![
        BlockKind { name: "stone".to_string(), min_state_id: 1, max_state_id: 1 },
        BlockKind { name: "iron_ore".to_string(), min_state_id: 5, max_state_id: 6 },
        BlockKind { name: "redstone_ore".to_string(), min_state_id: 6, max_state_id: 7 },
    ]
}

#[test]
fn ore_states_follow_the_registry() {
    let m = ore_states(&registry());
    assert_eq!(m.len(), 3);
    assert_eq!(m.get(&5), Some(&(PoiKind::IronOre, 2)));
    assert_eq!(m.get(&6), Some(&(PoiKind::RedstoneOre, 3)));
    assert_eq!(m.get(&7), Some(&(PoiKind::RedstoneOre, 3)));
    assert_eq!(m.get(&1), None);
}

#[test]
fn the_rank_is_that_of_the_best_pickaxe() {
    assert_eq!(pickaxe_tier_rank(&vec![]), 0);
    assert_eq!(pickaxe_tier_rank(&vec![stack("golden_pickaxe", 1)]), 1);
    assert_eq!(pickaxe_tier_rank(&vec![stack("iron_pickaxe", 1), stack("stone_pickaxe", 1), None]), 3);
    assert_eq!(pickaxe_tier_rank(&vec![stack("netherite_pickaxe", 1)]), 4);
}

#[test]
fn ore_in_sight_is_noted() {
    let mut m = memory();
    let ores = ore_states(&registry());
    let s = states((-12, -12, -12), 25, 1, &[((10, 0, 0), 5), ((0, -10, 3), 7), ((11, 0, 0), 5)]);
    assert!(m.record(PoiKind::IronOre, (10, 0, 0), PoiStatus::Gone));
    assert!(observe_blocks(&s, (0, 0, 0), &ores, &mut m));
    assert_eq!(m.len(), 2);
    assert_eq!(m.ticks(), 4);
    assert_eq!(m.nearest(&[PoiKind::IronOre], (0, 0, 0), 4), None);
    assert_eq!(m.nearest(&[PoiKind::RedstoneOre], (0, 0, 0), 3).unwrap().pos, (0, -10, 3));
    assert_eq!(m.nearest(&[PoiKind::RedstoneOre], (0, 0, 0), 2), None);
}

#[test]
fn nothing_is_logged_where_there_is_no_ore() {
    let mut m = memory();
    let s = states((-12, -12, -12), 25, 1, &[]);
    assert!(observe_blocks(&s, (0, 0, 0), &ore_states(&registry()), &mut m));
    assert_eq!(m.ticks(), 0);
    assert!(m.is_empty());
}

#[test]
fn a_vein_is_followed_block_by_block() {
    let ore = [(0, 0, 0), (1, 0, 0), (1, 1, 0), (5, 5, 5)];
    let mut vein = Vein::at((0, 0, 0));
    let mut dug = Vec::new();
    let mut looked = Vec::new();
    let mut here: Option<String> = None;
    loop {
        match vein.mine_vein("iron", &here, true) {
            VeinAction::Look(p) => {
                assert!(!looked.contains(&p));
                looked.push(p);
                let name = if ore.contains(&p) { "deepslate_iron_ore" } else { "coal_ore" };
                here = Some(name.to_string());
            }
            VeinAction::Dig(p) => dug.push(p),
            VeinAction::Done => break,
        }
    }
    assert_eq!(dug.len(), 3);
    assert!(dug.contains(&(1, 1, 0)));
    assert!(!dug.contains(&(5, 5, 5)));
}

#[test]
fn a_vein_stops_at_a_block_that_does_not_open() {
    let mut vein = Vein::at((0, 0, 0));
    let ore = Some("iron_ore".to_string());
    assert_eq!(vein.mine_vein("iron", &None, false), VeinAction::Look((0, 0, 0)));
    assert_eq!(vein.mine_vein("iron", &ore, false), VeinAction::Dig((0, 0, 0)));
    assert_eq!(vein.mine_vein("iron", &ore, false), VeinAction::Done);
}

#[test]
fn the_map_gives_ore_that_the_pickaxe_can_mine() {
    let mut m = memory();
    let stone_pickaxe = vec![stack("stone_pickaxe", 1)];
    assert_eq!(known_ore(&m, &stone_pickaxe, (0, 0, 0), "iron"), None);
    assert!(m.observe(PoiKind::IronOre, (9, 0, 0), PoiStatus::NeedsTool(2)));
    assert!(m.observe(PoiKind::IronOre, (4, 0, 0), PoiStatus::NeedsTool(2)));
    assert!(m.observe(PoiKind::CoalOre, (1, 0, 0), PoiStatus::NeedsTool(1)));
    assert!(m.observe(PoiKind::GoldOre, (2, 0, 0), PoiStatus::NeedsTool(3)));
    assert_eq!(known_ore(&m, &stone_pickaxe, (0, 0, 0), "iron"), Some((4, 0, 0)));
    assert_eq!(known_ore(&m, &stone_pickaxe, (0, 0, 0), "gold"), None);
    assert_eq!(known_ore(&m, &vec![stack("wooden_pickaxe", 1)], (0, 0, 0), "iron"), None);
    assert_eq!(known_ore(&m, &vec![stack("wooden_pickaxe", 1)], (0, 0, 0), "coal"), Some((1, 0, 0)));
    assert!(m.mark((4, 0, 0), PoiStatus::Unreachable));
    assert_eq!(known_ore(&m, &stone_pickaxe, (0, 0, 0), "iron"), Some((9, 0, 0)));
}

fn ore_seen() -> OreSeen {
    OreSeen { count: 0, pos: (0, 60, 0), late: false, armed: true, known: None, gained: 0, moved: true }
}

#[test]
fn known_ore_is_mined_and_settled() {
    let spot = (4, 30, 4);
    let seen = OreSeen { known: Some(spot), ..ore_seen() };
    let (s, a) = mine_ore(start_mine_ore(11, 35, 0, (9, 9, 9)), seen);
    assert_eq!(a, OreAction::EnsurePickaxe);
    let (s, a) = mine_ore(s, seen);
    assert_eq!(a, OreAction::Ask(true));
    let (s, a) = mine_ore(s, seen);
    assert_eq!(a, OreAction::MineVein(spot));
    assert_eq!(mine_ore(s, seen).1, OreAction::Mark(spot, PoiStatus::Unreachable));
    assert_eq!(mine_ore(s, OreSeen { gained: 2, ..seen }).1, OreAction::Mark(spot, PoiStatus::Gone));
}

#[test]
fn unknown_ore_is_searched_for_deep_down() {
    let (s, _) = mine_ore(start_mine_ore(11, 35, 0, (9, 9, 9)), ore_seen());
    let (asked, _) = mine_ore(s, ore_seen());
    let (s, a) = mine_ore(asked, ore_seen());
    assert_eq!(a, OreAction::DigDown);
    assert_eq!(mine_ore(s, ore_seen()).1, OreAction::NoteDescent(false));
    let blocked = OreSeen { moved: false, ..ore_seen() };
    let (s, a) = mine_ore(s, blocked);
    assert_eq!(a, OreAction::StepDown(0, 1));
    let (s, a) = mine_ore(s, blocked);
    assert_eq!(a, OreAction::Tunnel(0, 1));
    assert_eq!(mine_ore(s, blocked).1, OreAction::NoteDescent(false));
    let deep = OreSeen { pos: (0, 37, 0), ..ore_seen() };
    let (s, a) = mine_ore(asked, deep);
    assert_eq!(a, OreAction::Tunnel(0, 1));
    assert_eq!(mine_ore(s, deep).1, OreAction::NoteSearch(true, false));
}

#[test]
fn ore_mining_stops_for_its_reasons() {
    let start = start_mine_ore(11, 35, 0, (0, 60, 0));
    assert_eq!(mine_ore(start, OreSeen { count: 11, ..ore_seen() }).1, OreAction::Done(11, OreEnd::Finished));
    assert_eq!(mine_ore(start, OreSeen { late: true, ..ore_seen() }).1, OreAction::Done(0, OreEnd::Finished));
    let (armed, _) = mine_ore(start, ore_seen());
    assert_eq!(
        mine_ore(armed, OreSeen { armed: false, ..ore_seen() }).1,
        OreAction::Done(0, OreEnd::NoPickaxe)
    );
    let mut s = start;
    let mut turns = 0;
    loop {
        let (next, action) = mine_ore(s, ore_seen());
        s = next;
        match action {
            OreAction::EnsurePickaxe => turns += 1,
            OreAction::Done(n, end) => {
                assert_eq!((n, end), (0, OreEnd::Stuck));
                break;
            }
            _ => {}
        }
    }
    assert_eq!(turns, 30);
    assert_eq!(s.phase, OrePhase::Over);
}

#[test]
fn ore_is_reported() {
    assert_eq!(report_ore(4, 11, "iron").message, "mined 4/11 iron");
    assert!(!report_ore(4, 11, "iron").success);
    assert!(report_ore(11, 11, "coal").success);
}

#[test]
fn gravel_is_fetched_once_then_dug_past() {
    let pit = blocks((0, 0, 0), 4, &[((1, 2, 3), "gravel")]);
    let bare = blocks((0, 0, 0), 4, &[]);
    let seen = GravelSeen { flint: 0, late: false, moved: true };
    let (fresh, tried) = (vec![(3, 2, 1)], vec![(3, 2, 1), (1, 2, 3)]);
    let (top, dug) = (GravelPhase::Top, GravelPhase::Dug);
    let mine = |phase: GravelPhase, world: &Blocks, tried: &Vec<Pos>, seen: GravelSeen| {
        mine_gravel_for_flint(phase, 1, world, (0, 0, 0), tried, seen)
    };
    assert_eq!(mine(top, &pit, &fresh, seen), (top, GravelAction::Fetch((1, 2, 3))));
    assert_eq!(mine(top, &pit, &tried, seen), (dug, GravelAction::DigDown));
    assert_eq!(mine(dug, &pit, &fresh, GravelSeen { moved: false, ..seen }).1, GravelAction::Done(0));
    assert_eq!(mine(top, &pit, &fresh, GravelSeen { flint: 1, ..seen }).1, GravelAction::Done(1));
    assert_eq!(mine(top, &pit, &fresh, GravelSeen { late: true, ..seen }).1, GravelAction::Done(0));
    assert_eq!(mine(dug, &bare, &fresh, seen).1, GravelAction::DigDown);
    assert_eq!(report_flint(1, 1).message, "got 1 flint");
    assert!(report_flint(1, 1).success);
    assert_eq!(report_flint(0, 1).message, "only 0 flint");
    assert!(!report_flint(0, 1).success);
}

fn stone_seen(cobble: i32) -> StoneSeen {
    StoneSeen { cobble, late: false, armed: true, dug: true, moved: true }
}

/// A step of mining stone, from the origin, with a rock at (1, 2, 3) or without.
fn mine_rock(state: MineStone, rock: bool, seen: StoneSeen) -> (MineStone, StoneAction) {
    let set: &[(Pos, &str)] = if rock { &[((1, 2, 3), "andesite")] } else { &[] };
    mine_stone(state, &blocks((0, 0, 0), 4, set), (0, 0, 0), seen)
}

#[test]
fn stone_is_dug_and_counted() {
    let rock = (1, 2, 3);
    let (s, a) = mine_rock(start_mine_stone(16), true, stone_seen(0));
    assert_eq!(a, StoneAction::EnsurePickaxe);
    let (s, a) = mine_rock(s, true, stone_seen(0));
    assert_eq!(a, StoneAction::WalkTo(rock));
    let (s, a) = mine_rock(s, false, stone_seen(0));
    assert_eq!(a, StoneAction::Dig(rock));
    let (s, a) = mine_rock(s, false, stone_seen(1));
    assert_eq!(a, StoneAction::GoOn(true));
    assert_eq!(s.no_progress, 0);
    assert_eq!(mine_rock(s, false, stone_seen(16)).1, StoneAction::Done(16, StoneEnd::Finished));
    assert_eq!(report_stone(16, 16).message, "mined 16/16 cobblestone");
    assert!(report_stone(16, 16).success);
    assert!(!report_stone(15, 16).success);
}

#[test]
fn stone_mining_digs_down_without_stone() {
    let (s, _) = mine_rock(start_mine_stone(16), false, stone_seen(0));
    let (s, a) = mine_rock(s, false, stone_seen(0));
    assert_eq!(a, StoneAction::DigDown);
    assert_eq!(mine_rock(s, false, stone_seen(0)).1, StoneAction::EnsurePickaxe);
    let stuck = StoneSeen { moved: false, ..stone_seen(0) };
    assert_eq!(mine_rock(s, false, stuck).1, StoneAction::Done(0, StoneEnd::Blocked));
}

#[test]
fn stone_mining_stops_without_pickaxe_or_progress() {
    let (s, _) = mine_rock(start_mine_stone(16), false, stone_seen(0));
    let bare = StoneSeen { armed: false, ..stone_seen(0) };
    assert_eq!(mine_rock(s, false, bare).1, StoneAction::Done(0, StoneEnd::NoPickaxe));
    let mut s = start_mine_stone(16);
    let mut digs = 0;
    let mut downs = 0;
    loop {
        let (next, action) = mine_rock(s, true, stone_seen(0));
        s = next;
        match action {
            StoneAction::Dig(_) => digs += 1,
            StoneAction::DigDown => downs += 1,
            StoneAction::Done(_, end) => {
                assert_eq!(end, StoneEnd::Stuck);
                break;
            }
            _ => {}
        }
    }
    assert_eq!(digs, 26);
    assert_eq!(downs, 22);
}
