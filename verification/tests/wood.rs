use ruststeve::bot_utils::{find_closest_log, LogAction, LogSighted, FAR, LOG_RINGS, LOG_TYPES};
use ruststeve::survival::ThrashAction;
use ruststeve::tasks::gather_wood::{
    chop, collect_all, escape_water, explore, explore_direction, find_trunk_raw, gather_wood, in_liquid, is_too_far,
    lava_near, move_toward, report_wood, start_chop, start_gather_wood, Chop, ChopAction, ChopPhase, ChopSeen,
    CollectAction, CollectSeen, DigResult, ExploreAction, TreeFault, WoodAction, WoodPhase, WoodSeen,
};
use ruststeve::tasks::log_search::{
    find_nearest_log, find_nearest_log_within, log_in_column, log_state_ids, ring_cells, BlockKind, Outlook,
};
use ruststeve::world::{Blocks, Grid, States};

type Pos = (i32, i32, i32);

fn blocks(min: Pos, size: usize, named: &[(Pos, &str)]) -> Blocks {
    let mut cells = vec![vec![vec![None; size]; size]; size];
    for (p, name) in named {
        cells[(p.0 - min.0) as usize][(p.1 - min.1) as usize][(p.2 - min.2) as usize] = Some(name.to_string());
    }
    Grid { min, cells }
}

fn states(min: Pos, size: usize, set: &[(Pos, u32)]) -> States {
    let mut cells = vec![vec![vec![0; size]; size]; size];
    for (p, s) in set {
        cells[(p.0 - min.0) as usize][(p.1 - min.1) as usize][(p.2 - min.2) as usize] = *s;
    }
    Grid { min, cells }
}

fn kind(name: &str, min: u32, max: u32) -> BlockKind {
    BlockKind { name: name.to_string(), min_state_id: min, max_state_id: max }
}

fn outlook(set: &[(Pos, u32)], unreachable: Vec<Pos>) -> Outlook {
    Outlook {
        at: (0, 64, 0),
        min_y: -64,
        height: 384,
        states: states((-20, 50, -20), 41, set),
        logs: log_state_ids(&vec![kind("oak_log", 10, 12), kind("stone", 1, 1)]),
        unreachable,
    }
}

#[test]
fn log_states_come_from_the_registry() {
    let ids = log_state_ids(&vec![kind("oak_log", 10, 12), kind("stone", 1, 1), kind("cherry_log", 20, 20)]);
    for s in 0..30 {
        assert_eq!(ids.contains(&s), (10..=12).contains(&s) || s == 20);
    }
    assert!(log_state_ids(&vec![kind("oak_log", 5, 4)]).is_empty());
}

#[test]
fn a_ring_has_each_cell_once() {
    let cells = ring_cells(2);
    assert_eq!(cells.len(), 16);
    assert_eq!(cells[0], (-2, -2));
    assert_eq!(cells[1], (-2, 2));
    for dx in -2..=2i32 {
        for dz in -2..=2i32 {
            let on_ring = dx.abs().max(dz.abs()) == 2;
            assert_eq!(cells.iter().filter(|c| **c == (dx, dz)).count(), on_ring as usize);
        }
    }
}

#[test]
fn the_nearest_tree_is_found_at_its_base() {
    let o = outlook(&[((3, 66, 0), 10), ((3, 65, 0), 11), ((0, 64, 5), 12)], vec![]);
    assert_eq!(find_nearest_log(&o), Some((3, 65, 0)));
    assert_eq!(log_in_column(&o, 3, 0), Some(65));
    assert_eq!(log_in_column(&o, 4, 0), None);
}

#[test]
fn a_closer_ring_wins_over_a_shorter_way() {
    let o = outlook(&[((4, 64, 4), 10), ((5, 64, 0), 10)], vec![]);
    assert_eq!(find_nearest_log(&o), Some((4, 64, 4)));
}

#[test]
fn a_narrow_look_finds_what_is_close_by() {
    let o = outlook(&[((4, 64, 4), 10), ((5, 64, 0), 10)], vec![]);
    assert_eq!(find_nearest_log_within(&o, 3), None);
    assert_eq!(find_nearest_log_within(&o, 4), Some((4, 64, 4)));
    assert_eq!(find_nearest_log_within(&o, 64), find_nearest_log(&o));
}

#[test]
fn unreachable_trees_are_passed_over() {
    let o = outlook(&[((1, 64, 0), 10), ((0, 64, 5), 10)], vec![(1, 64, 0)]);
    assert_eq!(find_nearest_log(&o), Some((0, 64, 5)));
    let none = outlook(&[((1, 64, 0), 10)], vec![(1, 64, 0)]);
    assert_eq!(find_nearest_log(&none), None);
}

#[test]
fn a_tree_over_the_bot_is_found_first() {
    let o = outlook(&[((0, 70, 0), 10), ((1, 64, 0), 10)], vec![]);
    assert_eq!(find_nearest_log(&o), Some((0, 70, 0)));
}

#[test]
fn liquids_at_the_feet_are_noticed() {
    let b = blocks((0, 0, 0), 3, &[((1, 1, 1), "water"), ((2, 1, 1), "lava")]);
    assert!(in_liquid(&b, (1, 1, 1)));
    assert!(in_liquid(&b, (2, 1, 1)));
    assert!(!in_liquid(&b, (0, 1, 1)));
}

#[test]
fn lava_is_near_within_the_radius_and_one_level() {
    let b = blocks((-4, -4, -4), 9, &[((2, 1, -2), "lava")]);
    assert!(lava_near(&b, (0, 0, 0), 2));
    assert!(!lava_near(&b, (0, 0, 0), 1));
    assert!(!lava_near(&b, (0, -1, 0), 2));
    assert!(lava_near(&b, (0, 2, 0), 2));
    assert!(!lava_near(&b, (2, 1, -2), -1));
    assert!(lava_near(&b, (2, 1, -2), 0));
}

#[test]
fn the_nearest_log_of_the_trunk_is_chopped_first() {
    let b = blocks((-5, -5, -5), 11, &[((1, 1, 0), "oak_log"), ((1, 0, 0), "oak_log"), ((0, -2, 0), "oak_log")]);
    assert_eq!(find_trunk_raw(&b, (0, 0, 0), &vec![]), Some((1, 0, 0)));
    assert_eq!(find_trunk_raw(&b, (0, 0, 0), &vec![(1, 0, 0)]), Some((1, 1, 0)));
    // Two below counts for 4 + 4, more than the 2 of the log up the trunk.
    assert_eq!(find_trunk_raw(&b, (0, 0, 0), &vec![(1, 0, 0), (1, 1, 0)]), Some((0, -2, 0)));
    assert_eq!(find_trunk_raw(&b, (0, 0, 0), &vec![(1, 0, 0), (1, 1, 0), (0, -2, 0)]), None);
}

#[test]
fn logs_below_count_as_farther() {
    let b = blocks((-5, -5, -5), 11, &[((0, -2, 0), "oak_log"), ((2, 1, 1), "oak_log")]);
    // 4 + 4 against 6.
    assert_eq!(find_trunk_raw(&b, (0, 0, 0), &vec![]), Some((2, 1, 1)));
}

#[test]
fn a_trunk_is_looked_for_four_blocks_out() {
    let at = |p: Pos| blocks((-6, -6, -6), 13, &[(p, "oak_log")]);
    for p in [(4, 4, 4), (-4, -4, -4), (0, -4, 0)] {
        assert_eq!(find_trunk_raw(&at(p), (0, 0, 0), &vec![]), Some(p));
    }
    for p in [(5, 0, 0), (0, 5, 0), (0, -5, 0), (0, 0, -5)] {
        assert_eq!(find_trunk_raw(&at(p), (0, 0, 0), &vec![]), None);
    }
}

#[test]
fn ties_go_to_the_first_column() {
    let b = blocks((-5, -5, -5), 11, &[((1, 0, 0), "oak_log"), ((-1, 0, 0), "oak_log"), ((0, 1, 0), "oak_log")]);
    assert_eq!(find_trunk_raw(&b, (0, 0, 0), &vec![]), Some((-1, 0, 0)));
}

#[test]
fn water_is_left_like_lava() {
    let wet = blocks((0, 0, 0), 2, &[((0, 0, 0), "water")]);
    let dry = blocks((0, 0, 0), 2, &[((0, 0, 0), "air")]);
    assert_eq!(escape_water(40, &wet, (0, 0, 0), true, false), (39, ThrashAction::Thrash));
    assert_eq!(escape_water(7, &dry, (0, 0, 0), false, false), (6, ThrashAction::Thrash));
    assert_eq!(escape_water(7, &dry, (0, 0, 0), true, false), (7, ThrashAction::Stop));
    assert_eq!(escape_water(0, &wet, (0, 0, 0), true, false), (0, ThrashAction::Stop));
}

#[test]
fn drops_are_not_collected_near_lava() {
    let at = (0, 0, 0);
    let safe = blocks((-4, -4, -4), 9, &[((3, 0, 0), "lava")]);
    let hot = blocks((-4, -4, -4), 9, &[((2, -1, 1), "lava")]);
    let seen = CollectSeen { item: true, touching: false, lost: false };
    assert_eq!(collect_all(40, &hot, at, seen), (40, CollectAction::Stop));
    assert_eq!(collect_all(40, &safe, at, seen), (39, CollectAction::Walk));
    assert_eq!(collect_all(40, &hot, at, CollectSeen { touching: true, ..seen }), (39, CollectAction::Wait));
    assert_eq!(collect_all(40, &safe, at, CollectSeen { item: false, ..seen }), (40, CollectAction::Stop));
    assert_eq!(collect_all(0, &safe, at, seen), (0, CollectAction::Stop));
    assert_eq!(collect_all(7, &safe, at, CollectSeen { lost: true, ..seen }), (7, CollectAction::Stop));
}

/// A tree with one log at (1, 2, 3), and lava near or not.
fn tree(lava: bool) -> Blocks {
    let hot: &[(Pos, &str)] = &[((1, 2, 3), "oak_log"), ((-2, 1, 0), "lava")];
    blocks((-4, -4, -4), 9, if lava { hot } else { &hot[..1] })
}

fn chop_in(state: Chop, b: &Blocks, seen: ChopSeen) -> (Chop, ChopAction) {
    chop(state, b, (0, 0, 0), &vec![], seen)
}

fn chop_seen(dug: DigResult) -> ChopSeen {
    ChopSeen { dug, closer: false }
}

#[test]
fn a_trunk_is_felled_log_by_log() {
    let log = (1, 2, 3);
    let felled = blocks((-4, -4, -4), 9, &[]);
    let (s, a) = chop_in(start_chop(), &tree(false), chop_seen(DigResult::Broke));
    assert_eq!(a, ChopAction::DigToward(log));
    let (s, a) = chop_in(s, &felled, chop_seen(DigResult::Broke));
    assert_eq!(a, ChopAction::LookAgain);
    let (s, a) = chop_in(s, &felled, chop_seen(DigResult::Broke));
    assert_eq!(a, ChopAction::Collect);
    assert_eq!(s.phase, ChopPhase::Over);
    let (_, a) = chop(start_chop(), &tree(false), (0, 0, 0), &vec![log], chop_seen(DigResult::Broke));
    assert_eq!(a, ChopAction::Collect);
}

#[test]
fn a_log_out_of_reach_is_given_up_after_seven_turns() {
    let log = (1, 2, 3);
    let mut s = start_chop();
    let mut turns = 0;
    loop {
        let (next, action) = chop_in(s, &tree(false), chop_seen(DigResult::OutOfReach));
        s = next;
        match action {
            ChopAction::Nudge(p) => {
                assert_eq!(p, log);
                turns += 1;
            }
            ChopAction::GiveUp(p) => {
                assert_eq!(p, log);
                break;
            }
            ChopAction::Collect => panic!("gave up too late"),
            _ => {}
        }
    }
    assert_eq!(turns, 7);
}

#[test]
fn chopping_is_bounded_and_stops_near_lava() {
    let seen = ChopSeen { dug: DigResult::OutOfReach, closer: true };
    let mut s = start_chop();
    let mut steps = 0;
    while s.phase != ChopPhase::Over {
        s = chop_in(s, &tree(false), seen).0;
        steps += 1;
    }
    assert!(steps <= 182);
    let (dug, _) = chop_in(start_chop(), &tree(false), seen);
    assert_eq!(chop_in(dug, &tree(true), seen).1, ChopAction::Collect);
    assert_eq!(chop_in(dug, &tree(false), ChopSeen { dug: DigResult::Failed, ..seen }).1, ChopAction::Collect);
    assert_eq!(TreeFault::Unfelled.event(), "unfelled");
    assert_eq!(TreeFault::NoApproach.event(), "no_approach");
}

#[test]
fn sweeps_start_south_and_rotate() {
    let dirs: Vec<(i32, i32)> = (0..8).map(|i| explore_direction(i, (5, 5), (0, 0))).collect();
    assert_eq!(dirs, vec![(0, 1), (1, 1), (1, 0), (1, -1), (0, -1), (-1, -1), (-1, 0), (-1, 1)]);
    assert_eq!(explore_direction(8, (5, 5), (0, 0)), (0, 1));
}

#[test]
fn a_bot_that_wandered_too_far_heads_home() {
    assert!(!is_too_far((240, 0), (0, 0)));
    assert!(is_too_far((241, 0), (0, 0)));
    assert!(is_too_far((i32::MAX, i32::MIN), (i32::MIN, i32::MAX)));
    assert_eq!(explore_direction(3, (241, -5), (0, 0)), (-1, 1));
    assert_eq!(explore_direction(3, (0, -500), (0, 0)), (0, 1));
}

#[test]
fn a_sweep_is_three_hops() {
    assert_eq!(explore(3, (1, -1), (10, 20), false), (2, ExploreAction::Hop(26, 4)));
    assert_eq!(explore(2, (0, 1), (10, 20), true), (2, ExploreAction::Stop));
    assert_eq!(explore(0, (0, 1), (10, 20), false), (0, ExploreAction::Stop));
}

#[test]
fn a_far_tree_is_approached_in_two_hops() {
    assert!(move_toward(0, false, false));
    assert!(move_toward(1, false, false));
    assert!(!move_toward(2, false, false));
    assert!(!move_toward(0, true, false));
    assert!(!move_toward(1, false, true));
}

fn wood(logs: i32, nearest: Option<Pos>) -> WoodSeen {
    WoodSeen { logs, nearest, far: false, no_closer: false, reachable: true, gained: 0 }
}

#[test]
fn a_near_tree_is_walked_to_and_felled() {
    let tree = (4, 65, 4);
    let (s, a) = gather_wood(start_gather_wood(5), wood(0, None));
    assert_eq!(a, WoodAction::Look);
    let (s, a) = gather_wood(s, wood(0, Some(tree)));
    assert_eq!(a, WoodAction::CanReach(tree));
    let (s, a) = gather_wood(s, wood(0, Some(tree)));
    assert_eq!(a, WoodAction::Fell(tree));
    let (s, a) = gather_wood(s, WoodSeen { gained: 4, ..wood(4, None) });
    assert_eq!(a, WoodAction::NoteGain(4));
    let (_, a) = gather_wood(s, wood(5, None));
    assert_eq!(a, WoodAction::Done(5));
}

#[test]
fn trees_that_failed_are_remembered() {
    let tree = (4, 65, 4);
    let (looked, _) = gather_wood(start_gather_wood(5), wood(0, None));
    let (asked, _) = gather_wood(looked, wood(0, Some(tree)));
    let (_, a) = gather_wood(asked, WoodSeen { reachable: false, ..wood(0, None) });
    assert_eq!(a, WoodAction::Remember(tree, TreeFault::Unreachable));
    let (felled, _) = gather_wood(asked, wood(0, None));
    let (_, a) = gather_wood(felled, wood(0, None));
    assert_eq!(a, WoodAction::Remember(tree, TreeFault::Unfelled));
    let (moved, a) = gather_wood(looked, WoodSeen { far: true, ..wood(0, Some(tree)) });
    assert_eq!(a, WoodAction::MoveToward(tree));
    let (_, a) = gather_wood(moved, WoodSeen { no_closer: true, ..wood(0, None) });
    assert_eq!(a, WoodAction::Remember(tree, TreeFault::NoApproach));
    let (_, a) = gather_wood(moved, wood(0, None));
    assert_eq!(a, WoodAction::NoteGain(0));
}

#[test]
fn sixteen_bare_sweeps_end_the_task() {
    let mut s = start_gather_wood(5);
    let mut sweeps = Vec::new();
    loop {
        let (next, action) = gather_wood(s, wood(2, None));
        s = next;
        match action {
            WoodAction::Explore(n) => sweeps.push(n),
            WoodAction::Done(n) => {
                assert_eq!(n, 2);
                break;
            }
            _ => {}
        }
    }
    assert_eq!(sweeps, (0..16).collect::<Vec<u32>>());
}

#[test]
fn the_task_ends_after_two_hundred_cycles() {
    let seen = WoodSeen { gained: 1, ..wood(0, Some((1, 64, 0))) };
    let mut s = start_gather_wood(5);
    let mut steps = 0;
    while s.phase != WoodPhase::Over {
        s = gather_wood(s, seen).0;
        steps += 1;
    }
    assert_eq!(steps, 801);
    assert_eq!(s.cycles, 200);
}

#[test]
fn wood_is_reported() {
    let r = report_wood(3, 5);
    assert!(!r.success);
    assert_eq!(r.message, "gathered 3/5 logs");
    assert!(report_wood(5, 5).success);
    assert_eq!(report_wood(7, 5).message, "gathered 7/5 logs");
}

#[test]
fn the_closest_log_is_in_the_first_ring_that_has_one() {
    let log = |species: usize, x: i32, key: u64| LogSighted { species, pos: (x, 64, 0), key };
    assert_eq!(find_closest_log(0, &vec![log(0, 1, 1)]), (1, LogAction::Look(16)));
    assert_eq!(find_closest_log(1, &vec![]), (2, LogAction::Look(32)));
    let ring = vec![log(0, 9, 81), log(2, 4, 16), log(3, -4, 16)];
    assert_eq!(find_closest_log(2, &ring), (2, LogAction::Found(2, (4, 64, 0))));
    assert_eq!(find_closest_log(3, &vec![log(0, 1, FAR)]), (4, LogAction::Look(64)));
    assert_eq!(find_closest_log(4, &vec![]), (4, LogAction::GiveUp));
    assert_eq!(LOG_TYPES.len(), 9);
    assert_eq!(LOG_TYPES[8], "pale_oak_log");
    assert_eq!(LOG_RINGS, [16, 32, 48, 64]);
}
