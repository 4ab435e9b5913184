use ruststeve::items::Stack;
use ruststeve::tasks::casting::{
    air_at, build_block, descend_to_y, dig_at, edge_source, ensure_solid, face_back, fill_bucket, find_fluid, footprint,
    is_air, is_lava, is_replaceable, is_solid, may_clear, may_dig, name_at, next_backing, pillar_up, place_cobble,
    solid_at, start_pillar, walk_to_xz, way_to_place, Face, FillAction, FillPhase, FillSeen, PillarAction, PillarPhase,
    PlaceAction, PlacePhase, SinkAction, SolidAction, SolidPhase, WalkAction, WalkSeen,
};
use ruststeve::tasks::portal::{
    build_backing, build_inner_fill, build_nether_portal, cast_obsidian_at, cell_of_chamber, cell_of_floor,
    cell_of_frame, cell_of_interior, enter_nether, frame_present, lava_touching, next_gap, place_message,
    prepare_cast_site, reclaim_water, report_enter, report_portal, start_cast, start_site, wall_of_bowl, wall_of_cup,
    waters_near, CastAction, CastPhase, CastSeen, Enter, EnterAction, EnterPhase, Portal, PortalAction, PortalEnd,
    PortalPhase, PortalSeen, ReclaimAction, ReclaimPhase, SiteAction, SitePhase, SiteSeen, WallAction, WallPhase,
    WallSeen,
};
use ruststeve::world::{Blocks, Grid};

type Pos = (i32, i32, i32);

fn blocks(min: Pos, size: usize, fill: Option<&str>, named: &[(Pos, &str)]) -> Blocks {
    let mut cells = vec![vec![vec![fill.map(|n| n.to_string()); size]; size]; size];
    for (p, name) in named {
        cells[(p.0 - min.0) as usize][(p.1 - min.1) as usize][(p.2 - min.2) as usize] = Some(name.to_string());
    }
    Grid { min, cells }
}

fn stack(name: &str, count: i32) -> Option<Stack> {
    Some(Stack { name: name.to_string(), count })
}

#[test]
fn blocks_are_classified() {
    for n in ["air", "cave_air", "void_air"] {
        assert!(is_air(n) && is_replaceable(n) && !is_solid(n));
    }
    for n in ["short_grass", "tall_grass", "fern", "snow", "snow_layer", "dead_bush"] {
        assert!(!is_air(n) && is_replaceable(n) && !is_solid(n));
    }
    assert!(is_solid("stone"));
    assert!(!is_solid("water"));
    assert!(!is_solid("lava"));
    assert!(!is_solid("lava_cauldron"));
    assert!(is_lava("lava"));
    assert!(is_lava("flowing_lava"));
    assert!(!is_lava("lava_cauldron"));
}

#[test]
fn unknown_cells_are_air() {
    let b = blocks((0, 0, 0), 2, None, &[((1, 0, 0), "stone")]);
    assert_eq!(name_at(&b, 0, 0, 0), "air");
    assert_eq!(name_at(&b, 9, 9, 9), "air");
    assert_eq!(name_at(&b, 1, 0, 0), "stone");
    assert!(solid_at(&b, 1, 0, 0));
    assert!(!solid_at(&b, 0, 0, 0));
    assert!(air_at(&b, 0, 0, 0));
}

#[test]
fn cobble_is_built_with_before_dirt() {
    assert_eq!(build_block(&vec![stack("dirt", 9), stack("cobblestone", 1)]), "cobblestone");
    assert_eq!(build_block(&vec![stack("dirt", 9)]), "dirt");
    assert_eq!(build_block(&vec![]), "dirt");
}

#[test]
fn faces_point_back() {
    assert_eq!(face_back((0, -1, 0)), Face::Top);
    assert_eq!(face_back((0, 1, 0)), Face::Bottom);
    assert_eq!(face_back((1, 0, 0)), Face::West);
    assert_eq!(face_back((-1, 0, 0)), Face::East);
    assert_eq!(face_back((0, 0, 1)), Face::North);
    assert_eq!(face_back((0, 0, -1)), Face::South);
    assert_eq!(face_back((1, 1, 0)), Face::Top);
}

#[test]
fn lava_and_obsidian_are_not_dug() {
    assert!(may_dig("stone"));
    assert!(may_dig("water"));
    assert!(!may_dig("obsidian"));
    assert!(!may_dig("flowing_lava"));
    assert!(!may_dig("air"));
    assert!(may_clear("stone"));
    assert!(!may_clear("obsidian"));
    assert!(!may_clear("water"));
    assert!(!may_clear("fern"));
    let b = blocks((0, 0, 0), 1, Some("obsidian"), &[]);
    assert!(!dig_at(&b, 0, 0, 0));
    assert!(!dig_at(&b, 5, 0, 0));
}

#[test]
fn blocks_are_placed_against_solid_neighbours() {
    let b = blocks((-1, -1, -1), 3, None, &[((1, 0, 0), "stone"), ((0, 0, 1), "dirt")]);
    assert_eq!(next_backing(&b, (0, 0, 0), 0), Some(1));
    assert_eq!(next_backing(&b, (0, 0, 0), 2), Some(3));
    assert_eq!(next_backing(&b, (0, 0, 0), 4), None);
    assert_eq!(way_to_place(0), (0, -1, 0));
    assert_eq!(way_to_place(5), (0, 1, 0));
}

#[test]
fn placing_goes_from_neighbour_to_neighbour() {
    let at = (0, 0, 0);
    let empty = blocks((-1, -1, -1), 3, None, &[((1, 0, 0), "stone"), ((0, 0, 1), "dirt")]);
    let filled = blocks((-1, -1, -1), 3, Some("stone"), &[]);
    let (p, a) = place_cobble(PlacePhase::Start, &empty, at, false);
    assert_eq!(a, PlaceAction::Select);
    assert_eq!(place_cobble(p, &empty, at, false).1, PlaceAction::Done(false));
    let (p, a) = place_cobble(p, &empty, at, true);
    assert_eq!(a, PlaceAction::PlaceAgainst((1, 0, 0), Face::West));
    assert_eq!(place_cobble(p, &filled, at, true).1, PlaceAction::Done(true));
    let (p, a) = place_cobble(p, &empty, at, true);
    assert_eq!(a, PlaceAction::PlaceAgainst((0, 0, 1), Face::North));
    assert_eq!(place_cobble(p, &empty, at, true).1, PlaceAction::Done(false));
    assert_eq!(place_cobble(PlacePhase::Start, &filled, at, false).1, PlaceAction::Done(true));
}

/// A world of nothing but a column of stone under (0, 10, 0), up to a height.
fn column(height: i32) -> Blocks {
    let mut b = blocks((-2, 4, -2), 8, None, &[]);
    for y in 4..=height {
        b.cells[2][(y - 4) as usize][2] = Some("stone".to_string());
    }
    b
}

#[test]
fn a_floating_cell_gets_a_foundation() {
    // Nothing to place against until the ground four below.
    let at = (0, 10, 0);
    let mut height = 6;
    let mut phase = SolidPhase::Start;
    let mut placed = Vec::new();
    let mut last = false;
    let ok = loop {
        let (next, action) = ensure_solid(phase, &column(height), at, last);
        phase = next;
        match action {
            SolidAction::Place(p) => {
                last = p.1 == height + 1;
                if last {
                    height += 1;
                    placed.push(p.1);
                }
            }
            SolidAction::Done(ok) => break ok,
        }
    };
    assert!(ok);
    assert_eq!(placed, vec![7, 8, 9, 10]);
}

#[test]
fn a_foundation_goes_no_deeper_than_four() {
    let at = (0, 10, 0);
    let nothing = blocks((-2, 4, -2), 8, None, &[]);
    let mut phase = SolidPhase::Start;
    let mut tried = Vec::new();
    loop {
        let (next, action) = ensure_solid(phase, &nothing, at, false);
        phase = next;
        match action {
            SolidAction::Place(p) => tried.push(p.1),
            SolidAction::Done(ok) => {
                assert!(!ok);
                break;
            }
        }
    }
    assert_eq!(tried, vec![10, 9, 8, 7, 6]);
    assert_eq!(ensure_solid(SolidPhase::Start, &column(10), at, false).1, SolidAction::Done(true));
    assert_eq!(ensure_solid(SolidPhase::Raised(2), &nothing, at, false).1, SolidAction::Done(false));
}

#[test]
fn walking_jumps_when_stuck_or_wet() {
    let at = (0, 0, 0);
    let dry = blocks((-1, -1, -1), 3, None, &[]);
    let wet = blocks((-1, -1, -1), 3, None, &[((0, 1, 0), "flowing_water")]);
    let seen = WalkSeen { near: false, stuck: false, lost: false };
    assert_eq!(walk_to_xz(5, &dry, at, seen), (4, WalkAction::Step(false)));
    assert_eq!(walk_to_xz(5, &dry, at, WalkSeen { stuck: true, ..seen }), (4, WalkAction::Step(true)));
    assert_eq!(walk_to_xz(5, &wet, at, seen), (4, WalkAction::Step(true)));
    assert_eq!(walk_to_xz(5, &wet, (0, 1, 0), seen), (4, WalkAction::Step(true)));
    assert_eq!(walk_to_xz(5, &dry, at, WalkSeen { near: true, ..seen }), (5, WalkAction::Stop));
    assert_eq!(walk_to_xz(5, &dry, at, WalkSeen { lost: true, ..seen }), (5, WalkAction::Stop));
    assert_eq!(walk_to_xz(0, &dry, at, seen), (0, WalkAction::Stop));
}

#[test]
fn the_footprint_has_each_column_once() {
    assert_eq!(footprint(&vec![(0, 0), (0, 1), (0, 0), (0, 1)]), vec![(0, 0), (0, 1)]);
    assert_eq!(footprint(&vec![(3, 3), (3, 3), (3, 3), (3, 3)]), vec![(3, 3)]);
    assert_eq!(footprint(&vec![(0, 0), (0, 1), (1, 0), (1, 1)]).len(), 4);
}

#[test]
fn descending_stops_at_the_target() {
    assert_eq!(descend_to_y(24, 70, 64), (23, SinkAction::ClearBelow));
    assert_eq!(descend_to_y(24, 64, 64), (24, SinkAction::Stop));
    assert_eq!(descend_to_y(0, 70, 64), (0, SinkAction::Stop));
}

#[test]
fn a_pillar_rises_to_its_target() {
    let b = column(7);
    let (s, a) = pillar_up(start_pillar(0, 0, 10), &b, 8, false);
    assert_eq!(a, PillarAction::Centre);
    let (s, a) = pillar_up(s, &b, 8, false);
    assert_eq!(a, PillarAction::Prepare((0, 10, 0), (0, 11, 0)));
    assert_eq!(pillar_up(s, &b, 8, false).1, PillarAction::Done(false));
    let (s, a) = pillar_up(s, &b, 8, true);
    assert_eq!(a, PillarAction::Jump(8));
    // In the air the feet are higher: the block goes under where they were.
    let (t, a) = pillar_up(s, &b, 9, true);
    assert_eq!(a, PillarAction::Land(Some((0, 7, 0))));
    assert_eq!(pillar_up(s, &column(6), 9, true).1, PillarAction::Land(None));
    assert_eq!(pillar_up(t, &b, 10, true).1, PillarAction::Done(true));
    let mut s = start_pillar(0, 0, 99);
    let mut steps = 0;
    while s.phase != PillarPhase::Over {
        s = pillar_up(s, &b, 8, true).0;
        steps += 1;
    }
    assert_eq!(steps, 97);
}

#[test]
fn open_fluid_is_preferred() {
    let b = blocks((0, 0, 0), 5, None, &[((1, 1, 0), "stone")]);
    let sources = vec![(1, 0, 0), (2, 0, 0), (3, 0, 0)];
    assert_eq!(find_fluid(&b, &sources, &vec![1, 9, 5]), Some(2));
    assert_eq!(find_fluid(&b, &vec![(1, 0, 0)], &vec![7]), Some(0));
    assert_eq!(find_fluid(&b, &vec![], &vec![]), None);
    assert_eq!(find_fluid(&b, &vec![(2, 0, 0), (3, 0, 0)], &vec![5, 5]), Some(0));
}

#[test]
fn buckets_are_filled_from_an_edge() {
    let b = blocks((-3, -1, -3), 7, None, &[((0, 0, 0), "lava"), ((1, 0, 0), "lava"), ((2, 0, 0), "stone"), ((1, 1, 1), "stone")]);
    // (0, 0, 0) has the raised stone at (1, 1, 1) beside it.
    assert_eq!(edge_source(&b, &vec![(0, 0, 0), (1, 0, 0)]), Some(((0, 0, 0), (1, 1, 1))));
    assert_eq!(edge_source(&b, &vec![(1, 0, 0)]), Some(((1, 0, 0), (2, 0, 0))));
    let covered = blocks((-3, -1, -3), 7, None, &[((1, 0, 0), "lava"), ((1, 1, 0), "stone"), ((2, 0, 0), "stone")]);
    assert_eq!(edge_source(&covered, &vec![(1, 0, 0)]), None);
}

fn fill_seen() -> FillSeen {
    FillSeen { buckets: 1, filled: 0, armed: true }
}

#[test]
fn a_bucket_is_filled_in_six_tries() {
    let b = blocks((-3, -1, -3), 7, None, &[((0, 0, 0), "lava"), ((1, 0, 0), "stone")]);
    let (sources, keys) = (vec![(0, 0, 0)], vec![1]);
    let seen = fill_seen();
    let (p, a) = fill_bucket(FillPhase::Start, true, &b, &vec![], &vec![], seen);
    assert_eq!(a, FillAction::Look);
    let (p, a) = fill_bucket(p, true, &b, &sources, &keys, seen);
    assert_eq!(a, FillAction::WalkTo((1, 1, 0)));
    let (p, a) = fill_bucket(p, true, &b, &sources, &keys, seen);
    assert_eq!(a, FillAction::Select);
    let mut phase = p;
    let mut uses = Vec::new();
    loop {
        let (next, action) = fill_bucket(phase, true, &b, &sources, &keys, seen);
        phase = next;
        match action {
            FillAction::Use(src, middle) => {
                assert_eq!(src, (0, 0, 0));
                uses.push(middle);
            }
            FillAction::Done(ok) => {
                assert!(!ok);
                break;
            }
            _ => panic!("unexpected"),
        }
    }
    assert_eq!(uses, vec![true, false, true, false, true, false]);
    let src = (0, 0, 0);
    let full = FillSeen { filled: 1, ..seen };
    assert_eq!(fill_bucket(FillPhase::Used(src, 2), true, &b, &sources, &keys, full).1, FillAction::Done(true));
    let bare = FillSeen { armed: false, ..seen };
    assert_eq!(fill_bucket(FillPhase::Used(src, 0), true, &b, &sources, &keys, bare).1, FillAction::Done(false));
    let none = FillSeen { buckets: 0, ..seen };
    assert_eq!(fill_bucket(FillPhase::Start, true, &b, &sources, &keys, none).1, FillAction::Done(false));
}

#[test]
fn lava_is_never_scooped_from_above() {
    // A source with nothing beside it to stand on.
    let b = blocks((-3, -1, -3), 7, None, &[((0, 0, 0), "lava"), ((1, 0, 0), "lava")]);
    let (sources, keys) = (vec![(0, 0, 0), (1, 0, 0)], vec![9, 4]);
    let look = FillPhase::Looked(false);
    assert_eq!(fill_bucket(look, true, &b, &sources, &keys, fill_seen()).1, FillAction::Done(false));
    assert_eq!(
        fill_bucket(look, false, &b, &sources, &keys, fill_seen()),
        (FillPhase::Walked((1, 0, 0)), FillAction::WalkTo((1, 1, 0)))
    );
    let (none, no_keys) = (vec![], vec![]);
    assert_eq!(
        fill_bucket(look, false, &b, &none, &no_keys, fill_seen()),
        (FillPhase::Looked(true), FillAction::LookAgain)
    );
    let again = FillPhase::Looked(true);
    assert_eq!(fill_bucket(again, false, &b, &none, &no_keys, fill_seen()).1, FillAction::Done(false));
    assert_eq!(fill_bucket(again, true, &b, &none, &no_keys, fill_seen()).1, FillAction::Done(false));
}

fn cast_seen() -> CastSeen {
    CastSeen {
        lava_buckets: 1,
        water_buckets: 1,
        ok: true,
        near: true,
        astray: false,
        feet: 10,
    }
}

const CUP: Pos = (0, 10, 0);

fn cup_of(inside: &str) -> Blocks {
    let stone = "stone";
    let walls = [((1, 10, 0), stone), ((-1, 10, 0), stone), ((0, 10, 1), stone), ((0, 10, -1), stone), ((0, 9, 0), stone)];
    let mut named = walls.to_vec();
    named.push((CUP, inside));
    blocks((-3, 7, -3), 7, None, &named)
}

fn tight() -> Blocks {
    cup_of("air")
}

#[test]
fn cup_walls_are_checked_one_by_one() {
    assert_eq!(next_gap(&tight(), CUP, 0, true), None);
    let leaky = blocks((-3, 7, -3), 7, None, &[((1, 10, 0), "stone"), ((-1, 10, 0), "stone")]);
    assert_eq!(next_gap(&leaky, CUP, 0, true), Some(2));
    assert_eq!(next_gap(&leaky, CUP, 0, false), Some(3));
    assert_eq!(next_gap(&leaky, CUP, 4, false), Some(4));
    assert_eq!(next_gap(&leaky, CUP, 5, true), None);
    assert_eq!(wall_of_cup(CUP, 2), (0, 10, 1));
    assert_eq!(wall_of_cup(CUP, 4), (0, 9, 0));
    assert_eq!(wall_of_bowl(CUP, 0), (1, 11, 0));
    assert_eq!(wall_of_bowl(CUP, 1), (-1, 11, 0));
    assert_eq!(wall_of_bowl(CUP, 2), (0, 11, -1));
}

#[test]
fn a_block_is_cast_with_lava_then_water() {
    let mut b = tight();
    let mut s = start_cast(Some((-6, 9, 0)), 10);
    let mut actions = Vec::new();
    let mut seen = CastSeen { lava_buckets: 0, ..cast_seen() };
    loop {
        let (next, action) = cast_obsidian_at(s, &b, CUP, seen);
        s = next;
        actions.push(action);
        match action {
            CastAction::FillLava => seen.lava_buckets = 1,
            CastAction::PillarTo(y) => seen.feet = y,
            CastAction::Wait => b = cup_of("obsidian"),
            CastAction::Done(..) => break,
            _ => {}
        }
    }
    assert_eq!(
        actions,
        vec![
            CastAction::WalkToPool((-6, 10, 0)),
            CastAction::FillLava,
            CastAction::Descend(10),
            CastAction::Approach((0, 10, 1)),
            CastAction::BuildBowl((1, 11, 0)),
            CastAction::BuildBowl((-1, 11, 0)),
            CastAction::BuildBowl((0, 11, -1)),
            CastAction::Centre(25),
            CastAction::PillarTo(11),
            CastAction::ClearCup((0, 10, 0), (0, 11, 0)),
            CastAction::Centre(30),
            CastAction::PourLava,
            CastAction::BuildSplash((0, 11, -1)),
            CastAction::PourWater((0, 11, -1)),
            CastAction::Wait,
            CastAction::Reclaim,
            CastAction::Done(true, true),
        ]
    );
}

#[test]
fn lava_is_not_poured_into_a_leaky_cup() {
    let leaky = blocks((-3, 7, -3), 7, None, &[]);
    let mut s = start_cast(None, 10);
    let mut steps = 0;
    let seen = CastSeen { feet: 11, ..cast_seen() };
    loop {
        let (next, action) = cast_obsidian_at(s, &leaky, CUP, seen);
        s = next;
        steps += 1;
        assert_ne!(action, CastAction::PourLava);
        if let CastAction::Done(ok, stand_up) = action {
            assert!(!ok && stand_up);
            break;
        }
    }
    assert!(steps <= 240);
    assert_eq!(s.phase, CastPhase::Over);
}

#[test]
fn a_cast_that_is_there_needs_no_work() {
    let start = start_cast(None, 10);
    assert_eq!(cast_obsidian_at(start, &cup_of("obsidian"), CUP, cast_seen()).1, CastAction::Done(true, false));
}

#[test]
fn a_cast_fails_without_fluids_or_footing() {
    let b = tight();
    let no_lava = CastSeen { lava_buckets: 0, ok: false, ..cast_seen() };
    let (s, a) = cast_obsidian_at(start_cast(None, 10), &b, CUP, no_lava);
    assert_eq!(a, CastAction::FillLava);
    assert_eq!(cast_obsidian_at(s, &b, CUP, no_lava).1, CastAction::Done(false, false));
    let no_water = CastSeen { water_buckets: 0, ok: false, ..cast_seen() };
    let (s, a) = cast_obsidian_at(start_cast(None, 10), &b, CUP, no_water);
    assert_eq!(a, CastAction::FillWater);
    assert_eq!(cast_obsidian_at(s, &b, CUP, no_water).1, CastAction::Done(false, false));
    let lost = CastSeen { near: false, astray: true, ..cast_seen() };
    let mut s = start_cast(None, 10);
    let mut approaches = 0;
    loop {
        let (next, action) = cast_obsidian_at(s, &b, CUP, lost);
        s = next;
        match action {
            CastAction::Approach(_) => approaches += 1,
            CastAction::Stage(p) => assert_eq!(p, (0, 10, 4)),
            CastAction::Done(ok, _) => {
                assert!(!ok);
                break;
            }
            _ => {}
        }
    }
    assert_eq!(approaches, 3);
    // Near, but up on the pillar of the block before.
    let (s, _) = cast_obsidian_at(start_cast(None, 10), &b, CUP, cast_seen());
    let (s, _) = cast_obsidian_at(s, &b, CUP, cast_seen());
    assert_eq!(s.phase, CastPhase::Approached(0));
    let high = CastSeen { feet: 12, ..cast_seen() };
    assert_eq!(cast_obsidian_at(s, &b, CUP, high).1, CastAction::Stage((0, 10, 4)));
}

#[test]
fn a_cast_is_tried_three_times() {
    let b = tight();
    let seen = CastSeen { feet: 11, ..cast_seen() };
    let mut s = start_cast(None, 10);
    let mut pours = 0;
    let mut waits = 0;
    loop {
        let (next, action) = cast_obsidian_at(s, &b, CUP, seen);
        s = next;
        match action {
            CastAction::PourLava => pours += 1,
            CastAction::Wait => waits += 1,
            CastAction::Done(ok, _) => {
                assert!(!ok);
                break;
            }
            _ => {}
        }
    }
    assert_eq!(pours, 3);
    assert_eq!(waits, 30);
}

#[test]
fn poured_water_is_found_level_by_level() {
    let b = blocks((-5, 5, -5), 11, None, &[((0, 10, 0), "water"), ((1, 11, 1), "water"), ((-2, 12, 2), "flowing_water"), ((3, 11, 0), "water")]);
    assert_eq!(waters_near(&b, CUP), vec![(1, 11, 1), (-2, 12, 2), (0, 10, 0)]);
}

#[test]
fn water_is_reclaimed_in_three_rounds() {
    let waters = vec![(1, 11, 1), (0, 10, 0)];
    let mut phase = ReclaimPhase::Start;
    let mut lists = 0;
    let mut scoops = Vec::new();
    loop {
        let (next, action) = reclaim_water(phase, 0, &waters);
        phase = next;
        match action {
            ReclaimAction::List => lists += 1,
            ReclaimAction::Scoop(p) => scoops.push(p),
            ReclaimAction::Stop => break,
        }
    }
    assert_eq!(lists, 3);
    assert_eq!(scoops.len(), 6);
    assert_eq!(scoops[..2], waters[..]);
    assert_eq!(scoops[4..], waters[..]);
    assert_eq!(reclaim_water(ReclaimPhase::Start, 1, &vec![]).1, ReclaimAction::Stop);
    assert_eq!(reclaim_water(ReclaimPhase::Trying(2, 0), 0, &vec![]).1, ReclaimAction::Stop);
    assert_eq!(reclaim_water(ReclaimPhase::Trying(2, 1), 1, &waters).1, ReclaimAction::Stop);
}

#[test]
fn panels_are_built_column_by_column() {
    let anchor = (10, 64, -5);
    let seen = WallSeen { feet: 100, ok: true };
    let mut phase = WallPhase::Start;
    let (mut placed, mut stands) = (Vec::new(), Vec::new());
    loop {
        let (next, action) = build_backing(anchor, phase, seen);
        phase = next;
        match action {
            WallAction::Place(p) => placed.push(p),
            WallAction::GoTo(p) => stands.push(p),
            WallAction::PillarTo(_) => panic!("high enough"),
            WallAction::Finish => break,
        }
    }
    assert_eq!(placed.len(), 20);
    assert_eq!(placed[0], (10, 64, -6));
    assert_eq!(placed[4], (10, 68, -6));
    assert_eq!(placed[5], (11, 64, -6));
    assert_eq!(stands, vec![(10, 64, -7), (11, 64, -7), (12, 64, -7), (13, 64, -7)]);
    let mut phase = WallPhase::Start;
    let mut placed = Vec::new();
    loop {
        let (next, action) = build_inner_fill(anchor, phase, seen);
        phase = next;
        match action {
            WallAction::Place(p) => placed.push(p),
            WallAction::Finish => break,
            _ => {}
        }
    }
    let column = |x: i32| vec![(x, 65, -5), (x, 66, -5), (x, 67, -5)];
    assert_eq!(placed, vec![column(11), column(12)].concat());
}

#[test]
fn a_column_is_left_where_the_bot_cannot_rise() {
    let anchor = (0, 64, 0);
    let low = WallSeen { feet: 64, ok: false };
    let (p, a) = build_inner_fill(anchor, WallPhase::Level(1, 1), low);
    assert_eq!(a, WallAction::PillarTo(65));
    assert_eq!(build_inner_fill(anchor, p, low).1, WallAction::GoTo((2, 64, 1)));
    assert_eq!(build_inner_fill(anchor, p, WallSeen { ok: true, ..low }).1, WallAction::Place((1, 65, 0)));
}

fn site_seen(lava: Option<Pos>) -> SiteSeen {
    SiteSeen { lava, late: false, feet: 12, lava_buckets: 1, buckets: 0 }
}

#[test]
fn lava_is_noticed_beside_a_cell() {
    let b = blocks((-2, -2, -2), 5, None, &[((1, 0, 0), "flowing_lava")]);
    assert!(lava_touching(&b, (0, 0, 0)));
    assert!(lava_touching(&b, (1, 0, 0)));
    assert!(!lava_touching(&b, (-1, 0, 0)));
    assert!(!lava_touching(&b, (0, 1, 0)));
}

#[test]
fn the_chamber_and_its_floor_have_their_cells() {
    let anchor = (100, 12, 50);
    assert_eq!(cell_of_chamber(anchor, 0), (99, 12, 48));
    assert_eq!(cell_of_chamber(anchor, 5), (100, 12, 48));
    assert_eq!(cell_of_chamber(anchor, 179), (104, 17, 52));
    assert_eq!(cell_of_floor(anchor, 0), (99, 11, 49));
    assert_eq!(cell_of_floor(anchor, 23), (104, 11, 52));
}

#[test]
fn the_site_is_cleared_but_not_near_lava() {
    // A pool at (0, 11, 0); the frame is anchored at (6, 12, 0).
    let b = blocks((0, 8, -6), 16, Some("air"), &[((0, 11, 0), "lava"), ((6, 12, 0), "stone"), ((7, 12, 0), "stone"), ((7, 13, 0), "lava"), ((8, 14, 1), "obsidian")]);
    let lava = (0, 11, 0);
    let (s, a) = prepare_cast_site(start_site(), &b, site_seen(None));
    assert_eq!(a, SiteAction::Look);
    let (s, a) = prepare_cast_site(s, &b, site_seen(Some(lava)));
    assert_eq!(a, SiteAction::GoTo((6, 12, 0)));
    let mut s = s;
    let mut dug = Vec::new();
    let mut laid = 0;
    let end = loop {
        let (next, action) = prepare_cast_site(s, &b, site_seen(None));
        s = next;
        match action {
            SiteAction::Dig(c) => dug.push(c),
            SiteAction::Lay(_) => laid += 1,
            SiteAction::Return(c) => assert_eq!(c, (6, 12, 0)),
            SiteAction::Done(end) => break end,
            _ => panic!("unexpected"),
        }
    };
    assert_eq!(dug, vec![(6, 12, 0)]);
    assert_eq!(laid, 24);
    assert_eq!(end, Some(lava));
    assert_eq!(s.phase, SitePhase::Over);
}

#[test]
fn the_site_is_given_up_without_lava_or_time() {
    let b = blocks((0, 8, -6), 16, Some("stone"), &[]);
    let deep = SiteSeen { feet: 40, ..site_seen(None) };
    let mut s = prepare_cast_site(start_site(), &b, deep).0;
    let mut looks = 0;
    loop {
        let (next, action) = prepare_cast_site(s, &b, deep);
        s = next;
        match action {
            SiteAction::LookDeeper(dig) => {
                assert!(dig);
                looks += 1;
            }
            SiteAction::Done(end) => {
                assert_eq!(end, None);
                break;
            }
            _ => panic!("unexpected"),
        }
    }
    assert_eq!(looks, 8);
    let (s, _) = prepare_cast_site(start_site(), &b, deep);
    let (s, _) = prepare_cast_site(s, &b, site_seen(Some((0, 11, 0))));
    let late = SiteSeen { late: true, ..site_seen(None) };
    assert_eq!(prepare_cast_site(s, &b, late).1, SiteAction::Done(None));
}

#[test]
fn a_lava_bucket_is_topped_up_at_the_site() {
    let b = blocks((0, 8, -6), 16, Some("stone"), &[]);
    let empty = SiteSeen { lava_buckets: 0, buckets: 1, ..site_seen(None) };
    let (s, _) = prepare_cast_site(start_site(), &b, empty);
    let (s, _) = prepare_cast_site(s, &b, SiteSeen { lava: Some((0, 11, 0)), ..empty });
    let mut s = s;
    let mut filled = false;
    loop {
        let (next, action) = prepare_cast_site(s, &b, empty);
        s = next;
        match action {
            SiteAction::FillLava => filled = true,
            SiteAction::Done(end) => {
                assert_eq!(end, None);
                break;
            }
            _ => {}
        }
    }
    assert!(filled);
}

#[test]
fn the_frame_has_ten_cells_and_no_corners() {
    let anchor = (6, 12, 0);
    let cells: Vec<Pos> = (0..10).map(|k| cell_of_frame(anchor, k)).collect();
    assert_eq!(
        cells,
        vec![
            (7, 12, 0),
            (8, 12, 0),
            (6, 13, 0),
            (6, 14, 0),
            (6, 15, 0),
            (9, 13, 0),
            (9, 14, 0),
            (9, 15, 0),
            (7, 16, 0),
            (8, 16, 0),
        ]
    );
}

#[test]
fn the_interior_is_dug_out_inside_the_frame() {
    let anchor = (6, 12, 0);
    let frame: Vec<Pos> = (0..10).map(|k| cell_of_frame(anchor, k)).collect();
    let inside: Vec<Pos> = (0..12).map(|n| cell_of_interior(anchor, n)).collect();
    assert_eq!(inside[0], (7, 13, 0));
    assert_eq!(inside[1], (7, 13, 1));
    assert_eq!(inside[11], (8, 15, 1));
    assert!(inside.iter().all(|c| !frame.contains(c)));
}

#[test]
fn cast_blocks_of_the_frame_are_counted() {
    let all = blocks((0, 8, -6), 16, Some("obsidian"), &[]);
    assert_eq!(frame_present(&all, (6, 12, 0)), 10);
    let most = blocks((0, 8, -6), 16, Some("obsidian"), &[((6, 14, 0), "lava"), ((6, 12, 0), "air")]);
    assert_eq!(frame_present(&most, (6, 12, 0)), 9);
}

fn portal_seen() -> PortalSeen {
    PortalSeen {
        obsidian_near: 0,
        cobble: 20,
        dirt: 10,
        ready: true,
        lava_buckets: 1,
        water_buckets: 1,
        buckets: 0,
        flint_and_steel: 1,
        at: (6, 12, 0),
        ok: true,
    }
}

/// A whole frame at (6, 12, 0), with something in the cell that is looked at for a portal.
fn frame_with(inside: &str) -> Blocks {
    blocks((0, 8, -6), 16, Some("obsidian"), &[((7, 13, 0), inside)])
}

fn portal_start() -> Portal {
    Portal { anchor: (0, 0, 0), phase: PortalPhase::Start }
}

#[test]
fn a_portal_is_cast_and_lit() {
    let mut s = portal_start();
    let mut casts = Vec::new();
    let mut others = Vec::new();
    loop {
        let (next, action) = build_nether_portal(s, &frame_with("nether_portal"), portal_seen());
        s = next;
        match action {
            PortalAction::Cast(k) => casts.push(k),
            PortalAction::Done(end) => {
                assert_eq!(end, PortalEnd::Lit((6, 12, 0)));
                break;
            }
            other => others.push(other),
        }
    }
    assert_eq!(casts, (0..10).collect::<Vec<u32>>());
    assert_eq!(
        others,
        vec![
            PortalAction::PrepareSite,
            PortalAction::FillInterior,
            PortalAction::OpenInterior,
            PortalAction::Light((7, 12, 0)),
        ]
    );
}

fn portal_end(phase: PortalPhase, seen: PortalSeen) -> PortalAction {
    build_nether_portal(Portal { anchor: (6, 12, 0), phase }, &frame_with("air"), seen).1
}

#[test]
fn a_portal_fails_for_its_reasons() {
    let seen = portal_seen();
    let poor = PortalSeen { cobble: 19, ..seen };
    assert_eq!(portal_end(PortalPhase::Start, poor), PortalAction::Done(PortalEnd::TooFewBlocks));
    assert_eq!(
        portal_end(PortalPhase::Start, PortalSeen { obsidian_near: 10, ..poor }),
        PortalAction::Cast(0)
    );
    let p = PortalPhase::Prepared;
    assert_eq!(portal_end(p, PortalSeen { ready: false, ..seen }), PortalAction::Done(PortalEnd::NoLava));
    assert_eq!(portal_end(p, PortalSeen { lava_buckets: 0, ..seen }), PortalAction::Done(PortalEnd::NoLavaBucket));
    assert_eq!(portal_end(p, PortalSeen { water_buckets: 0, ..seen }), PortalAction::Done(PortalEnd::NoWaterBucket));
    assert_eq!(
        portal_end(PortalPhase::Cast(5), PortalSeen { ok: false, ..seen }),
        PortalAction::Done(PortalEnd::CastFailed(5, (9, 13, 0)))
    );
    let opened = Portal { anchor: (6, 12, 0), phase: PortalPhase::Opened };
    let broken = blocks((0, 8, -6), 16, Some("obsidian"), &[((6, 14, 0), "lava")]);
    assert_eq!(build_nether_portal(opened, &broken, seen).1, PortalAction::Done(PortalEnd::FrameIncomplete(9)));
    assert_eq!(
        portal_end(PortalPhase::Opened, PortalSeen { flint_and_steel: 0, ..seen }),
        PortalAction::Done(PortalEnd::NoFlintAndSteel)
    );
    assert_eq!(portal_end(PortalPhase::Lit(0), seen), PortalAction::Light((8, 12, 0)));
    assert_eq!(portal_end(PortalPhase::Lit(1), seen), PortalAction::Done(PortalEnd::WouldNotLight));
}

#[test]
fn portals_are_reported() {
    assert_eq!(report_portal(PortalEnd::TooFewBlocks).message, "need ~30 cobble/dirt to scaffold the cast");
    assert_eq!(report_portal(PortalEnd::NoLava).message, "no lava pool found / lava bucket not filled");
    assert_eq!(report_portal(PortalEnd::NoLavaBucket).message, "need a lava bucket to cast obsidian");
    assert_eq!(report_portal(PortalEnd::NoWaterBucket).message, "need a water/empty bucket to cast obsidian");
    assert_eq!(report_portal(PortalEnd::CastFailed(3, (1, -2, 3))).message, "cast 3/10 — stuck at 1,-2,3");
    assert_eq!(report_portal(PortalEnd::FrameIncomplete(9)).message, "only 9/10 obsidian present");
    assert_eq!(report_portal(PortalEnd::NoFlintAndSteel).message, "frame cast but no flint & steel to light it");
    assert_eq!(report_portal(PortalEnd::WouldNotLight).message, "frame cast (10/10) but portal would not light");
    assert!(!report_portal(PortalEnd::WouldNotLight).success);
    let lit = report_portal(PortalEnd::Lit((6, 12, 0)));
    assert!(lit.success);
    assert_eq!(lit.message, "nether portal cast & lit at 6,12,0");
    assert_eq!(place_message((-1, 0, 7)), "-1,0,7");
}

#[test]
fn the_portal_is_entered_when_the_dimension_changes() {
    let start = Enter { left: 6, phase: EnterPhase::Top };
    let (s, a) = enter_nether(start, false);
    assert_eq!(a, EnterAction::WalkAndWait);
    assert_eq!(enter_nether(s, true).1, EnterAction::Done(true));
    assert_eq!(enter_nether(Enter { left: 2, phase: EnterPhase::Nudged }, true).1, EnterAction::Done(true));
    let mut s = start;
    let mut walks = 0;
    let mut waits = 0;
    let mut nudges = 0;
    loop {
        let (next, action) = enter_nether(s, false);
        s = next;
        match action {
            EnterAction::WalkAndWait => walks += 1,
            EnterAction::Wait => waits += 1,
            EnterAction::Nudge => nudges += 1,
            EnterAction::Done(ok) => {
                assert!(!ok);
                break;
            }
        }
    }
    assert_eq!((walks, waits, nudges), (6, 114, 6));
    assert_eq!(report_enter(false, false, "overworld").message, "no portal found to enter");
    assert_eq!(report_enter(true, true, "the_nether").message, "entered the nether (the_nether)");
    assert!(report_enter(true, true, "the_nether").success);
    assert_eq!(report_enter(true, false, "overworld").message, "stood in portal but no dimension change");
    assert!(!report_enter(true, false, "overworld").success);
}
