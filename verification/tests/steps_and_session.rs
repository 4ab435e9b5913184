use ruststeve::session::{
    connection_lost, goal_reached, join, session, start_session, JoinAction, JoinEvent, Session, SessionAction,
    SessionEnd, SessionPhase, SessionSeen,
};
use ruststeve::steps::{execute_step, get_next_step, progress, report_unknown, StepId, Task, STEPS, STEP_COUNT};
use ruststeve::memory::WorldMemory;
use ruststeve::survival::{escape_lava, handle_survival, in_lava, note_reflex, Reflex, ThrashAction};
use ruststeve::types::{GameState, Tier};
use ruststeve::world::{Blocks, Grid};

fn fresh() -> GameState {
    let mut s = GameState::default();
    s.world.dimension = "overworld".to_string();
    s.alive = true;
    s.equipment.pickaxe = Some(Tier::Nothing);
    s.equipment.sword = Some(Tier::Nothing);
    s
}

fn next_id(s: &GameState) -> Option<&'static str> {
    get_next_step(s).map(|step| step.id)
}

#[test]
fn a_fresh_bot_gathers_wood() {
    assert_eq!(next_id(&fresh()), Some("gather_wood"));
}

#[test]
fn a_dead_bot_has_no_step() {
    let mut s = fresh();
    s.alive = false;
    assert_eq!(next_id(&s), None);
    s.alive = true;
    s.world.dimension = "the_nether".to_string();
    assert_eq!(next_id(&s), None);
}

#[test]
fn the_furthest_step_is_picked() {
    let mut s = fresh();
    s.inventory.logs = 5;
    assert_eq!(next_id(&s), Some("craft_planks"));
    s.inventory.planks = 8;
    assert_eq!(next_id(&s), Some("craft_sticks"));
    s.inventory.sticks = 1;
    s.inventory.planks = 4;
    assert_eq!(next_id(&s), Some("craft_sticks"));
}

#[test]
fn a_lost_pickaxe_is_made_again_first() {
    let mut s = fresh();
    s.inventory.sticks = 2;
    s.inventory.planks = 3;
    assert_eq!(next_id(&s), Some("craft_wooden_pickaxe"));
    s.inventory.cobblestone = 3;
    assert_eq!(next_id(&s), Some("craft_stone_pickaxe"));
    s.inventory.iron_ingots = 3;
    assert_eq!(next_id(&s), Some("craft_iron_pickaxe"));
    s.inventory.sticks = 1;
    assert_ne!(next_id(&s), Some("craft_iron_pickaxe"));
}

#[test]
fn mining_waits_for_a_pickaxe() {
    let s = fresh();
    assert!(!StepId::MineStone.can_execute(&s));
    assert!(!StepId::MineIron.can_execute(&s));
    let mut t = fresh();
    t.equipment.pickaxe = Some(Tier::Wood);
    assert!(StepId::MineStone.can_execute(&t));
    assert!(!StepId::MineCoal.can_execute(&t));
    t.equipment.pickaxe = Some(Tier::Stone);
    assert!(StepId::MineCoal.can_execute(&t));
    assert!(!StepId::GatherFood.can_execute(&t));
}

#[test]
fn progress_counts_complete_steps() {
    assert_eq!(progress(&fresh()), (0, 17));
    let mut s = fresh();
    s.inventory.logs = 5;
    s.inventory.planks = 12;
    s.equipment.has_crafting_table = true;
    assert_eq!(progress(&s), (3, 17));
    assert_eq!(STEP_COUNT, 17);
    assert_eq!(STEPS.len(), 17);
}

#[test]
fn places_and_ids_name_one_step_each() {
    let mut ids = Vec::new();
    for place in 1..=STEP_COUNT {
        let step = StepId::at_place(place).step();
        assert_eq!(step.priority, place as i32);
        assert!(!ids.contains(&step.id));
        ids.push(step.id);
    }
    assert_eq!(ids[0], "gather_wood");
    assert_eq!(ids[16], "get_flint_and_steel");
    assert_eq!(StepId::MineIron.step().name, "Mine Iron Ore");
}

#[test]
fn ids_lead_to_tasks() {
    assert_eq!(execute_step("gather_wood"), Some(Task::GatherWood { target: 5 }));
    assert_eq!(execute_step("mine_stone"), Some(Task::MineStone { target: 16 }));
    assert_eq!(execute_step("mine_coal"), Some(Task::MineCoal { target: 10 }));
    assert_eq!(execute_step("mine_iron"), Some(Task::MineIron { target: 11 }));
    assert_eq!(execute_step("smelt_iron"), Some(Task::SmeltIron { target: 11 }));
    assert_eq!(execute_step("craft_bucket"), Some(Task::CraftBuckets { count: 2 }));
    assert_eq!(execute_step("get_water_buckets"), Some(Task::FillWaterBuckets { target: 2 }));
    assert_eq!(execute_step("gather_food"), Some(Task::GatherFood { target: 5 }));
    assert_eq!(execute_step("dance"), None);
    let r = report_unknown("dance");
    assert!(!r.success);
    assert_eq!(r.message, "no executor for step dance");
}

#[test]
fn reaching_a_target_completes_the_step() {
    let mut s = fresh();
    s.inventory.logs = 5;
    assert!(StepId::GatherWood.is_complete(&s));
    s.inventory.cobblestone = 16;
    assert!(StepId::MineStone.is_complete(&s));
    s.inventory.iron_ingots = 11;
    assert!(StepId::SmeltIron.is_complete(&s));
    s.inventory.iron_ingots = i32::MAX;
    s.inventory.iron_ore = i32::MAX;
    assert!(StepId::MineIron.is_complete(&s));
}

#[test]
fn joining_waits_for_twelve_chunks() {
    let mut chunks = 0;
    for _ in 0..11 {
        let (n, action) = join(chunks, JoinEvent::ChunkLoad);
        chunks = n;
        assert_eq!(action, JoinAction::Wait);
    }
    assert_eq!(join(chunks, JoinEvent::Spawn), (11, JoinAction::Wait));
    assert_eq!(join(chunks, JoinEvent::Other), (11, JoinAction::Wait));
    assert_eq!(join(chunks, JoinEvent::Death), (11, JoinAction::Respawn));
    assert_eq!(join(chunks, JoinEvent::Kicked), (11, JoinAction::Stop));
    assert_eq!(join(chunks, JoinEvent::Closed), (11, JoinAction::Stop));
    assert_eq!(join(chunks, JoinEvent::ChunkLoad), (12, JoinAction::Ready));
}

#[test]
fn goals_are_reached_by_rank() {
    assert!(!goal_reached("iron_pickaxe", 2));
    assert!(goal_reached("iron_pickaxe", 3));
    assert!(goal_reached("iron_pickaxe", 4));
    assert!(goal_reached("stone_pickaxe", 2));
    assert!(!goal_reached("wooden_pickaxe", 0));
    assert!(goal_reached("wooden_pickaxe", 1));
    assert!(!goal_reached("diamond_pickaxe", 4));
}

#[test]
fn dead_connections_are_told_from_messages() {
    assert!(connection_lost("disconnected"));
    assert!(connection_lost("craft stick: Broken pipe (os error 32)"));
    assert!(connection_lost("os error 32"));
    assert!(connection_lost("Connection reset by peer"));
    assert!(!connection_lost("gathered 3/5 logs"));
}

fn quiet() -> SessionSeen {
    SessionSeen { goal: None, reflex: false, message: String::new() }
}

fn stuck() -> GameState {
    let mut s = fresh();
    s.world.dimension = "the_nether".to_string();
    s
}

#[test]
fn a_session_checks_survival_before_it_runs_a_step() {
    let game = fresh();
    let (s, a) = session(start_session(), &game, &quiet());
    assert_eq!(a, SessionAction::CheckSurvival);
    let (again, b) = session(s, &game, &SessionSeen { reflex: true, ..quiet() });
    assert_eq!(b, SessionAction::Sync);
    assert_eq!(again.phase, SessionPhase::Synced);
    let (s, a) = session(s, &game, &quiet());
    assert_eq!(a, SessionAction::Run(StepId::GatherWood));
    let (s2, a) = session(s, &game, &SessionSeen { message: "gathered 2/5 logs".to_string(), ..quiet() });
    assert_eq!(a, SessionAction::Sync);
    assert_eq!(s2.phase, SessionPhase::Synced);
    let broken = SessionSeen { message: "craft stick: Broken pipe (os error 32)".to_string(), ..quiet() };
    let (_, a) = session(s, &game, &broken);
    assert_eq!(a, SessionAction::Stop(SessionEnd::ConnectionLost));
}

#[test]
fn a_session_ends_with_victory_or_the_goal() {
    let mut game = fresh();
    game.world.dragon_dead = true;
    let (_, a) = session(start_session(), &game, &quiet());
    assert_eq!(a, SessionAction::Stop(SessionEnd::Victory));
    let mut game = fresh();
    game.equipment.pickaxe = Some(Tier::Stone);
    let checked = Session { idle: 0, phase: SessionPhase::Checked };
    let race = SessionSeen { goal: Some("stone_pickaxe".to_string()), ..quiet() };
    assert_eq!(session(checked, &game, &race).1, SessionAction::Stop(SessionEnd::GoalReached));
    let longer = SessionSeen { goal: Some("iron_pickaxe".to_string()), ..quiet() };
    assert_eq!(session(checked, &game, &longer).1, SessionAction::Run(StepId::MineIron));
}

#[test]
fn death_leads_to_a_respawn() {
    let mut game = fresh();
    game.alive = false;
    let (s, a) = session(start_session(), &game, &quiet());
    assert_eq!(a, SessionAction::Respawn);
    assert_eq!(s, start_session());
}

#[test]
fn an_idle_session_stops() {
    let game = stuck();
    let mut s = start_session();
    let mut waits = 0;
    let mut told = 0;
    loop {
        let (next, action) = session(s, &game, &quiet());
        s = next;
        match action {
            SessionAction::Wait(first) => {
                waits += 1;
                if first {
                    told += 1;
                }
            }
            SessionAction::Stop(end) => {
                assert_eq!(end, SessionEnd::Idle);
                break;
            }
            _ => {}
        }
    }
    assert_eq!(waits, 201);
    assert_eq!(told, 1);
}

fn cell(name: &str) -> Blocks {
    Grid { min: (0, 0, 0), cells: vec![vec![vec![Some(name.to_string())], vec![Some("air".to_string())]]] }
}

#[test]
fn lava_at_feet_or_head_is_noticed() {
    assert!(in_lava(&cell("lava"), (0, 0, 0), (0, 1, 0)));
    assert!(in_lava(&cell("flowing_lava"), (0, -1, 0), (0, 0, 0)));
    assert!(!in_lava(&cell("water"), (0, 0, 0), (0, 1, 0)));
    assert!(!in_lava(&cell("lava"), (5, 0, 0), (5, 1, 0)));
}

#[test]
fn lava_is_escaped_before_water() {
    let at = |low: &str, high: &str| Grid {
        min: (0, 0, 0),
        cells: vec![vec![vec![Some(low.to_string())], vec![Some(high.to_string())]]],
    };
    let (feet, head) = ((0, 0, 0), (0, 1, 0));
    let mut mem = match WorldMemory::open(":memory:") {
        Ok(m) => m,
        Err(_) => panic!("no memory"),
    };
    assert_eq!(handle_survival(&at("lava", "water"), feet, head, &mut mem), Some(Reflex::EscapeLava(60)));
    assert_eq!(handle_survival(&at("air", "lava"), feet, head, &mut mem), Some(Reflex::EscapeLava(60)));
    assert_eq!(handle_survival(&at("water", "water"), feet, head, &mut mem), Some(Reflex::LeaveWater(80)));
    assert_eq!(mem.ticks(), 3);
    assert_eq!(handle_survival(&at("water", "air"), feet, head, &mut mem), None);
    assert_eq!(mem.ticks(), 3);
    assert!(mem.is_empty());
}

#[test]
fn reflexes_are_logged() {
    let name = "/tmp/ruststeve_reflexes.db";
    rusqlite::Connection::open(name)
        .unwrap()
        .execute_batch("DROP TABLE IF EXISTS pois; DROP TABLE IF EXISTS events;")
        .unwrap();
    let mut mem = match WorldMemory::open(name) {
        Ok(m) => m,
        Err(_) => panic!("no memory"),
    };
    assert!(note_reflex(&mut mem, Reflex::EscapeLava(60)));
    assert!(note_reflex(&mut mem, Reflex::LeaveWater(80)));
    drop(mem);
    let conn = rusqlite::Connection::open(name).unwrap();
    let mut query = conn.prepare("SELECT category, event, detail FROM events ORDER BY id DESC LIMIT 2").unwrap();
    let mut last: Vec<(String, String, String)> = Vec::new();
    for row in query.query_map([], |r| Ok((r.get(0)?, r.get(1)?, r.get(2)?))).unwrap() {
        last.push(row.unwrap());
    }
    let event = |a: &str, b: &str, c: &str| (a.to_string(), b.to_string(), c.to_string());
    assert_eq!(
        last,
        vec![event("survival", "water", "surfacing"), event("survival", "lava", "escaping")]
    );
}

#[test]
fn thrashing_stops_on_solid_ground() {
    let (feet, head) = ((0, 0, 0), (0, 1, 0));
    let (hot, cool) = (cell("lava"), cell("stone"));
    assert_eq!(escape_lava(60, &hot, feet, head, true, false), (59, ThrashAction::Thrash));
    assert_eq!(escape_lava(0, &hot, feet, head, true, false), (0, ThrashAction::Stop));
    assert_eq!(escape_lava(9, &hot, feet, head, true, true), (9, ThrashAction::Stop));
    assert_eq!(escape_lava(9, &cool, feet, head, false, false), (8, ThrashAction::Thrash));
    assert_eq!(escape_lava(9, &cool, feet, head, true, false), (9, ThrashAction::Stop));
}
