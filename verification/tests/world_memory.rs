use ruststeve::bot_utils::{forget_table, remember_table, remembered_table, remembered_table_from};
use ruststeve::items::Stack;
use ruststeve::memory::{
    count_from, count_of, empty_from, is_furnished, keeps_status, len_from, nearest_from, nearest_of,
    readable_rows, resumed_clock, says_unreachable, squared_distance, unreachable_from, unreachable_of,
    unreachable_spots_from, MemoryError, PoiKind, PoiStatus, WorldMemory,
};
use ruststeve::store::{carries_options, owns_schema, SchemaEntry, StoredPoi, EVENTS_SQL, POIS_SQL};
use ruststeve::tasks::bucket::remember_water;
use ruststeve::tasks::gather_wood::{give_up_tree, TreeFault};
use ruststeve::tasks::mining::known_ore_from;

fn memory() -> WorldMemory {
    match WorldMemory::open(":memory:") {
        Ok(m) => m,
        Err(_) => panic!("no memory"),
    }
}

const KINDS: [PoiKind; 16] = [
    PoiKind::Log,
    PoiKind::CoalOre,
    PoiKind::IronOre,
    PoiKind::GoldOre,
    PoiKind::DiamondOre,
    PoiKind::RedstoneOre,
    PoiKind::LapisOre,
    PoiKind::CopperOre,
    PoiKind::Gravel,
    PoiKind::Water,
    PoiKind::Lava,
    PoiKind::CraftingTable,
    PoiKind::Furnace,
    PoiKind::Chest,
    PoiKind::DescentPoint,
    PoiKind::SurfaceBase,
];

#[test]
fn kinds_are_named_and_read_back() {
    let mut names = Vec::new();
    for kind in KINDS {
        assert_eq!(PoiKind::from_str(kind.as_str()), Some(kind));
        assert!(!names.contains(&kind.as_str()));
        names.push(kind.as_str());
    }
    assert_eq!(PoiKind::CraftingTable.as_str(), "crafting_table");
    assert_eq!(PoiKind::from_str("bedrock"), None);
}

#[test]
fn statuses_are_taken_apart_and_put_together() {
    for status in [PoiStatus::Available, PoiStatus::NeedsTool(3), PoiStatus::Unreachable, PoiStatus::Gone] {
        let (s, tier) = status.parts();
        assert_eq!(PoiStatus::from_parts(s, tier), status);
    }
    assert_eq!(PoiStatus::NeedsTool(2).parts(), ("needs_tool", 2));
    assert_eq!(PoiStatus::Gone.parts(), ("gone", 0));
    assert_eq!(PoiStatus::from_parts("whatever", 7), PoiStatus::Available);
}

#[test]
fn a_new_memory_is_empty() {
    let m = memory();
    assert!(m.is_empty());
    assert_eq!(m.len(), 0);
    assert_eq!(m.ticks(), 0);
    assert_eq!(m.nearest(&[PoiKind::IronOre], (0, 0, 0), 4), None);
}

#[test]
fn a_directory_cannot_be_opened() {
    assert!(WorldMemory::open("/").is_err());
}

#[test]
fn what_is_recorded_is_offered() {
    let mut m = memory();
    assert!(m.record(PoiKind::CraftingTable, (1, 64, -3), PoiStatus::Available));
    let poi = m.nearest(&[PoiKind::CraftingTable], (0, 64, 0), 0).unwrap();
    assert_eq!(poi.kind, PoiKind::CraftingTable);
    assert_eq!(poi.pos, (1, 64, -3));
    assert_eq!(poi.status, PoiStatus::Available);
    assert_eq!(m.len(), 1);
    assert!(!m.is_empty());
    assert_eq!(m.count(PoiKind::CraftingTable), 1);
    assert_eq!(m.count(PoiKind::Furnace), 0);
    assert_eq!(m.ticks(), 1);
    assert_eq!(m.nearest(&[PoiKind::Furnace], (0, 64, 0), 4), None);
    assert_eq!(m.nearest(&[], (0, 64, 0), 4), None);
}

#[test]
fn the_nearest_of_the_kinds_is_offered() {
    let mut m = memory();
    assert!(m.record(PoiKind::IronOre, (10, 0, 0), PoiStatus::Available));
    assert!(m.record(PoiKind::IronOre, (-4, 0, 3), PoiStatus::Available));
    assert!(m.record(PoiKind::CoalOre, (1, 0, 0), PoiStatus::Available));
    assert_eq!(m.nearest(&[PoiKind::IronOre], (0, 0, 0), 1).unwrap().pos, (-4, 0, 3));
    assert_eq!(m.nearest(&[PoiKind::IronOre], (9, 0, 0), 1).unwrap().pos, (10, 0, 0));
    assert_eq!(m.nearest(&[PoiKind::IronOre, PoiKind::CoalOre], (0, 0, 0), 1).unwrap().pos, (1, 0, 0));
}

#[test]
fn an_ore_unlocks_with_the_tool() {
    let mut m = memory();
    assert!(m.observe(PoiKind::DiamondOre, (5, 11, 5), PoiStatus::NeedsTool(3)));
    assert_eq!(m.nearest(&[PoiKind::DiamondOre], (0, 11, 0), 2), None);
    assert_eq!(m.nearest(&[PoiKind::DiamondOre], (0, 11, 0), 3).unwrap().status, PoiStatus::NeedsTool(3));
    assert!(m.nearest(&[PoiKind::DiamondOre], (0, 11, 0), 4).is_some());
}

#[test]
fn a_sighting_does_not_reset_what_was_learned() {
    let mut m = memory();
    let spot = (3, 20, 4);
    assert!(m.record(PoiKind::IronOre, spot, PoiStatus::Unreachable));
    assert!(m.observe(PoiKind::IronOre, spot, PoiStatus::NeedsTool(2)));
    assert!(m.is_unreachable(spot));
    assert_eq!(m.nearest(&[PoiKind::IronOre], (0, 0, 0), 4), None);
    assert!(m.mark(spot, PoiStatus::Gone));
    assert!(m.observe(PoiKind::IronOre, spot, PoiStatus::NeedsTool(2)));
    assert_eq!(m.nearest(&[PoiKind::IronOre], (0, 0, 0), 4), None);
    assert!(!m.is_unreachable(spot));
    assert!(m.record(PoiKind::IronOre, spot, PoiStatus::Available));
    assert!(m.nearest(&[PoiKind::IronOre], (0, 0, 0), 0).is_some());
    assert_eq!(m.len(), 1);
}

#[test]
fn a_sighting_of_a_live_spot_is_recorded() {
    let mut m = memory();
    assert!(m.record(PoiKind::CoalOre, (0, 5, 0), PoiStatus::Available));
    assert!(m.observe(PoiKind::IronOre, (0, 5, 0), PoiStatus::NeedsTool(2)));
    let poi = m.nearest(&[PoiKind::IronOre], (0, 0, 0), 2).unwrap();
    assert_eq!(poi.status, PoiStatus::NeedsTool(2));
    assert_eq!(m.count(PoiKind::CoalOre), 0);
}

#[test]
fn marking_keeps_the_place_on_the_map() {
    let mut m = memory();
    assert!(m.record(PoiKind::Log, (1, 2, 3), PoiStatus::Available));
    assert!(m.record(PoiKind::Log, (4, 5, 6), PoiStatus::Available));
    assert!(m.mark((1, 2, 3), PoiStatus::Gone));
    assert_eq!(m.len(), 2);
    assert_eq!(m.nearest(&[PoiKind::Log], (1, 2, 3), 0).unwrap().pos, (4, 5, 6));
    assert!(m.mark((9, 9, 9), PoiStatus::Gone));
    assert_eq!(m.len(), 2);
}

#[test]
fn a_body_of_water_is_one_entry() {
    let mut m = memory();
    assert!(m.record(PoiKind::Water, (1, 62, 1), PoiStatus::Available));
    assert!(m.record(PoiKind::Water, (7, 63, 7), PoiStatus::Available));
    assert!(m.record(PoiKind::Water, (-1, 62, 0), PoiStatus::Available));
    assert_eq!(m.count(PoiKind::Water), 2);
    assert_eq!(WorldMemory::key(PoiKind::Water, (7, 63, -1)), (0, 56, -8));
    assert_eq!(WorldMemory::key(PoiKind::Lava, (-8, -9, 15)), (-8, -16, 8));
    assert_eq!(WorldMemory::key(PoiKind::IronOre, (7, 63, -1)), (7, 63, -1));
}

#[test]
fn unreachable_spots_are_listed() {
    let mut m = memory();
    assert!(m.record(PoiKind::Log, (1, 2, 3), PoiStatus::Unreachable));
    assert!(m.record(PoiKind::Log, (4, 5, 6), PoiStatus::Available));
    assert_eq!(m.unreachable_spots(), vec![(1, 2, 3)]);
    assert!(m.is_unreachable((1, 2, 3)));
    assert!(!m.is_unreachable((4, 5, 6)));
    assert!(!m.is_unreachable((7, 8, 9)));
}

#[test]
fn events_advance_the_clock_and_nothing_else() {
    let mut m = memory();
    assert!(m.record(PoiKind::Log, (1, 2, 3), PoiStatus::Available));
    assert!(m.log("session", "start", "localhost"));
    assert!(m.log("step", "gather_wood", "ok"));
    assert_eq!(m.ticks(), 3);
    assert_eq!(m.len(), 1);
}

#[test]
fn a_database_is_held_by_one_memory_at_a_time() {
    let name = "/tmp/ruststeve_held_by_one.db";
    prepare(name, BARE);
    let mut first = match WorldMemory::open(name) {
        Ok(m) => m,
        Err(_) => panic!("no memory"),
    };
    assert!(first.record(PoiKind::Furnace, (8, 9, 10), PoiStatus::NeedsTool(2)));
    assert_eq!(WorldMemory::open(name).err(), Some(MemoryError::Schema));
    assert!(first.log("session", "start", "a"));
    assert!(first.log("session", "stop", "b"));
    assert_eq!(first.ticks(), 3);
    drop(first);
    let mut second = match WorldMemory::open(name) {
        Ok(m) => m,
        Err(_) => panic!("no memory"),
    };
    assert_eq!(second.ticks(), 3);
    assert_eq!(second.nearest(&[PoiKind::Furnace], (0, 0, 0), 2).unwrap().pos, (8, 9, 10));
    assert!(second.log("session", "start", "c"));
    assert_eq!(second.ticks(), 4);
}

#[test]
fn a_name_with_options_is_refused() {
    assert!(carries_options("file:world?mode=memory"));
    assert!(!carries_options("file:world"));
    assert!(!carries_options("world?"));
    assert_eq!(WorldMemory::open("file:world?mode=memory&cache=shared").err(), Some(MemoryError::Open));
    assert_eq!(WorldMemory::open("/nowhere/at/all/world.db").err(), Some(MemoryError::Open));
}

#[test]
fn event_times_rise_across_sessions() {
    let name = "/tmp/ruststeve_event_times.db";
    prepare(name, BARE);
    let times = || {
        let conn = rusqlite::Connection::open(name).unwrap();
        let mut query = conn.prepare("SELECT t FROM events ORDER BY id").unwrap();
        let times: Vec<i64> = query.query_map([], |r| r.get(0)).unwrap().map(|t| t.unwrap()).collect();
        times
    };
    for _ in 0..2 {
        let mut m = match WorldMemory::open(name) {
            Ok(m) => m,
            Err(_) => panic!("no memory"),
        };
        assert!(m.log("session", "start", "a"));
        assert!(m.record(PoiKind::Log, (1, 2, 3), PoiStatus::Available));
        assert!(m.log("session", "stop", "b"));
    }
    let times = times();
    assert_eq!(times, vec![1, 3, 4, 6]);
}

#[test]
fn tables_trees_and_water_are_remembered() {
    let mut m = memory();
    assert!(remember_table(&mut m, (1, 64, 1)));
    assert_eq!(remembered_table(&m, (0, 64, 0)), Some((1, 64, 1)));
    assert!(forget_table(&mut m, (1, 64, 1)));
    assert_eq!(remembered_table(&m, (0, 64, 0)), None);
    assert_eq!(m.count(PoiKind::CraftingTable), 1);
    assert!(forget_table(&mut m, (9, 9, 9)));
    assert_eq!(m.len(), 1);
    assert_eq!(give_up_tree(&mut m, (5, 70, -3), TreeFault::Unfelled, "5,70,-3"), (true, true));
    assert!(m.is_unreachable((5, 70, -3)));
    assert_eq!(m.count(PoiKind::Log), 1);
    assert!(remember_water(&mut m, (7, 63, 7)));
    assert!(remember_water(&mut m, (1, 62, 1)));
    assert_eq!(m.nearest(&[PoiKind::Water], (0, 0, 0), 0).unwrap().pos, (0, 56, 0));
    assert_eq!(m.count(PoiKind::Water), 1);
    assert_eq!(m.ticks(), 5);
}

fn row(pos: (i32, i32, i32), kind: &str, status: &str, tier: i32) -> StoredPoi {
    StoredPoi {
        pos,
        kind: Some(kind.to_string()),
        status: Some(status.to_string()),
        tier: Some(tier),
        seen: Some(1),
    }
}

#[test]
fn rows_are_chosen_by_kind_status_and_distance() {
    let list = vec![
        row((0, 0, 9), "iron_ore", "available", 0),
        row((0, 0, 2), "iron_ore", "unreachable", 0),
        row((0, 0, 3), "iron_ore", "needs_tool", 3),
        row((0, 0, 1), "coal_ore", "available", 0),
        row((0, 0, 5), "iron_ore", "needs_tool", 2),
    ];
    assert_eq!(nearest_of(&list, &[PoiKind::IronOre], (0, 0, 0), 2).unwrap().pos, (0, 0, 5));
    assert_eq!(nearest_of(&list, &[PoiKind::IronOre], (0, 0, 0), 3).unwrap().pos, (0, 0, 3));
    assert_eq!(nearest_of(&list, &[PoiKind::IronOre], (0, 0, 0), 1).unwrap().pos, (0, 0, 9));
    assert_eq!(nearest_of(&list, &[PoiKind::Lava], (0, 0, 0), 4), None);
    assert_eq!(count_of(&list, PoiKind::IronOre), 4);
    assert_eq!(unreachable_of(&list), vec![(0, 0, 2)]);
    assert!(says_unreachable(&Some(row((0, 0, 2), "iron_ore", "unreachable", 0))));
    assert!(!says_unreachable(&Some(row((0, 0, 2), "iron_ore", "gone", 0))));
    assert!(!says_unreachable(&None));
}

#[test]
fn distances_do_not_overflow() {
    assert_eq!(squared_distance((1, 2, 3), (4, 6, 15)), 169);
    let d = 4294967295i128;
    assert_eq!(squared_distance((i32::MIN, 0, 0), (i32::MAX, 0, 0)), d * d);
}

fn broken<T>() -> Result<T, rusqlite::Error> {
    Err(rusqlite::Error::InvalidQuery)
}

#[test]
fn a_map_that_cannot_be_read_answers_nothing() {
    assert_eq!(nearest_from(&broken(), &[PoiKind::IronOre], (0, 0, 0), 4), None);
    assert_eq!(count_from(&broken(), PoiKind::IronOre), 0);
    assert_eq!(len_from(&broken()), 0);
    assert!(empty_from(&broken()));
    assert!(unreachable_spots_from(&broken()).is_empty());
    assert!(!unreachable_from(&broken()));
    assert_eq!(remembered_table_from(&broken(), (0, 0, 0)), None);
    assert_eq!(known_ore_from(&broken(), &vec![], (0, 0, 0), "iron"), None);
    assert_eq!(resumed_clock(&broken()), 0);
}

#[test]
fn a_map_that_was_read_answers() {
    let read: Result<Vec<StoredPoi>, rusqlite::Error> = Ok(vec![
        row((0, 0, 9), "iron_ore", "available", 0),
        row((0, 0, 2), "iron_ore", "unreachable", 0),
        row((0, 0, 5), "iron_ore", "needs_tool", 2),
        row((0, 7, 0), "crafting_table", "available", 0),
        row((0, 4, 0), "crafting_table", "gone", 0),
    ]);
    assert_eq!(nearest_from(&read, &[PoiKind::IronOre], (0, 0, 0), 1).unwrap().pos, (0, 0, 9));
    assert_eq!(count_from(&read, PoiKind::IronOre), 3);
    assert_eq!(len_from(&read), 5);
    assert!(!empty_from(&read));
    assert!(empty_from(&Ok(vec![])));
    assert_eq!(unreachable_spots_from(&read), vec![(0, 0, 2)]);
    assert!(unreachable_from(&Ok(Some(row((0, 0, 2), "iron_ore", "unreachable", 0)))));
    assert!(!unreachable_from(&Ok(Some(row((0, 0, 9), "iron_ore", "available", 0)))));
    assert!(!unreachable_from(&Ok(None)));
    assert_eq!(remembered_table_from(&read, (0, 0, 0)), Some((0, 7, 0)));
    let pick = vec![Some(Stack { name: "stone_pickaxe".to_string(), count: 1 })];
    assert_eq!(known_ore_from(&read, &pick, (0, 0, 0), "iron"), Some((0, 0, 5)));
    assert_eq!(known_ore_from(&read, &vec![], (0, 0, 0), "iron"), Some((0, 0, 9)));
    assert_eq!(known_ore_from(&read, &pick, (0, 0, 0), "coal"), None);
    assert_eq!(resumed_clock(&Ok(17)), 17);
}

#[test]
fn what_was_learned_is_kept() {
    assert!(keeps_status(&Some(row((1, 2, 3), "log", "unreachable", 0))));
    assert!(keeps_status(&Some(row((1, 2, 3), "log", "gone", 0))));
    assert!(!keeps_status(&Some(row((1, 2, 3), "log", "available", 0))));
    assert!(!keeps_status(&Some(StoredPoi { status: None, ..row((1, 2, 3), "log", "gone", 0) })));
    assert!(!keeps_status(&None));
}

#[test]
fn rows_with_empty_cells_are_rows() {
    let list = vec![
        StoredPoi { tier: None, ..row((0, 0, 1), "log", "needs_tool", 0) },
        StoredPoi { kind: None, ..row((0, 0, 2), "log", "available", 0) },
        StoredPoi { status: None, ..row((0, 0, 3), "log", "available", 0) },
        StoredPoi { tier: None, seen: None, ..row((0, 0, 4), "log", "available", 0) },
        StoredPoi { tier: None, ..row((0, 0, 5), "log", "unreachable", 0) },
    ];
    let nearest = nearest_of(&list, &[PoiKind::Log], (0, 0, 0), 4).unwrap();
    assert_eq!((nearest.pos, nearest.status), ((0, 0, 4), PoiStatus::Available));
    assert_eq!(count_of(&list, PoiKind::Log), 4);
    assert_eq!(unreachable_of(&list), vec![(0, 0, 5)]);
}

/// Has another program prepare a database.
fn prepare(name: &str, statements: &str) {
    rusqlite::Connection::open(name).unwrap().execute_batch(statements).unwrap();
}

const BARE: &str = "DROP TABLE IF EXISTS pois; DROP TABLE IF EXISTS events;
    DROP VIEW IF EXISTS other; DROP TABLE IF EXISTS third;";

#[test]
fn cells_of_another_type_leave_the_row_on_the_map() {
    let name = "/tmp/ruststeve_odd_cells.db";
    prepare(name, BARE);
    drop(WorldMemory::open(name).ok().unwrap());
    prepare(
        name,
        "INSERT INTO pois VALUES(1, 2, 3, 'log', 'unreachable', 'many', 1);
         INSERT INTO pois VALUES(4, 5, 6, 'log', 'available', 0, 'never');
         INSERT INTO pois VALUES(7, 8, NULL, 'log', 'unreachable', 0, 1);
         INSERT INTO pois VALUES(7, 8, 9, x'00', 'needs_tool', 2, 1);",
    );
    let mut m = WorldMemory::open(name).ok().unwrap();
    assert_eq!(m.len(), 3);
    assert_eq!(m.count(PoiKind::Log), 2);
    assert!(m.is_unreachable((1, 2, 3)));
    assert_eq!(m.unreachable_spots(), vec![(1, 2, 3)]);
    assert_eq!(m.nearest(&[PoiKind::Log], (0, 0, 0), 0).unwrap().pos, (4, 5, 6));
    assert!(m.observe(PoiKind::IronOre, (1, 2, 3), PoiStatus::Available));
    assert!(m.is_unreachable((1, 2, 3)));
    assert_eq!(m.count(PoiKind::IronOre), 1);
    assert!(m.observe(PoiKind::IronOre, (7, 8, 9), PoiStatus::NeedsTool(2)));
    assert_eq!(m.nearest(&[PoiKind::IronOre], (0, 0, 0), 2).unwrap().pos, (7, 8, 9));
    assert!(m.mark((4, 5, 6), PoiStatus::Gone));
    assert_eq!(m.nearest(&[PoiKind::Log], (0, 0, 0), 4), None);
    drop(m);
    let conn = rusqlite::Connection::open(name).unwrap();
    let read = |sql: &str| -> String { conn.query_row(sql, [], |r| r.get(0)).unwrap() };
    assert_eq!(read("SELECT kind || status || tier FROM pois WHERE x=1"), "iron_oreunreachablemany");
    assert_eq!(read("SELECT kind || status || seen FROM pois WHERE x=4"), "loggonenever");
    let rows = readable_rows(vec![broken(), Ok(row((0, 0, 9), "log", "available", 0)), broken()]);
    assert_eq!((rows.len(), rows[0].pos), (1, (0, 0, 9)));
}

#[test]
fn a_foreign_schema_is_refused() {
    let name = "/tmp/ruststeve_foreign.db";
    let alien = [
        "CREATE TABLE pois(x INTEGER, y INTEGER, z INTEGER, kind TEXT, status TEXT, tier INTEGER, seen INTEGER);",
        "CREATE TABLE pois(x REAL, y REAL, z REAL, kind TEXT NOT NULL, status TEXT NOT NULL,
             tier INTEGER NOT NULL DEFAULT 0, seen INTEGER NOT NULL DEFAULT 0, PRIMARY KEY(x, y, z));",
        "CREATE TABLE events(id INTEGER PRIMARY KEY AUTOINCREMENT, t TEXT, category TEXT, event TEXT, detail TEXT);",
        "CREATE TABLE third(x); CREATE VIEW other AS SELECT x FROM third;
         CREATE TRIGGER wipe INSTEAD OF INSERT ON other BEGIN DELETE FROM third; END;",
    ];
    for statements in alien {
        prepare(name, BARE);
        prepare(name, statements);
        assert_eq!(WorldMemory::open(name).err(), Some(MemoryError::Schema));
    }
    prepare(name, BARE);
    drop(WorldMemory::open(name).ok().unwrap());
    prepare(name, "CREATE TRIGGER wipe AFTER INSERT ON pois BEGIN DELETE FROM pois; END;");
    assert_eq!(WorldMemory::open(name).err(), Some(MemoryError::Schema));
    prepare(name, "DROP TRIGGER wipe; CREATE TRIGGER spill AFTER INSERT ON events BEGIN DELETE FROM pois; END;");
    assert_eq!(WorldMemory::open(name).err(), Some(MemoryError::Schema));
    prepare(name, "DROP TRIGGER spill;");
    assert!(WorldMemory::open(name).is_ok());
}

#[test]
fn a_database_with_other_texts_is_refused() {
    let name = "/tmp/ruststeve_utf16.db";
    prepare(name, "PRAGMA encoding='UTF-16'; CREATE TABLE IF NOT EXISTS third(x);");
    assert_eq!(WorldMemory::open(name).err(), Some(MemoryError::Schema));
}

fn entry(kind: &str, name: &str, sql: &str) -> SchemaEntry {
    SchemaEntry { kind: kind.to_string(), name: name.to_string(), sql: sql.to_string() }
}

fn own_schema() -> Vec<SchemaEntry> {
    vec![
        entry("table", "pois", POIS_SQL),
        entry("index", "sqlite_autoindex_pois_1", ""),
        entry("table", "events", EVENTS_SQL),
        entry("encoding", "UTF-8", ""),
    ]
}

#[test]
fn a_schema_is_compared_entry_by_entry() {
    assert!(owns_schema(&own_schema()));
    for k in [0, 2, 3] {
        let mut without = own_schema();
        without.remove(k);
        assert!(!owns_schema(&without));
    }
    let mut with_trigger = own_schema();
    with_trigger.push(entry("trigger", "wipe", "CREATE TRIGGER wipe"));
    assert!(!owns_schema(&with_trigger));
    let mut altered = own_schema();
    altered[0].sql = "CREATE TABLE pois(x)".to_string();
    assert!(!owns_schema(&altered));
    let mut renamed = own_schema();
    renamed[0].name = "POIS".to_string();
    assert!(!owns_schema(&renamed));
    assert!(is_furnished(&Ok(()), &Ok(own_schema())));
    assert!(!is_furnished(&Ok(()), &Ok(altered)));
    assert!(!is_furnished(&Ok(()), &broken()));
    assert!(!is_furnished(&broken(), &Ok(own_schema())));
}

#[test]
fn a_memory_that_is_opened_again_holds_what_it_held() {
    let name = "/tmp/ruststeve_again.db";
    prepare(name, BARE);
    let fresh = WorldMemory::open(name).ok().unwrap();
    assert!(fresh.is_empty());
    assert_eq!((fresh.len(), fresh.ticks()), (0, 0));
    drop(fresh);
    let mut m = WorldMemory::open(name).ok().unwrap();
    assert!(m.record(PoiKind::CraftingTable, (1, 2, 3), PoiStatus::Available));
    assert!(m.observe(PoiKind::IronOre, (4, 5, 6), PoiStatus::NeedsTool(2)));
    assert!(m.record(PoiKind::Log, (7, 8, 9), PoiStatus::Available));
    assert!(m.mark((7, 8, 9), PoiStatus::Unreachable));
    assert!(m.log("session", "start", "here"));
    drop(m);
    let events = || {
        let conn = rusqlite::Connection::open(name).unwrap();
        let mut query = conn.prepare("SELECT t, category, event, detail FROM events ORDER BY id").unwrap();
        let mut all: Vec<(i64, String, String, String)> = Vec::new();
        for row in query.query_map([], |r| Ok((r.get(0)?, r.get(1)?, r.get(2)?, r.get(3)?))).unwrap() {
            all.push(row.unwrap());
        }
        all
    };
    let before = events();
    assert_eq!(before, vec![(4, "session".to_string(), "start".to_string(), "here".to_string())]);
    let again = WorldMemory::open("file:/tmp/ruststeve_again.db").ok().unwrap();
    assert_eq!((again.len(), again.ticks()), (3, 4));
    assert_eq!(again.nearest(&[PoiKind::CraftingTable], (0, 0, 0), 0).unwrap().pos, (1, 2, 3));
    assert_eq!(again.nearest(&[PoiKind::IronOre], (0, 0, 0), 1), None);
    assert_eq!(again.nearest(&[PoiKind::IronOre], (0, 0, 0), 2).unwrap().pos, (4, 5, 6));
    assert!(again.is_unreachable((7, 8, 9)));
    drop(again);
    assert_eq!(events(), before);
}

#[test]
fn a_memory_is_set_up_in_steps() {
    let conn = || rusqlite::Connection::open_in_memory().unwrap();
    assert_eq!(WorldMemory::set_up(broken()).err(), Some(MemoryError::Open));
    assert_eq!(WorldMemory::set_up(Ok(conn())).ok().unwrap().ticks(), 0);
    assert_eq!(WorldMemory::finish(conn(), &Ok(5)).ticks(), 5);
    assert_eq!(WorldMemory::finish(conn(), &broken()).ticks(), 0);
}
