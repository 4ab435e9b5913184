//! The two tables that the bot keeps in SQLite, and the calls that reach them.
//!
//! Everything here goes through `rusqlite`. A database belongs to one handle at a
//! time: a connection first takes its database for itself and keeps it locked until
//! it is closed, and everything else is asked only of a connection that has done so.
//! So the rows that it finds are those that it left. Rows are read and written only
//! where the tables are those that `create_tables` makes, nothing is triggered by a
//! change of theirs, and texts are kept in UTF-8.

use crate::text::{contains, is_head, occurs_in, same, starts_with};
use rusqlite::OptionalExtension;
use vstd::prelude::*;

verus! {

/// `rusqlite::Connection`, carried through as an opaque value.
#[verifier::external_type_specification]
#[verifier::external_body]
pub struct ExConnection(rusqlite::Connection);

/// `rusqlite::Error`, carried through as an opaque value.
#[verifier::external_type_specification]
#[verifier::external_body]
pub struct ExSqlError(rusqlite::Error);

/// The connection was opened under a name without options, and has not been used since.
pub uninterp spec fn is_fresh(conn: rusqlite::Connection) -> bool;

/// The name under which the connection was opened.
pub uninterp spec fn opened_as(conn: rusqlite::Connection) -> Seq<char>;

/// The connection has its database locked for itself, until it is closed: nothing but a
/// statement on it changes the database.
pub uninterp spec fn held_alone(conn: rusqlite::Connection) -> bool;

/// The database has something under the name of each of the tables and of the index that
/// `create_tables` asks for.
pub uninterp spec fn has_tables(conn: rusqlite::Connection) -> bool;

/// What a database that is held alone says of itself: the entries of its schema by type,
/// name and SQL text, empty where an entry has none, and an entry of type `encoding` whose
/// name is the encoding of its texts.
pub uninterp spec fn schema_rows(conn: rusqlite::Connection) -> Seq<
    (Seq<char>, Seq<char>, Seq<char>),
>;

/// The rows of the table `pois`: position to kind, status, tier and time seen. A row whose
/// position is not made of three integers that an `i32` holds is none of them, and a cell
/// of another type than its column's is empty; only another program can have put either
/// there. Of a fresh connection these are the rows that it finds when it takes its
/// database.
pub uninterp spec fn poi_rows(conn: rusqlite::Connection) -> Map<
    (i32, i32, i32),
    (Option<Seq<char>>, Option<Seq<char>>, Option<i32>, Option<i64>),
>;

/// The rows of the table `events` in order: time, category, event and detail. A row whose
/// time is no integer is none of them, and a cell without text stands for an empty one;
/// only another program can have put either there. Of a fresh connection these are the
/// rows that it finds when it takes its database.
pub uninterp spec fn event_rows(conn: rusqlite::Connection) -> Seq<
    (i64, Seq<char>, Seq<char>, Seq<char>),
>;

/// One row of the table `pois`. A cell of another type than its column's is empty.
pub struct StoredPoi {
    pub pos: (i32, i32, i32),
    pub kind: Option<String>,
    pub status: Option<String>,
    pub tier: Option<i32>,
    pub seen: Option<i64>,
}

/// What a cell of text holds.
pub open spec fn cell_text(cell: Option<String>) -> Option<Seq<char>> {
    match cell {
        Some(text) => Some(text@),
        None => None,
    }
}

impl View for StoredPoi {
    /// The position, and what stands there.
    type V = (
        (i32, i32, i32),
        (Option<Seq<char>>, Option<Seq<char>>, Option<i32>, Option<i64>),
    );

    open spec fn view(&self) -> Self::V {
        (self.pos, (cell_text(self.kind), cell_text(self.status), self.tier, self.seen))
    }
}

/// One entry of the schema.
pub struct SchemaEntry {
    pub kind: String,
    pub name: String,
    pub sql: String,
}

impl View for SchemaEntry {
    type V = (Seq<char>, Seq<char>, Seq<char>);

    open spec fn view(&self) -> Self::V {
        (self.kind@, self.name@, self.sql@)
    }
}

/// The entries of a list.
pub open spec fn entries(list: Seq<SchemaEntry>) -> Seq<(Seq<char>, Seq<char>, Seq<char>)> {
    list.map_values(|entry: SchemaEntry| entry@)
}

/// The table of points of interest, as the schema has it.
pub const POIS_SQL: &'static str = "CREATE TABLE pois(
                 x INTEGER, y INTEGER, z INTEGER,
                 kind TEXT NOT NULL, status TEXT NOT NULL, tier INTEGER NOT NULL DEFAULT 0,
                 seen INTEGER NOT NULL DEFAULT 0,
                 PRIMARY KEY(x, y, z)
             )";

/// The table of events, as the schema has it.
pub const EVENTS_SQL: &'static str = "CREATE TABLE events(
                 id INTEGER PRIMARY KEY AUTOINCREMENT,
                 t INTEGER, category TEXT, event TEXT, detail TEXT
             )";

/// The two tables are those that `create_tables` makes, there are no triggers, and texts
/// are kept in UTF-8.
pub open spec fn is_own_schema(schema: Seq<(Seq<char>, Seq<char>, Seq<char>)>) -> bool {
    &&& schema.contains(("table"@, "pois"@, POIS_SQL@))
    &&& schema.contains(("table"@, "events"@, EVENTS_SQL@))
    &&& schema.contains(("encoding"@, "UTF-8"@, ""@))
    &&& forall|i: int| 0 <= i < schema.len() ==> (#[trigger] schema[i]).0 != "trigger"@
}

/// The tables of the database are those that `create_tables` makes, nothing is triggered by
/// a change of theirs, and texts are kept as they are written.
pub open spec fn own_tables(conn: rusqlite::Connection) -> bool {
    is_own_schema(schema_rows(conn))
}

/// What could be read of the rows of a table.
pub open spec fn readable(list: Seq<Result<StoredPoi, rusqlite::Error>>) -> Seq<StoredPoi>
    decreases list.len(),
{
    if list.len() == 0 {
        Seq::empty()
    } else {
        match list.last() {
            Ok(row) => readable(list.drop_last()).push(row),
            Err(_) => readable(list.drop_last()),
        }
    }
}

/// `list` holds every row of `rows` once and nothing else.
pub open spec fn lists_rows(
    list: Seq<StoredPoi>,
    rows: Map<
        (i32, i32, i32),
        (Option<Seq<char>>, Option<Seq<char>>, Option<i32>, Option<i64>),
    >,
) -> bool {
    &&& forall|i: int|
        0 <= i < list.len() ==> rows.contains_key(#[trigger] list[i].pos) && rows[list[i].pos]
            == list[i]@.1
    &&& forall|pos: (i32, i32, i32)| #[trigger]
        rows.contains_key(pos) ==> exists|i: int| 0 <= i < list.len() && #[trigger] list[i].pos == pos
    &&& forall|i: int, j: int|
        0 <= i < j < list.len() ==> (#[trigger] list[i]).pos != (#[trigger] list[j]).pos
}

/// `t` is the latest time in `events`, or 0 where there is none.
pub open spec fn is_latest(t: i64, events: Seq<(i64, Seq<char>, Seq<char>, Seq<char>)>) -> bool {
    if events.len() == 0 {
        t == 0
    } else {
        &&& exists|i: int| 0 <= i < events.len() && (#[trigger] events[i]).0 == t
        &&& forall|i: int| 0 <= i < events.len() ==> (#[trigger] events[i]).0 <= t
    }
}

/// The name carries options to SQLite: it is a URI with a query. Options can share a
/// database between handles, or leave locks out.
pub open spec fn has_options(name: Seq<char>) -> bool {
    is_head("file:"@, name) && occurs_in("?"@, name)
}

/// Does the name carry options to SQLite?
pub fn carries_options(name: &str) -> (r: bool)
    ensures
        r == has_options(name@),
{
    starts_with(name, "file:") && contains(name, "?")
}

/// Does the schema have the two tables as `create_tables` makes them, no triggers, and
/// texts in UTF-8?
pub fn owns_schema(list: &Vec<SchemaEntry>) -> (r: bool)
    ensures
        r == is_own_schema(entries(list@)),
{
    let mut pois: bool = false;
    let mut events: bool = false;
    let mut utf8: bool = false;
    let mut i: usize = 0;
    while i < list.len()
        invariant
            i <= list@.len(),
            pois == exists|j: int|
                0 <= j < i && (#[trigger] list@[j])@ == ("table"@, "pois"@, POIS_SQL@),
            events == exists|j: int|
                0 <= j < i && (#[trigger] list@[j])@ == ("table"@, "events"@, EVENTS_SQL@),
            utf8 == exists|j: int|
                0 <= j < i && (#[trigger] list@[j])@ == ("encoding"@, "UTF-8"@, ""@),
            forall|j: int| 0 <= j < i ==> (#[trigger] list@[j])@.0 != "trigger"@,
        decreases list@.len() - i,
    {
        let kind = list[i].kind.as_str();
        let name = list[i].name.as_str();
        let sql = list[i].sql.as_str();
        if same(kind, "trigger") {
            proof {
                assert(entries(list@)[i as int].0 == "trigger"@);
            }
            return false;
        }
        let is_table: bool = same(kind, "table");
        if is_table && same(name, "pois") && same(sql, POIS_SQL) {
            assert(list@[i as int]@ == ("table"@, "pois"@, POIS_SQL@));
            pois = true;
        }
        if is_table && same(name, "events") && same(sql, EVENTS_SQL) {
            assert(list@[i as int]@ == ("table"@, "events"@, EVENTS_SQL@));
            events = true;
        }
        if same(kind, "encoding") && same(name, "UTF-8") && same(sql, "") {
            assert(list@[i as int]@ == ("encoding"@, "UTF-8"@, ""@));
            utf8 = true;
        }
        i += 1;
    }
    proof {
        let schema = entries(list@);
        assert forall|j: int| 0 <= j < schema.len() implies (#[trigger] schema[j]).0 != "trigger"@ by {
            assert(schema[j] == list@[j]@);
        }
        lemma_listed(list@, ("table"@, "pois"@, POIS_SQL@));
        lemma_listed(list@, ("table"@, "events"@, EVENTS_SQL@));
        lemma_listed(list@, ("encoding"@, "UTF-8"@, ""@));
    }
    pois && events && utf8
}

proof fn lemma_listed(list: Seq<SchemaEntry>, entry: (Seq<char>, Seq<char>, Seq<char>))
    ensures
        entries(list).contains(entry) <==> exists|j: int|
            0 <= j < list.len() && (#[trigger] list[j])@ == entry,
{
    if entries(list).contains(entry) {
        let j = choose|j: int| 0 <= j < entries(list).len() && entries(list)[j] == entry;
        assert(list[j]@ == entry);
    }
    if exists|j: int| 0 <= j < list.len() && (#[trigger] list[j])@ == entry {
        let j = choose|j: int| 0 <= j < list.len() && (#[trigger] list[j])@ == entry;
        assert(entries(list)[j] == entry);
    }
}

/// `rusqlite::Connection::open` on a name without options. The name `:memory:` makes a
/// new database that is empty. Which rows a file holds is not known before it is read, so
/// nothing is claimed of them.
#[verifier::external_body]
pub(crate) fn open_connection(path: &str) -> (r: Result<rusqlite::Connection, rusqlite::Error>)
    requires
        !has_options(path@),
    ensures
        r matches Ok(conn) ==> is_fresh(conn) && opened_as(conn) == path@,
        r matches Ok(conn) ==> (path@ == ":memory:"@ ==> poi_rows(conn) == Map::<
            (i32, i32, i32),
            (Option<Seq<char>>, Option<Seq<char>>, Option<i32>, Option<i64>),
        >::empty() && event_rows(conn) == Seq::<(i64, Seq<char>, Seq<char>, Seq<char>)>::empty()),
{
    rusqlite::Connection::open(path)
}

/// `rusqlite::Connection::execute_batch` on statements that switch to the exclusive
/// locking mode, in which locks are kept, and then take the lock of a writer: success
/// means that no other connection changes the database as long as this one is open. A
/// database that another connection has taken cannot be taken. No row changes.
#[verifier::external_body]
pub(crate) fn take_hold(conn: &mut rusqlite::Connection) -> (r: Result<(), rusqlite::Error>)
    requires
        is_fresh(*old(conn)),
    ensures
        opened_as(*final(conn)) == opened_as(*old(conn)),
        r is Ok ==> held_alone(*final(conn)),
        r is Ok ==> poi_rows(*final(conn)) == poi_rows(*old(conn)),
        r is Ok ==> event_rows(*final(conn)) == event_rows(*old(conn)),
{
    conn.execute_batch(
        "PRAGMA locking_mode=EXCLUSIVE;
         PRAGMA journal_mode=WAL;
         BEGIN EXCLUSIVE;
         COMMIT;",
    )
}

/// `rusqlite::Connection::execute_batch` on statements that create the tables
/// and the index where they are missing: no row of either table changes, and success means
/// that there is something under each of the names.
#[verifier::external_body]
pub(crate) fn create_tables(conn: &mut rusqlite::Connection) -> (r: Result<(), rusqlite::Error>)
    requires
        held_alone(*old(conn)),
    ensures
        held_alone(*final(conn)),
        opened_as(*final(conn)) == opened_as(*old(conn)),
        poi_rows(*final(conn)) == poi_rows(*old(conn)),
        event_rows(*final(conn)) == event_rows(*old(conn)),
        r is Ok ==> has_tables(*final(conn)),
{
    conn.execute_batch(
        "CREATE TABLE IF NOT EXISTS pois(
                 x INTEGER, y INTEGER, z INTEGER,
                 kind TEXT NOT NULL, status TEXT NOT NULL, tier INTEGER NOT NULL DEFAULT 0,
                 seen INTEGER NOT NULL DEFAULT 0,
                 PRIMARY KEY(x, y, z)
             );
         CREATE INDEX IF NOT EXISTS pois_kind ON pois(kind, status);
         CREATE TABLE IF NOT EXISTS events(
                 id INTEGER PRIMARY KEY AUTOINCREMENT,
                 t INTEGER, category TEXT, event TEXT, detail TEXT
             );",
    )
}

/// `rusqlite::Statement::query_map` on a `SELECT` of the whole schema and of the encoding:
/// an answer lists every entry.
#[verifier::external_body]
pub(crate) fn read_schema(conn: &rusqlite::Connection) -> (r: Result<Vec<SchemaEntry>, rusqlite::Error>)
    requires
        held_alone(*conn),
    ensures
        r matches Ok(list) ==> entries(list@) == schema_rows(*conn),
{
    let mut statement = conn.prepare(
        "SELECT type, name, IFNULL(sql, '') FROM sqlite_schema
         UNION ALL SELECT 'encoding', encoding, '' FROM pragma_encoding",
    )?;
    let rows = statement.query_map(
        [],
        |r| Ok(SchemaEntry { kind: r.get(0)?, name: r.get(1)?, sql: r.get(2)? }),
    )?;
    rows.collect()
}

/// `rusqlite::Connection::execute` on an `INSERT` that overwrites the row with
/// the same position. A statement that succeeds has put the row in the table;
/// one that fails has done so or left the table alone, and no other row moves.
#[verifier::external_body]
pub(crate) fn put_poi(
    conn: &mut rusqlite::Connection,
    pos: (i32, i32, i32),
    kind: &str,
    status: &str,
    tier: i32,
    seen: i64,
) -> (r: Result<usize, rusqlite::Error>)
    requires
        held_alone(*old(conn)),
        own_tables(*old(conn)),
    ensures
        held_alone(*final(conn)),
        opened_as(*final(conn)) == opened_as(*old(conn)),
        schema_rows(*final(conn)) == schema_rows(*old(conn)),
        has_tables(*final(conn)) == has_tables(*old(conn)),
        event_rows(*final(conn)) == event_rows(*old(conn)),
        r is Ok ==> poi_rows(*final(conn)) == poi_rows(*old(conn)).insert(
            pos,
            (Some(kind@), Some(status@), Some(tier), Some(seen)),
        ),
        r is Err ==> poi_rows(*final(conn)) == poi_rows(*old(conn)) || poi_rows(*final(conn))
            == poi_rows(*old(conn)).insert(pos, (Some(kind@), Some(status@), Some(tier), Some(seen))),
    no_unwind
{
    conn.execute(
        "INSERT INTO pois(x,y,z,kind,status,tier,seen) VALUES(?1,?2,?3,?4,?5,?6,?7)
         ON CONFLICT(x,y,z) DO UPDATE SET kind=excluded.kind, status=excluded.status,
             tier=excluded.tier, seen=excluded.seen",
        (pos.0, pos.1, pos.2, kind, status, tier, seen),
    )
}

/// The rows with another status and tier at a position that is on the map.
pub open spec fn with_status(
    rows: Map<
        (i32, i32, i32),
        (Option<Seq<char>>, Option<Seq<char>>, Option<i32>, Option<i64>),
    >,
    pos: (i32, i32, i32),
    status: Seq<char>,
    tier: i32,
) -> Map<(i32, i32, i32), (Option<Seq<char>>, Option<Seq<char>>, Option<i32>, Option<i64>)> {
    if rows.contains_key(pos) {
        rows.insert(pos, (rows[pos].0, Some(status), Some(tier), rows[pos].3))
    } else {
        rows
    }
}

/// `rusqlite::Connection::execute` on an `UPDATE` of the status and the tier of the row at
/// a position, where there is one. A statement that succeeds has changed these two cells;
/// one that fails has done so or left the table alone, and nothing else moves.
#[verifier::external_body]
pub(crate) fn set_status(
    conn: &mut rusqlite::Connection,
    pos: (i32, i32, i32),
    status: &str,
    tier: i32,
) -> (r: Result<usize, rusqlite::Error>)
    requires
        held_alone(*old(conn)),
        own_tables(*old(conn)),
    ensures
        held_alone(*final(conn)),
        opened_as(*final(conn)) == opened_as(*old(conn)),
        schema_rows(*final(conn)) == schema_rows(*old(conn)),
        has_tables(*final(conn)) == has_tables(*old(conn)),
        event_rows(*final(conn)) == event_rows(*old(conn)),
        r is Ok ==> poi_rows(*final(conn)) == with_status(poi_rows(*old(conn)), pos, status@, tier),
        r is Err ==> poi_rows(*final(conn)) == poi_rows(*old(conn)) || poi_rows(*final(conn))
            == with_status(poi_rows(*old(conn)), pos, status@, tier),
    no_unwind
{
    conn.execute(
        "UPDATE pois SET status=?1, tier=?2 WHERE x=?3 AND y=?4 AND z=?5",
        (status, tier, pos.0, pos.1, pos.2),
    )
}

/// The rows with another kind and time seen at a position that is on the map.
pub open spec fn with_sighting(
    rows: Map<
        (i32, i32, i32),
        (Option<Seq<char>>, Option<Seq<char>>, Option<i32>, Option<i64>),
    >,
    pos: (i32, i32, i32),
    kind: Seq<char>,
    seen: i64,
) -> Map<(i32, i32, i32), (Option<Seq<char>>, Option<Seq<char>>, Option<i32>, Option<i64>)> {
    if rows.contains_key(pos) {
        rows.insert(pos, (Some(kind), rows[pos].1, rows[pos].2, Some(seen)))
    } else {
        rows
    }
}

/// `rusqlite::Connection::execute` on an `UPDATE` of the kind and the time of the row at a
/// position, where there is one. A statement that succeeds has changed these two cells;
/// one that fails has done so or left the table alone, and nothing else moves.
#[verifier::external_body]
pub(crate) fn set_sighting(
    conn: &mut rusqlite::Connection,
    pos: (i32, i32, i32),
    kind: &str,
    seen: i64,
) -> (r: Result<usize, rusqlite::Error>)
    requires
        held_alone(*old(conn)),
        own_tables(*old(conn)),
    ensures
        held_alone(*final(conn)),
        opened_as(*final(conn)) == opened_as(*old(conn)),
        schema_rows(*final(conn)) == schema_rows(*old(conn)),
        has_tables(*final(conn)) == has_tables(*old(conn)),
        event_rows(*final(conn)) == event_rows(*old(conn)),
        r is Ok ==> poi_rows(*final(conn)) == with_sighting(poi_rows(*old(conn)), pos, kind@, seen),
        r is Err ==> poi_rows(*final(conn)) == poi_rows(*old(conn)) || poi_rows(*final(conn))
            == with_sighting(poi_rows(*old(conn)), pos, kind@, seen),
    no_unwind
{
    conn.execute(
        "UPDATE pois SET kind=?1, seen=?2 WHERE x=?3 AND y=?4 AND z=?5",
        (kind, seen, pos.0, pos.1, pos.2),
    )
}

/// `rusqlite::Connection::query_row` on a `SELECT` by primary key: an answer is
/// the row at that position, or nothing where the table has no such row.
#[verifier::external_body]
pub(crate) fn get_poi(conn: &rusqlite::Connection, pos: (i32, i32, i32)) -> (r: Result<
    Option<StoredPoi>,
    rusqlite::Error,
>)
    requires
        held_alone(*conn),
        own_tables(*conn),
    ensures
        r matches Ok(None) ==> !poi_rows(*conn).contains_key(pos),
        r matches Ok(Some(row)) ==> row.pos == pos && poi_rows(*conn).contains_key(pos)
            && poi_rows(*conn)[pos] == row@.1,
{
    conn.query_row(
        "SELECT x,y,z,kind,status,tier,seen FROM pois WHERE x=?1 AND y=?2 AND z=?3",
        pos,
        |r| Ok(StoredPoi {
            pos: (r.get(0)?, r.get(1)?, r.get(2)?),
            kind: r.get(3).ok(),
            status: r.get(4).ok(),
            tier: r.get(5).ok(),
            seen: r.get(6).ok(),
        }),
    ).optional()
}

/// `rusqlite::Statement::query_map` on a `SELECT` of the whole table: an answer
/// lists every row once, in no stated order, among them as errors those that are no
/// rows of the map.
#[verifier::external_body]
pub(crate) fn all_pois(conn: &rusqlite::Connection) -> (r: Result<
    Vec<Result<StoredPoi, rusqlite::Error>>,
    rusqlite::Error,
>)
    requires
        held_alone(*conn),
        own_tables(*conn),
    ensures
        r matches Ok(list) ==> lists_rows(readable(list@), poi_rows(*conn)),
{
    let mut statement = conn.prepare("SELECT x,y,z,kind,status,tier,seen FROM pois")?;
    let rows = statement.query_map([], |r| Ok((|| Ok(StoredPoi {
        pos: (r.get(0)?, r.get(1)?, r.get(2)?),
        kind: r.get(3).ok(),
        status: r.get(4).ok(),
        tier: r.get(5).ok(),
        seen: r.get(6).ok(),
    }))()))?;
    rows.collect()
}

/// `rusqlite::Connection::execute` on an `INSERT` into `events`. A statement
/// that succeeds has appended the row; one that fails has done so or left the
/// table alone.
#[verifier::external_body]
pub(crate) fn append_event(
    conn: &mut rusqlite::Connection,
    t: i64,
    category: &str,
    event: &str,
    detail: &str,
) -> (r: Result<usize, rusqlite::Error>)
    requires
        held_alone(*old(conn)),
        own_tables(*old(conn)),
    ensures
        held_alone(*final(conn)),
        opened_as(*final(conn)) == opened_as(*old(conn)),
        schema_rows(*final(conn)) == schema_rows(*old(conn)),
        has_tables(*final(conn)) == has_tables(*old(conn)),
        poi_rows(*final(conn)) == poi_rows(*old(conn)),
        r is Ok ==> event_rows(*final(conn)) == event_rows(*old(conn)).push(
            (t, category@, event@, detail@),
        ),
        r is Err ==> event_rows(*final(conn)) == event_rows(*old(conn)) || event_rows(*final(conn))
            == event_rows(*old(conn)).push((t, category@, event@, detail@)),
    no_unwind
{
    conn.execute(
        "INSERT INTO events(t,category,event,detail) VALUES(?1,?2,?3,?4)",
        (t, category, event, detail),
    )
}

/// `rusqlite::Connection::query_row` on the largest time in `events`: an answer
/// is that time, or 0 for an empty table.
#[verifier::external_body]
pub(crate) fn last_event_time(conn: &rusqlite::Connection) -> (r: Result<i64, rusqlite::Error>)
    requires
        held_alone(*conn),
        own_tables(*conn),
    ensures
        r matches Ok(t) ==> is_latest(t, event_rows(*conn)),
{
    conn.query_row("SELECT COALESCE(MAX(t), 0) FROM events", [], |r| r.get(0))
}

/// Every row that could be read is kept, in order; one that could not is left out.
pub proof fn law_readable_rows_are_kept(list: Seq<Result<StoredPoi, rusqlite::Error>>, row: StoredPoi)
    ensures
        readable(Seq::empty()).len() == 0,
        readable(list.push(Ok(row))) == readable(list).push(row),
        readable(list).len() <= list.len(),
    decreases list.len(),
{
    assert(list.push(Ok(row)).drop_last() =~= list);
    if list.len() > 0 {
        law_readable_rows_are_kept(list.drop_last(), row);
    }
}

/// A row that could not be read adds nothing.
pub proof fn law_unreadable_rows_are_left_out(list: Seq<Result<StoredPoi, rusqlite::Error>>, e: rusqlite::Error)
    ensures
        readable(list.push(Err(e))) == readable(list),
{
    assert(list.push(Err(e)).drop_last() =~= list);
}

/// The latest time is that of an event, and no event is later; of an empty log it is 0.
pub proof fn law_the_latest_is_latest(t: i64, events: Seq<(i64, Seq<char>, Seq<char>, Seq<char>)>, i: int)
    requires
        is_latest(t, events),
    ensures
        events.len() == 0 ==> t == 0,
        0 <= i < events.len() ==> events[i].0 <= t,
        events.len() > 0 ==> exists|k: int| 0 <= k < events.len() && (#[trigger] events[k]).0 == t,
{
}

/// A name carries options exactly if it is a URI and has a question mark in it.
pub proof fn law_options_come_in_uris(path: Seq<char>, query: Seq<char>)
    ensures
        has_options("file:"@ + path + "?"@ + query),
        !occurs_in("?"@, path) ==> !has_options(path),
        !is_head("file:"@, path) ==> !has_options(path),
{
    let head = "file:"@;
    let name = head + path + "?"@ + query;
    assert(name.subrange(0, head.len() as int) =~= head);
    let i = head.len() + path.len();
    assert(name.subrange(i as int, (i + "?"@.len()) as int) =~= "?"@);
    assert(crate::text::occurs_at("?"@, name, i as int));
}

/// A database is the memory's own only with both tables and texts in UTF-8, and a trigger
/// makes it another's.
pub proof fn law_own_schemas_have_no_triggers(
    schema: Seq<(Seq<char>, Seq<char>, Seq<char>)>,
    name: Seq<char>,
    sql: Seq<char>,
)
    ensures
        is_own_schema(schema) ==> !is_own_schema(schema.push(("trigger"@, name, sql))),
        schema.contains(("trigger"@, name, sql)) ==> !is_own_schema(schema),
        is_own_schema(schema) ==> schema.contains(("table"@, "pois"@, POIS_SQL@)),
        is_own_schema(schema) ==> schema.contains(("table"@, "events"@, EVENTS_SQL@)),
        is_own_schema(schema) ==> schema.contains(("encoding"@, "UTF-8"@, ""@)),
        is_own_schema(
            seq![
                ("table"@, "pois"@, POIS_SQL@),
                ("table"@, "events"@, EVENTS_SQL@),
                ("encoding"@, "UTF-8"@, ""@),
            ],
        ),
{
    if schema.contains(("trigger"@, name, sql)) {
        let i = choose|i: int| 0 <= i < schema.len() && schema[i] == ("trigger"@, name, sql);
        assert(schema[i].0 == "trigger"@);
    }
    let bad = schema.push(("trigger"@, name, sql));
    assert(bad[schema.len() as int].0 == "trigger"@);
    reveal_strlit("table");
    reveal_strlit("encoding");
    reveal_strlit("trigger");
    assert("table"@.len() == 5 && "encoding"@.len() == 8 && "trigger"@.len() == 7);
    let own = seq![
        ("table"@, "pois"@, POIS_SQL@),
        ("table"@, "events"@, EVENTS_SQL@),
        ("encoding"@, "UTF-8"@, ""@),
    ];
    assert(own[0] == ("table"@, "pois"@, POIS_SQL@));
    assert(own[1] == ("table"@, "events"@, EVENTS_SQL@));
    assert(own[2] == ("encoding"@, "UTF-8"@, ""@));
}

/// A change of status leaves the kind and the time of a row, a sighting its status and tier;
/// neither puts a place on the map, nor touches another.
pub proof fn law_updates_change_their_columns_only(
    rows: Map<
        (i32, i32, i32),
        (Option<Seq<char>>, Option<Seq<char>>, Option<i32>, Option<i64>),
    >,
    pos: (i32, i32, i32),
    text: Seq<char>,
    tier: i32,
    seen: i64,
    other: (i32, i32, i32),
)
    ensures
        with_status(rows, pos, text, tier).dom() =~= rows.dom(),
        with_sighting(rows, pos, text, seen).dom() =~= rows.dom(),
        rows.contains_key(other) && other != pos ==> with_status(rows, pos, text, tier)[other] == rows[other]
            && with_sighting(rows, pos, text, seen)[other] == rows[other],
        rows.contains_key(pos) ==> with_status(rows, pos, text, tier)[pos] == (
            rows[pos].0,
            Some(text),
            Some(tier),
            rows[pos].3,
        ),
        rows.contains_key(pos) ==> with_sighting(rows, pos, text, seen)[pos] == (
            Some(text),
            rows[pos].1,
            rows[pos].2,
            Some(seen),
        ),
{
}

/// Rows and entries are read cell by cell.
pub proof fn law_cells_are_read_as_they_are(row: StoredPoi, list: Seq<SchemaEntry>, i: int)
    ensures
        row@.0 == row.pos,
        row.kind matches Some(text) ==> row@.1.0 == Some(text@),
        row.kind is None ==> row@.1.0 is None,
        row.status matches Some(text) ==> row@.1.1 == Some(text@),
        row.status is None ==> row@.1.1 is None,
        row@.1.2 == row.tier,
        row@.1.3 == row.seen,
        0 <= i < list.len() ==> entries(list).len() == list.len() && entries(list)[i] == (
            list[i].kind@,
            list[i].name@,
            list[i].sql@,
        ),
{
}

} // verus!
