//! Persistent world memory and event log, kept in SQLite. Two tables:
//!
//! - `pois` is the bot's map of points of interest (ores, logs, water, placed
//!   tables and furnaces, descent anchors), keyed by position. The bot asks it
//!   first where something is, and only explores where it has no answer.
//! - `events` is a running diagnostic log (steps, mining, wood, errors).
//!
//! Entries are annotated, never silently forgotten: an unreachable tree or an
//! ore that needs a better tool stays on the map with a status, and "unlocks"
//! once the bot is ready for it.

use crate::store::{
    all_pois, append_event, carries_options, cell_text, create_tables, entries, event_rows, get_poi, has_options,
    has_tables, held_alone, is_fresh, is_latest, is_own_schema, last_event_time, lists_rows, open_connection,
    opened_as, own_tables, owns_schema, poi_rows, put_poi, read_schema, readable, set_sighting, set_status,
    take_hold, with_status, SchemaEntry, StoredPoi,
};
use crate::text::same;
use vstd::prelude::*;

verus! {

pub type Pos = (i32, i32, i32);

/// What stands beside a position in the table of points of interest: kind,
/// status, tier and the time it was last seen. A cell of another type than its column's is
/// empty.
pub type Row = (Option<Seq<char>>, Option<Seq<char>>, Option<i32>, Option<i64>);

#[derive(Debug, Clone, Copy, PartialEq, Eq, Structural)]
pub enum PoiKind {
    Log,
    CoalOre,
    IronOre,
    GoldOre,
    DiamondOre,
    RedstoneOre,
    LapisOre,
    CopperOre,
    Gravel,
    Water,
    Lava,
    CraftingTable,
    Furnace,
    Chest,
    DescentPoint,
    SurfaceBase,
}

impl PoiKind {
    /// The name of the kind in the table.
    pub open spec fn text(self) -> Seq<char> {
        match self {
            PoiKind::Log => "log"@,
            PoiKind::CoalOre => "coal_ore"@,
            PoiKind::IronOre => "iron_ore"@,
            PoiKind::GoldOre => "gold_ore"@,
            PoiKind::DiamondOre => "diamond_ore"@,
            PoiKind::RedstoneOre => "redstone_ore"@,
            PoiKind::LapisOre => "lapis_ore"@,
            PoiKind::CopperOre => "copper_ore"@,
            PoiKind::Gravel => "gravel"@,
            PoiKind::Water => "water"@,
            PoiKind::Lava => "lava"@,
            PoiKind::CraftingTable => "crafting_table"@,
            PoiKind::Furnace => "furnace"@,
            PoiKind::Chest => "chest"@,
            PoiKind::DescentPoint => "descent_point"@,
            PoiKind::SurfaceBase => "surface_base"@,
        }
    }

    pub fn as_str(self) -> (r: &'static str)
        ensures
            r@ == self.text(),
    {
        match self {
            PoiKind::Log => "log",
            PoiKind::CoalOre => "coal_ore",
            PoiKind::IronOre => "iron_ore",
            PoiKind::GoldOre => "gold_ore",
            PoiKind::DiamondOre => "diamond_ore",
            PoiKind::RedstoneOre => "redstone_ore",
            PoiKind::LapisOre => "lapis_ore",
            PoiKind::CopperOre => "copper_ore",
            PoiKind::Gravel => "gravel",
            PoiKind::Water => "water",
            PoiKind::Lava => "lava",
            PoiKind::CraftingTable => "crafting_table",
            PoiKind::Furnace => "furnace",
            PoiKind::Chest => "chest",
            PoiKind::DescentPoint => "descent_point",
            PoiKind::SurfaceBase => "surface_base",
        }
    }

    pub fn from_str(s: &str) -> (r: Option<PoiKind>)
        ensures
            r matches Some(kind) ==> kind.text() == s@,
            r is None ==> forall|kind: PoiKind| #[trigger] kind.text() != s@,
    {
        if same(s, "log") {
            Some(PoiKind::Log)
        } else if same(s, "coal_ore") {
            Some(PoiKind::CoalOre)
        } else if same(s, "iron_ore") {
            Some(PoiKind::IronOre)
        } else if same(s, "gold_ore") {
            Some(PoiKind::GoldOre)
        } else if same(s, "diamond_ore") {
            Some(PoiKind::DiamondOre)
        } else if same(s, "redstone_ore") {
            Some(PoiKind::RedstoneOre)
        } else if same(s, "lapis_ore") {
            Some(PoiKind::LapisOre)
        } else if same(s, "copper_ore") {
            Some(PoiKind::CopperOre)
        } else if same(s, "gravel") {
            Some(PoiKind::Gravel)
        } else if same(s, "water") {
            Some(PoiKind::Water)
        } else if same(s, "lava") {
            Some(PoiKind::Lava)
        } else if same(s, "crafting_table") {
            Some(PoiKind::CraftingTable)
        } else if same(s, "furnace") {
            Some(PoiKind::Furnace)
        } else if same(s, "chest") {
            Some(PoiKind::Chest)
        } else if same(s, "descent_point") {
            Some(PoiKind::DescentPoint)
        } else if same(s, "surface_base") {
            Some(PoiKind::SurfaceBase)
        } else {
            None
        }
    }
}

/// No two kinds share a name, so a name read back gives the kind it was written
/// for.
pub proof fn law_kind_names_are_distinct(a: PoiKind, b: PoiKind)
    requires
        a.text() == b.text(),
    ensures
        a == b,
{
    reveal_strlit("log");
    assert("log"@.len() == 3 && "log"@[0] == 'l');
    reveal_strlit("coal_ore");
    assert("coal_ore"@.len() == 8 && "coal_ore"@[0] == 'c');
    reveal_strlit("iron_ore");
    assert("iron_ore"@.len() == 8 && "iron_ore"@[0] == 'i');
    reveal_strlit("gold_ore");
    assert("gold_ore"@.len() == 8 && "gold_ore"@[0] == 'g');
    reveal_strlit("diamond_ore");
    assert("diamond_ore"@.len() == 11 && "diamond_ore"@[0] == 'd');
    reveal_strlit("redstone_ore");
    assert("redstone_ore"@.len() == 12 && "redstone_ore"@[0] == 'r');
    reveal_strlit("lapis_ore");
    assert("lapis_ore"@.len() == 9 && "lapis_ore"@[0] == 'l');
    reveal_strlit("copper_ore");
    assert("copper_ore"@.len() == 10 && "copper_ore"@[0] == 'c');
    reveal_strlit("gravel");
    assert("gravel"@.len() == 6 && "gravel"@[0] == 'g');
    reveal_strlit("water");
    assert("water"@.len() == 5 && "water"@[0] == 'w');
    reveal_strlit("lava");
    assert("lava"@.len() == 4 && "lava"@[0] == 'l');
    reveal_strlit("crafting_table");
    assert("crafting_table"@.len() == 14 && "crafting_table"@[0] == 'c');
    reveal_strlit("furnace");
    assert("furnace"@.len() == 7 && "furnace"@[0] == 'f');
    reveal_strlit("chest");
    assert("chest"@.len() == 5 && "chest"@[0] == 'c');
    reveal_strlit("descent_point");
    assert("descent_point"@.len() == 13 && "descent_point"@[0] == 'd');
    reveal_strlit("surface_base");
    assert("surface_base"@.len() == 12 && "surface_base"@[0] == 's');
}

#[derive(Debug, Clone, Copy, PartialEq, Eq, Structural)]
pub enum PoiStatus {
    /// Usable right now.
    Available,
    /// Seen, but needs a pickaxe of at least this tier (1 wood ... 4 diamond).
    NeedsTool(i32),
    /// The pathfinder could not reach it. Kept on the map, not deleted.
    Unreachable,
    /// Consumed, or no longer there.
    Gone,
}

impl PoiStatus {
    /// The name of the status in the table.
    pub open spec fn text(self) -> Seq<char> {
        match self {
            PoiStatus::Available => "available"@,
            PoiStatus::NeedsTool(_) => "needs_tool"@,
            PoiStatus::Unreachable => "unreachable"@,
            PoiStatus::Gone => "gone"@,
        }
    }

    /// The tier that is written beside the status.
    pub open spec fn tier(self) -> i32 {
        match self {
            PoiStatus::NeedsTool(t) => t,
            _ => 0,
        }
    }

    /// The status that a name and a tier stand for.
    pub open spec fn of_text(s: Seq<char>, tier: i32) -> PoiStatus {
        if s == "needs_tool"@ {
            PoiStatus::NeedsTool(tier)
        } else if s == "unreachable"@ {
            PoiStatus::Unreachable
        } else if s == "gone"@ {
            PoiStatus::Gone
        } else {
            PoiStatus::Available
        }
    }

    pub fn parts(self) -> (r: (&'static str, i32))
        ensures
            r.0@ == self.text(),
            r.1 == self.tier(),
    {
        match self {
            PoiStatus::Available => ("available", 0),
            PoiStatus::NeedsTool(t) => ("needs_tool", t),
            PoiStatus::Unreachable => ("unreachable", 0),
            PoiStatus::Gone => ("gone", 0),
        }
    }

    pub fn from_parts(s: &str, tier: i32) -> (r: PoiStatus)
        ensures
            r == PoiStatus::of_text(s@, tier),
    {
        if same(s, "needs_tool") {
            PoiStatus::NeedsTool(tier)
        } else if same(s, "unreachable") {
            PoiStatus::Unreachable
        } else if same(s, "gone") {
            PoiStatus::Gone
        } else {
            PoiStatus::Available
        }
    }
}

/// A status that is taken apart and put together again is the same status.
pub proof fn law_status_survives_the_table(status: PoiStatus)
    ensures
        PoiStatus::of_text(status.text(), status.tier()) == status,
{
    reveal_strlit("available");
    assert("available"@.len() == 9 && "available"@[0] == 'a');
    reveal_strlit("needs_tool");
    assert("needs_tool"@.len() == 10 && "needs_tool"@[0] == 'n');
    reveal_strlit("unreachable");
    assert("unreachable"@.len() == 11 && "unreachable"@[0] == 'u');
    reveal_strlit("gone");
    assert("gone"@.len() == 4 && "gone"@[0] == 'g');
}

#[derive(Debug, Clone, Copy, PartialEq, Eq)]
pub struct Poi {
    pub kind: PoiKind,
    pub pos: Pos,
    pub status: PoiStatus,
}

// ── what the table means ────────────────────────────────────────────────────

/// The multiple of 8 at or below `v`.
pub open spec fn snapped(v: i32) -> int {
    (v as int) / 8 * 8
}

/// Where a point of interest is stored. A body of water or lava is one entry
/// for each cube of 8 blocks; everything else has its own position.
pub open spec fn storage_key(kind: PoiKind, pos: Pos) -> Pos {
    match kind {
        PoiKind::Water | PoiKind::Lava => (
            snapped(pos.0) as i32,
            snapped(pos.1) as i32,
            snapped(pos.2) as i32,
        ),
        _ => pos,
    }
}

/// The row that `record` writes.
pub open spec fn recorded_row(kind: PoiKind, status: PoiStatus, t: i64) -> Row {
    (Some(kind.text()), Some(status.text()), Some(status.tier()), Some(t))
}

/// The bot has learned that there is nothing to get at this row.
pub open spec fn is_settled(row: Row) -> bool {
    row.1 == Some("unreachable"@) || row.1 == Some("gone"@)
}

/// The row that `observe` writes over `before`.
pub open spec fn observed_row(before: Option<Row>, kind: PoiKind, status: PoiStatus, t: i64) -> Row {
    match before {
        Some(row) if is_settled(row) => (Some(kind.text()), row.1, row.2, Some(t)),
        _ => recorded_row(kind, status, t),
    }
}

/// The rows after `mark`.
pub open spec fn marked_rows(rows: Map<Pos, Row>, pos: Pos, status: PoiStatus) -> Map<Pos, Row> {
    with_status(rows, pos, status.text(), status.tier())
}

pub open spec fn row_at(rows: Map<Pos, Row>, pos: Pos) -> Option<Row> {
    if rows.contains_key(pos) {
        Some(rows[pos])
    } else {
        None
    }
}

/// One of `kinds` has this name.
pub open spec fn names_one_of(kinds: Seq<PoiKind>, name: Seq<char>) -> bool {
    exists|i: int| 0 <= i < kinds.len() && (#[trigger] kinds[i]).text() == name
}

/// A bot that holds a pickaxe of `tier` can use this row now.
pub open spec fn is_usable(row: Row, kinds: Seq<PoiKind>, tier: i32) -> bool {
    &&& row.0 matches Some(name) && names_one_of(kinds, name)
    &&& row.1 == Some("available"@) || (row.1 == Some("needs_tool"@) && (row.2 matches Some(needed)
        && needed <= tier))
}

/// The square of the distance between two positions.
pub open spec fn distance2(a: Pos, b: Pos) -> int {
    (a.0 - b.0) * (a.0 - b.0) + (a.1 - b.1) * (a.1 - b.1) + (a.2 - b.2) * (a.2 - b.2)
}

/// `poi` is what the row at its position says.
pub open spec fn reads_row(poi: Poi, row: Row) -> bool {
    &&& row.0 == Some(poi.kind.text())
    &&& row.1 matches Some(status) && poi.status == PoiStatus::of_text(
        status,
        match row.2 {
            Some(tier) => tier,
            None => 0i32,
        },
    )
}

/// `poi` stands in `rows`, is usable, and no usable row is closer to `from`.
pub open spec fn is_nearest(
    poi: Poi,
    rows: Map<Pos, Row>,
    kinds: Seq<PoiKind>,
    from: Pos,
    tier: i32,
) -> bool {
    &&& rows.contains_key(poi.pos)
    &&& is_usable(rows[poi.pos], kinds, tier)
    &&& reads_row(poi, rows[poi.pos])
    &&& forall|other: Pos| #[trigger]
        rows.contains_key(other) && is_usable(rows[other], kinds, tier) ==> distance2(poi.pos, from)
            <= distance2(other, from)
}

/// No row of `rows` is usable.
pub open spec fn none_usable(rows: Map<Pos, Row>, kinds: Seq<PoiKind>, tier: i32) -> bool {
    forall|pos: Pos| #[trigger] rows.contains_key(pos) ==> !is_usable(rows[pos], kinds, tier)
}

fn snap(v: i32) -> (r: i32)
    ensures
        r == snapped(v),
        r <= v < r + 8,
{
    if v >= 0 {
        v / 8 * 8
    } else {
        let above: i64 = 7 - (v as i64);
        (-(above / 8 * 8)) as i32
    }
}

fn square(d: i128) -> (r: i128)
    requires
        -0x1_0000_0000 <= d <= 0x1_0000_0000,
    ensures
        r == d * d,
        0 <= r <= 0x1_0000_0000_0000_0000,
{
    assert(0 <= d * d <= 0x1_0000_0000_0000_0000) by (nonlinear_arith)
        requires
            -0x1_0000_0000 <= d <= 0x1_0000_0000,
    ;
    d * d
}

/// The square of the distance between two positions.
pub fn squared_distance(a: Pos, b: Pos) -> (r: i128)
    ensures
        r == distance2(a, b),
{
    let x: i128 = square(a.0 as i128 - b.0 as i128);
    let y: i128 = square(a.1 as i128 - b.1 as i128);
    let z: i128 = square(a.2 as i128 - b.2 as i128);
    x + y + z
}

fn names_kind(kinds: &[PoiKind], name: &str) -> (r: Option<PoiKind>)
    ensures
        r is Some == names_one_of(kinds@, name@),
        r matches Some(kind) ==> kind.text() == name@,
{
    let mut i: usize = 0;
    while i < kinds.len()
        invariant
            i <= kinds@.len(),
            forall|j: int| 0 <= j < i ==> (#[trigger] kinds@[j]).text() != name@,
        decreases kinds@.len() - i,
    {
        if same(kinds[i].as_str(), name) {
            assert(kinds@[i as int].text() == name@);
            return Some(kinds[i]);
        }
        i += 1;
    }
    None
}

/// Whether a cell holds this text.
fn holds(cell: &Option<String>, text: &str) -> (r: bool)
    ensures
        r == (cell_text(*cell) == Some(text@)),
{
    match cell {
        Some(held) => same(held.as_str(), text),
        None => false,
    }
}

/// What the row says, if the bot can use it now.
fn usable_poi(row: &StoredPoi, kinds: &[PoiKind], tier: i32) -> (r: Option<Poi>)
    ensures
        r is Some <==> is_usable(row@.1, kinds@, tier),
        r matches Some(poi) ==> poi.pos == row.pos && reads_row(poi, row@.1),
{
    let kind = match &row.kind {
        Some(name) => names_kind(kinds, name.as_str()),
        None => None,
    };
    let known: i32 = match row.tier {
        Some(needed) => needed,
        None => 0,
    };
    let ready: bool = match row.tier {
        Some(needed) => needed <= tier,
        None => false,
    };
    match (kind, &row.status) {
        (Some(kind), Some(status)) => {
            if same(status.as_str(), "available") || (same(status.as_str(), "needs_tool") && ready) {
                Some(Poi { kind, pos: row.pos, status: PoiStatus::from_parts(status.as_str(), known) })
            } else {
                None
            }
        },
        _ => None,
    }
}

/// No row of `list` is usable.
pub open spec fn no_row_usable(list: Seq<StoredPoi>, kinds: Seq<PoiKind>, tier: i32) -> bool {
    forall|i: int| 0 <= i < list.len() ==> !is_usable((#[trigger] list[i])@.1, kinds, tier)
}

/// `poi` is what a row of `list` says that is usable, no usable row is closer to `from`,
/// and it is the first of those at its distance.
pub open spec fn is_nearest_row(
    poi: Poi,
    list: Seq<StoredPoi>,
    kinds: Seq<PoiKind>,
    from: Pos,
    tier: i32,
) -> bool {
    exists|i: int|
        {
            &&& 0 <= i < list.len()
            &&& poi.pos == (#[trigger] list[i]).pos
            &&& is_usable(list[i]@.1, kinds, tier)
            &&& reads_row(poi, list[i]@.1)
            &&& forall|j: int|
                0 <= j < list.len() && is_usable((#[trigger] list[j])@.1, kinds, tier)
                    ==> distance2(poi.pos, from) <= distance2(list[j].pos, from)
            &&& forall|j: int|
                0 <= j < i && is_usable((#[trigger] list[j])@.1, kinds, tier) ==> distance2(
                    poi.pos,
                    from,
                ) < distance2(list[j].pos, from)
        }
}

/// The usable row of `list` that is nearest to `from`, where there is one. The
/// first of several at one distance is taken.
pub fn nearest_of(list: &Vec<StoredPoi>, kinds: &[PoiKind], from: Pos, tier: i32) -> (r: Option<Poi>)
    ensures
        r is None <==> no_row_usable(list@, kinds@, tier),
        r matches Some(poi) ==> is_nearest_row(poi, list@, kinds@, from, tier),
{
    let mut best: Option<Poi> = None;
    let mut best_distance: i128 = 0;
    let ghost mut at: int = -1;
    let mut i: usize = 0;
    while i < list.len()
        invariant
            i <= list@.len(),
            best is None <==> forall|j: int|
                0 <= j < i ==> !is_usable((#[trigger] list@[j])@.1, kinds@, tier),
            best matches Some(poi) ==> {
                &&& 0 <= at < i
                &&& poi.pos == list@[at].pos
                &&& is_usable(list@[at]@.1, kinds@, tier)
                &&& reads_row(poi, list@[at]@.1)
                &&& best_distance == distance2(poi.pos, from)
                &&& forall|j: int|
                    0 <= j < i && is_usable((#[trigger] list@[j])@.1, kinds@, tier)
                        ==> distance2(poi.pos, from) <= distance2(list@[j].pos, from)
                &&& forall|j: int|
                    0 <= j < at && is_usable((#[trigger] list@[j])@.1, kinds@, tier)
                        ==> distance2(poi.pos, from) < distance2(list@[j].pos, from)
            },
        decreases list@.len() - i,
    {
        if let Some(poi) = usable_poi(&list[i], kinds, tier) {
            let d: i128 = squared_distance(poi.pos, from);
            if best.is_none() || d < best_distance {
                best = Some(poi);
                best_distance = d;
                proof {
                    at = i as int;
                }
            }
        }
        i += 1;
    }
    best
}

/// The places in `rows` that hold something of `kind`, whatever its status.
pub open spec fn places_of_kind(rows: Map<Pos, Row>, kind: PoiKind) -> Set<Pos> {
    rows.dom().filter(|pos: Pos| rows[pos].0 == Some(kind.text()))
}

/// How many rows of `list` are of `kind`.
pub open spec fn rows_of_kind(list: Seq<StoredPoi>, kind: PoiKind) -> nat
    decreases list.len(),
{
    if list.len() == 0 {
        0
    } else {
        rows_of_kind(list.drop_last(), kind) + (if list.last()@.1.0 == Some(kind.text()) {
            1nat
        } else {
            0nat
        })
    }
}

/// How many rows of `list` are of `kind`.
pub fn count_of(list: &Vec<StoredPoi>, kind: PoiKind) -> (r: usize)
    ensures
        r == rows_of_kind(list@, kind),
{
    let mut n: usize = 0;
    let mut i: usize = 0;
    while i < list.len()
        invariant
            i <= list@.len(),
            n <= i,
            n == rows_of_kind(list@.take(i as int), kind),
        decreases list@.len() - i,
    {
        assert(list@.take(i + 1).drop_last() =~= list@.take(i as int));
        if holds(&list[i].kind, kind.as_str()) {
            n += 1;
        }
        i += 1;
    }
    assert(list@.take(list@.len() as int) =~= list@);
    n
}

/// Where the counter goes on from: the last event, or the start where the log cannot be
/// read.
pub fn resumed_clock(read: &Result<i64, rusqlite::Error>) -> (r: i64)
    ensures
        r == (match *read {
            Ok(t) => t,
            Err(_) => 0i64,
        }),
{
    match read {
        Ok(t) => *t,
        Err(_) => 0,
    }
}

/// Whether a database is ready: its tables were created where they were missing, and its
/// schema could be read and is the memory's own.
pub fn is_furnished(
    created: &Result<(), rusqlite::Error>,
    schema: &Result<Vec<SchemaEntry>, rusqlite::Error>,
) -> (r: bool)
    ensures
        r == (created is Ok && (*schema matches Ok(list) && is_own_schema(entries(list@)))),
{
    match (created, schema) {
        (Ok(_), Ok(list)) => owns_schema(list),
        _ => false,
    }
}

/// A count as an `i64` holds it.
pub open spec fn capped(n: nat) -> int {
    if n <= i64::MAX {
        n as int
    } else {
        i64::MAX as int
    }
}

fn as_count(n: usize) -> (r: i64)
    ensures
        r == capped(n as nat),
{
    if n as u64 <= 0x7fff_ffff_ffff_ffff {
        n as i64
    } else {
        i64::MAX
    }
}

/// Whether a row that was looked up says that its place cannot be reached.
pub fn says_unreachable(found: &Option<StoredPoi>) -> (r: bool)
    ensures
        r == (found matches Some(row) && row@.1.1 == Some("unreachable"@)),
{
    match found {
        Some(row) => holds(&row.status, "unreachable"),
        None => false,
    }
}

/// What is answered of a spot that was looked up: a spot that cannot be looked up counts
/// as reachable.
pub fn unreachable_from(read: &Result<Option<StoredPoi>, rusqlite::Error>) -> (r: bool)
    ensures
        r == (*read matches Ok(Some(row)) && row@.1.1 == Some("unreachable"@)),
{
    match read {
        Ok(found) => says_unreachable(found),
        Err(_) => false,
    }
}

/// The nearest usable entry of a map that was read; nothing where it cannot be read.
pub fn nearest_from(
    read: &Result<Vec<StoredPoi>, rusqlite::Error>,
    kinds: &[PoiKind],
    from: Pos,
    tier: i32,
) -> (r: Option<Poi>)
    ensures
        read is Err ==> r is None,
        *read matches Ok(list) ==> {
            &&& r is None <==> no_row_usable(list@, kinds@, tier)
            &&& r matches Some(poi) ==> is_nearest_row(poi, list@, kinds@, from, tier)
        },
{
    match read {
        Ok(list) => nearest_of(list, kinds, from, tier),
        Err(_) => None,
    }
}

/// How many entries of `kind` are on a map that was read; 0 where it cannot be read.
pub fn count_from(read: &Result<Vec<StoredPoi>, rusqlite::Error>, kind: PoiKind) -> (r: i64)
    ensures
        r == (match *read {
            Ok(list) => capped(rows_of_kind(list@, kind)),
            Err(_) => 0,
        }),
{
    match read {
        Ok(list) => as_count(count_of(list, kind)),
        Err(_) => 0,
    }
}

/// How many entries are on a map that was read; 0 where it cannot be read.
pub fn len_from(read: &Result<Vec<StoredPoi>, rusqlite::Error>) -> (r: i64)
    ensures
        r == (match *read {
            Ok(list) => capped(list@.len()),
            Err(_) => 0,
        }),
{
    match read {
        Ok(list) => as_count(list.len()),
        Err(_) => 0,
    }
}

/// The rows of a map that could be read, one by one: a row that could not does not keep
/// the others from being read.
pub fn readable_rows(list: Vec<Result<StoredPoi, rusqlite::Error>>) -> (r: Vec<StoredPoi>)
    ensures
        r@ == readable(list@),
{
    let ghost all = list@;
    let mut rows: Vec<StoredPoi> = Vec::new();
    proof {
        assert(all.take(0) =~= Seq::empty());
    }
    for next in read: list
        invariant
            read.seq() == all,
            rows@ == readable(all.take(read.index() as int)),
    {
        proof {
            let k = read.index() as int;
            assert(all.take(k + 1).drop_last() =~= all.take(k));
            assert(all.take(k + 1).last() == all[k]);
        }
        match next {
            Ok(row) => rows.push(row),
            Err(_) => {},
        }
    }
    proof {
        assert(all.take(all.len() as int) =~= all);
    }
    rows
}

/// Whether there is nothing on a map that was read; so it seems too where it cannot be
/// read.
pub fn empty_from(read: &Result<Vec<StoredPoi>, rusqlite::Error>) -> (r: bool)
    ensures
        r == (match *read {
            Ok(list) => list@.len() == 0,
            Err(_) => true,
        }),
{
    match read {
        Ok(list) => list.len() == 0,
        Err(_) => true,
    }
}

/// Whether the row that was found keeps its status when its spot is seen again: the bot has
/// learned that there is nothing to get there.
pub fn keeps_status(found: &Option<StoredPoi>) -> (r: bool)
    ensures
        r == (found matches Some(row) && is_settled(row@.1)),
{
    match found {
        Some(row) => holds(&row.status, "unreachable") || holds(&row.status, "gone"),
        None => false,
    }
}

// ── the memory itself ───────────────────────────────────────────────────────

/// Why the memory could not be opened.
#[derive(Debug, Clone, Copy, PartialEq, Eq)]
pub enum MemoryError {
    /// The database could not be opened.
    Open,
    /// The database could not be taken, or its tables could not be created or are not the
    /// memory's own.
    Schema,
}

pub struct WorldMemory {
    conn: rusqlite::Connection,
    tick: i64,
}

/// No event has a time above `t`.
pub open spec fn none_later(events: Seq<(i64, Seq<char>, Seq<char>, Seq<char>)>, t: i64) -> bool {
    forall|i: int| 0 <= i < events.len() ==> (#[trigger] events[i]).0 <= t
}

/// The row at `pos` says that the spot is unreachable.
pub open spec fn lists_unreachable(list: Seq<StoredPoi>, pos: Pos) -> bool {
    exists|i: int|
        0 <= i < list.len() && (#[trigger] list[i]).pos == pos && list[i]@.1.1 == Some("unreachable"@)
}

/// The positions of a list of rows that are unreachable.
pub fn unreachable_of(list: &Vec<StoredPoi>) -> (r: Vec<Pos>)
    ensures
        forall|pos: Pos| #[trigger] r@.contains(pos) <==> lists_unreachable(list@, pos),
{
    let mut spots: Vec<Pos> = Vec::new();
    let mut i: usize = 0;
    while i < list.len()
        invariant
            i <= list@.len(),
            forall|pos: Pos| #[trigger]
                spots@.contains(pos) <==> lists_unreachable(list@.take(i as int), pos),
        decreases list@.len() - i,
    {
        let ghost before = spots@;
        let bad: bool = holds(&list[i].status, "unreachable");
        if bad {
            spots.push(list[i].pos);
        }
        proof {
            let seen = list@.take(i as int);
            let next = list@.take(i + 1);
            assert(next[i as int] == list@[i as int]);
            assert forall|pos: Pos| #[trigger]
                spots@.contains(pos) <==> lists_unreachable(next, pos) by {
                assert(before.contains(pos) <==> lists_unreachable(seen, pos));
                if before.contains(pos) {
                    let k = choose|k: int| 0 <= k < before.len() && before[k] == pos;
                    assert(spots@[k] == pos);
                    let j = choose|j: int|
                        0 <= j < seen.len() && (#[trigger] seen[j]).pos == pos && seen[j]@.1.1
                            == Some("unreachable"@);
                    assert(next[j] == seen[j]);
                }
                if bad && pos == list@[i as int].pos {
                    assert(spots@[before.len() as int] == pos);
                }
                if lists_unreachable(next, pos) {
                    let j = choose|j: int|
                        0 <= j < next.len() && (#[trigger] next[j]).pos == pos && next[j]@.1.1
                            == Some("unreachable"@);
                    if j < i {
                        assert(seen[j] == next[j]);
                    }
                }
                if spots@.contains(pos) && !before.contains(pos) {
                    let k = choose|k: int| 0 <= k < spots@.len() && spots@[k] == pos;
                    if k < before.len() {
                        assert(before[k] == pos);
                    }
                }
            }
        }
        i += 1;
    }
    assert(list@.take(list@.len() as int) =~= list@);
    spots
}

/// The places that are unreachable on a map that was read; none where it cannot be read.
pub fn unreachable_spots_from(read: &Result<Vec<StoredPoi>, rusqlite::Error>) -> (r: Vec<Pos>)
    ensures
        read is Err ==> r@.len() == 0,
        *read matches Ok(list) ==> forall|pos: Pos| #[trigger]
            r@.contains(pos) <==> lists_unreachable(list@, pos),
{
    match read {
        Ok(list) => unreachable_of(list),
        Err(_) => Vec::new(),
    }
}

proof fn lemma_unreachable_of_list(list: Seq<StoredPoi>, rows: Map<Pos, Row>, spots: Seq<Pos>)
    requires
        lists_rows(list, rows),
        forall|pos: Pos| #[trigger] spots.contains(pos) <==> lists_unreachable(list, pos),
    ensures
        forall|pos: Pos| #[trigger]
            spots.contains(pos) <==> rows.contains_key(pos) && rows[pos].1 == Some("unreachable"@),
{
    assert forall|pos: Pos| #[trigger]
        spots.contains(pos) <==> rows.contains_key(pos) && rows[pos].1 == Some("unreachable"@) by {
        if lists_unreachable(list, pos) {
            let i = choose|i: int|
                0 <= i < list.len() && (#[trigger] list[i]).pos == pos && list[i]@.1.1
                    == Some("unreachable"@);
            assert(rows.contains_key(list[i].pos) && rows[list[i].pos] == list[i]@.1);
        }
        if rows.contains_key(pos) && rows[pos].1 == Some("unreachable"@) {
            let i = choose|i: int| 0 <= i < list.len() && #[trigger] list[i].pos == pos;
            assert(rows[list[i].pos] == list[i]@.1);
            assert(list[i]@.1.1 == Some("unreachable"@));
        }
    }
}

impl WorldMemory {
    /// The database is the memory's own, with its own tables.
    #[verifier::type_invariant]
    spec fn owns_database(self) -> bool {
        held_alone(self.conn) && has_tables(self.conn) && own_tables(self.conn)
    }

    /// The name of the database.
    pub closed spec fn place(self) -> Seq<char> {
        opened_as(self.conn)
    }

    /// The points of interest, by where they are stored.
    pub closed spec fn pois(self) -> Map<Pos, Row> {
        poi_rows(self.conn)
    }

    /// The events in the order they were logged.
    pub closed spec fn events(self) -> Seq<(i64, Seq<char>, Seq<char>, Seq<char>)> {
        event_rows(self.conn)
    }

    /// The counter that stamps sightings and events.
    pub closed spec fn clock(self) -> i64 {
        self.tick
    }

    /// The counter has not fallen behind the log.
    pub open spec fn in_time(self) -> bool {
        none_later(self.events(), self.clock())
    }

    /// The memory is the database that a fresh connection opened, with the rows that it
    /// found there.
    pub open spec fn keeps(self, conn: rusqlite::Connection) -> bool {
        &&& self.place() == opened_as(conn)
        &&& self.pois() == poi_rows(conn)
        &&& self.events() == event_rows(conn)
    }

    /// Opens (or creates) the memory database at `path` and takes it for this memory
    /// alone. Everything that is in it stays. The counter goes on from the last event in the
    /// file. A name that carries options is refused. Whether the database can be opened and
    /// taken and its tables created is up to SQLite and the file; a database whose tables
    /// are not the memory's own is refused.
    pub fn open(path: &str) -> (r: Result<WorldMemory, MemoryError>)
        ensures
            has_options(path@) ==> r == Err::<WorldMemory, MemoryError>(MemoryError::Open),
            r matches Ok(m) ==> m.place() == path@,
            r matches Ok(m) ==> exists|conn: rusqlite::Connection|
                is_fresh(conn) && opened_as(conn) == path@ && #[trigger] m.keeps(conn),
            r matches Ok(m) ==> m.clock() == 0 || is_latest(m.clock(), m.events()),
            r matches Ok(m) ==> (path@ == ":memory:"@ ==> m.pois() == Map::<Pos, Row>::empty()
                && m.events().len() == 0 && m.clock() == 0),
    {
        if carries_options(path) {
            return Err(MemoryError::Open);
        }
        Self::set_up(open_connection(path))
    }

    /// Sets the memory up on a database that was opened. A database that is in use
    /// elsewhere cannot be taken.
    pub fn set_up(opened: Result<rusqlite::Connection, rusqlite::Error>) -> (r: Result<
        WorldMemory,
        MemoryError,
    >)
        requires
            opened matches Ok(conn) ==> is_fresh(conn),
        ensures
            opened is Err ==> r == Err::<WorldMemory, MemoryError>(MemoryError::Open),
            opened matches Ok(conn) ==> match r {
                Ok(m) => m.keeps(conn) && (m.clock() == 0 || is_latest(m.clock(), m.events())),
                Err(e) => e == MemoryError::Schema,
            },
    {
        match opened {
            Ok(conn) => {
                let mut conn = conn;
                match take_hold(&mut conn) {
                    Ok(_) => Self::furnish(conn),
                    Err(_) => Err(MemoryError::Schema),
                }
            },
            Err(_) => Err(MemoryError::Open),
        }
    }

    /// Sets the memory up on a database that is held alone. What the database holds stays
    /// as it is.
    pub fn furnish(conn: rusqlite::Connection) -> (r: Result<WorldMemory, MemoryError>)
        requires
            held_alone(conn),
        ensures
            match r {
                Ok(m) => m.keeps(conn) && (m.clock() == 0 || is_latest(m.clock(), m.events())),
                Err(e) => e == MemoryError::Schema,
            },
    {
        let mut conn = conn;
        let created = create_tables(&mut conn);
        let schema = read_schema(&conn);
        if is_furnished(&created, &schema) {
            let last = last_event_time(&conn);
            Ok(Self::finish(conn, &last))
        } else {
            Err(MemoryError::Schema)
        }
    }

    /// The memory on a database that has its tables and whose last event was read.
    pub fn finish(conn: rusqlite::Connection, last: &Result<i64, rusqlite::Error>) -> (r: WorldMemory)
        requires
            held_alone(conn),
            has_tables(conn),
            own_tables(conn),
        ensures
            r.keeps(conn),
            r.clock() == (match *last {
                Ok(t) => t,
                Err(_) => 0i64,
            }),
            (last matches Ok(t) && is_latest(*t, event_rows(conn))) ==> r.in_time(),
    {
        WorldMemory { conn, tick: resumed_clock(last) }
    }

    /// Reads the whole map.
    pub(crate) fn read(&self) -> (r: Result<Vec<StoredPoi>, rusqlite::Error>)
        ensures
            r matches Ok(list) ==> lists_rows(list@, self.pois()),
    {
        proof {
            use_type_invariant(self);
        }
        match all_pois(&self.conn) {
            Ok(list) => Ok(readable_rows(list)),
            Err(e) => Err(e),
        }
    }

    /// The counter that stamps sightings and events.
    pub fn ticks(&self) -> (r: i64)
        ensures
            r == self.clock(),
    {
        self.tick
    }

    /// Storage key. Large connected volumes (water, lava) snap to a coarse grid
    /// so that a whole body is a single entry instead of thousands of blocks.
    pub fn key(kind: PoiKind, pos: Pos) -> (r: Pos)
        ensures
            r == storage_key(kind, pos),
    {
        match kind {
            PoiKind::Water | PoiKind::Lava => (snap(pos.0), snap(pos.1), snap(pos.2)),
            _ => pos,
        }
    }

    /// Records (or overwrites) a point of interest with an explicit status, for
    /// things known for sure: tables that were placed, descent anchors, water
    /// bodies, a tree just found unreachable. Returns whether the database took
    /// it; where it did not, nothing else has changed.
    pub fn record(&mut self, kind: PoiKind, pos: Pos, status: PoiStatus) -> (stored: bool)
        requires
            old(self).clock() < i64::MAX,
        ensures
            final(self).clock() == old(self).clock() + 1,
            final(self).events() == old(self).events(),
            ({
                let after = old(self).pois().insert(
                    storage_key(kind, pos),
                    recorded_row(kind, status, final(self).clock()),
                );
                &&& stored ==> final(self).pois() == after
                &&& !stored ==> final(self).pois() == after || final(self).pois() == old(self).pois()
            }),
            final(self).place() == old(self).place(),
            old(self).in_time() ==> final(self).in_time(),
    {
        proof {
            use_type_invariant(&*self);
        }
        let key = Self::key(kind, pos);
        let (s, tier) = status.parts();
        self.tick = self.tick + 1;
        match put_poi(&mut self.conn, key, kind.as_str(), s, tier, self.tick) {
            Ok(_) => true,
            Err(_) => false,
        }
    }

    /// Passive sighting (an ore seen through stone while mining). Like `record`,
    /// but it does not clobber a status of unreachable or gone: once a spot is
    /// known to be unreachable or mined out, seeing it again does not reset
    /// that. Returns whether the database took it.
    pub fn observe(&mut self, kind: PoiKind, pos: Pos, status: PoiStatus) -> (stored: bool)
        requires
            old(self).clock() < i64::MAX,
        ensures
            final(self).clock() == old(self).clock() + 1,
            final(self).events() == old(self).events(),
            ({
                let key = storage_key(kind, pos);
                let after = old(self).pois().insert(
                    key,
                    observed_row(
                        row_at(old(self).pois(), key),
                        kind,
                        status,
                        final(self).clock(),
                    ),
                );
                &&& stored ==> final(self).pois() == after
                &&& !stored ==> final(self).pois() == after || final(self).pois() == old(self).pois()
            }),
            final(self).place() == old(self).place(),
            old(self).in_time() ==> final(self).in_time(),
    {
        proof {
            use_type_invariant(&*self);
        }
        let key = Self::key(kind, pos);
        self.tick = self.tick + 1;
        let found = match get_poi(&self.conn, key) {
            Ok(found) => found,
            Err(_) => {
                return false;
            },
        };
        let (s, tier) = status.parts();
        let put = if keeps_status(&found) {
            set_sighting(&mut self.conn, key, kind.as_str(), self.tick)
        } else {
            put_poi(&mut self.conn, key, kind.as_str(), s, tier, self.tick)
        };
        match put {
            Ok(_) => true,
            Err(_) => false,
        }
    }

    /// Updates the status of an exactly keyed point of interest (an ore that was
    /// mined is gone). A position that is not on the map stays off it. Returns
    /// whether the database took it.
    pub fn mark(&mut self, pos: Pos, status: PoiStatus) -> (stored: bool)
        ensures
            final(self).clock() == old(self).clock(),
            final(self).events() == old(self).events(),
            stored ==> final(self).pois() == marked_rows(old(self).pois(), pos, status),
            !stored ==> final(self).pois() == marked_rows(old(self).pois(), pos, status)
                || final(self).pois() == old(self).pois(),
            final(self).place() == old(self).place(),
            old(self).in_time() ==> final(self).in_time(),
    {
        proof {
            use_type_invariant(&*self);
        }
        let (s, tier) = status.parts();
        match set_status(&mut self.conn, pos, s, tier) {
            Ok(_) => true,
            Err(_) => false,
        }
    }

    /// Whether the spot is remembered as unreachable. A spot that cannot be
    /// looked up counts as reachable.
    pub fn is_unreachable(&self, pos: Pos) -> (r: bool)
        ensures
            r ==> self.pois().contains_key(pos) && self.pois()[pos].1 == Some("unreachable"@),
    {
        proof {
            use_type_invariant(self);
        }
        unreachable_from(&get_poi(&self.conn, pos))
    }

    /// The spots that are remembered as unreachable; none where the map cannot be
    /// read.
    pub fn unreachable_spots(&self) -> (r: Vec<Pos>)
        ensures
            forall|pos: Pos| #[trigger]
                r@.contains(pos) ==> self.pois().contains_key(pos) && self.pois()[pos].1
                    == Some("unreachable"@),
            r@.len() == 0 || forall|pos: Pos| #[trigger]
                self.pois().contains_key(pos) && self.pois()[pos].1 == Some("unreachable"@) ==> r@.contains(
                    pos,
                ),
    {
        let read = self.read();
        let r = unreachable_spots_from(&read);
        proof {
            match &read {
                Ok(list) => lemma_unreachable_of_list(list@, self.pois(), r@),
                Err(_) => {},
            }
        }
        r
    }

    /// Nearest remembered point of interest of one of `kinds` that is usable now:
    /// available, or in need of a tool of at most `tier`. Unreachable and gone
    /// entries are skipped. Nothing comes back where the map cannot be read.
    pub fn nearest(&self, kinds: &[PoiKind], from: Pos, tier: i32) -> (r: Option<Poi>)
        ensures
            r matches Some(poi) ==> is_nearest(poi, self.pois(), kinds@, from, tier),
            none_usable(self.pois(), kinds@, tier) ==> r is None,
    {
        if kinds.len() == 0 {
            return None;
        }
        let read = self.read();
        let r = nearest_from(&read, kinds, from, tier);
        proof {
            match &read {
                Ok(list) => lemma_nearest_of_list(list@, self.pois(), kinds@, from, tier, r),
                Err(_) => {},
            }
        }
        r
    }

    /// Appends a diagnostic event, stamped with the counter: later than every event before
    /// it, where the counter has not fallen behind the log. Returns whether the
    /// database took it.
    pub fn log(&mut self, category: &str, event: &str, detail: &str) -> (stored: bool)
        requires
            old(self).clock() < i64::MAX,
        ensures
            final(self).clock() == old(self).clock() + 1,
            final(self).pois() == old(self).pois(),
            ({
                let after = old(self).events().push(
                    (final(self).clock(), category@, event@, detail@),
                );
                &&& stored ==> final(self).events() == after
                &&& !stored ==> final(self).events() == after || final(self).events() == old(
                    self,
                ).events()
            }),
            final(self).place() == old(self).place(),
            old(self).in_time() ==> final(self).in_time(),
            old(self).in_time() ==> forall|i: int|
                0 <= i < old(self).events().len() ==> (#[trigger] old(self).events()[i]).0
                    < final(self).clock(),
    {
        proof {
            use_type_invariant(&*self);
        }
        self.tick = self.tick + 1;
        match append_event(&mut self.conn, self.tick, category, event, detail) {
            Ok(_) => true,
            Err(_) => false,
        }
    }

    /// How many entries of `kind` are remembered, whatever their status; 0 where
    /// the map cannot be read.
    pub fn count(&self, kind: PoiKind) -> (r: i64)
        ensures
            r == 0 || r == capped(places_of_kind(self.pois(), kind).len()),
    {
        let read = self.read();
        proof {
            match &read {
                Ok(list) => lemma_counts_places(list@, self.pois(), kind),
                Err(_) => {},
            }
        }
        count_from(&read, kind)
    }

    /// How many entries are remembered; 0 where the map cannot be read.
    pub fn len(&self) -> (r: i64)
        ensures
            r == 0 || r == capped(self.pois().dom().len()),
            r > 0 ==> exists|pos: Pos| #[trigger] self.pois().contains_key(pos),
    {
        let read = self.read();
        proof {
            match &read {
                Ok(list) => {
                    lemma_counts_rows(list@, self.pois());
                    if list@.len() > 0 {
                        assert(self.pois().contains_key(list@[0].pos));
                    }
                },
                Err(_) => {},
            }
        }
        len_from(&read)
    }

    /// Whether nothing is remembered; so it seems too where the map cannot be read.
    pub fn is_empty(&self) -> (r: bool)
        ensures
            !r ==> exists|pos: Pos| #[trigger] self.pois().contains_key(pos),
    {
        let read = self.read();
        proof {
            match &read {
                Ok(list) => {
                    if list@.len() > 0 {
                        assert(self.pois().contains_key(list@[0].pos));
                    }
                },
                Err(_) => {},
            }
        }
        empty_from(&read)
    }
}

spec fn listed_places(list: Seq<StoredPoi>, kind: PoiKind) -> Set<Pos>
    decreases list.len(),
{
    if list.len() == 0 {
        Set::empty()
    } else if list.last()@.1.0 == Some(kind.text()) {
        listed_places(list.drop_last(), kind).insert(list.last().pos)
    } else {
        listed_places(list.drop_last(), kind)
    }
}

proof fn lemma_listed_places(list: Seq<StoredPoi>, kind: PoiKind)
    requires
        forall|i: int, j: int|
            0 <= i < j < list.len() ==> (#[trigger] list[i]).pos != (#[trigger] list[j]).pos,
    ensures
        listed_places(list, kind).finite(),
        listed_places(list, kind).len() == rows_of_kind(list, kind),
        forall|pos: Pos| #[trigger]
            listed_places(list, kind).contains(pos) <==> exists|i: int|
                0 <= i < list.len() && (#[trigger] list[i]).pos == pos && list[i]@.1.0 == Some(kind.text()),
    decreases list.len(),
{
    if list.len() > 0 {
        let rest = list.drop_last();
        lemma_listed_places(rest, kind);
        assert forall|pos: Pos| #[trigger]
            listed_places(list, kind).contains(pos) <==> exists|i: int|
                0 <= i < list.len() && (#[trigger] list[i]).pos == pos && list[i]@.1.0
                    == Some(kind.text()) by {
            if listed_places(rest, kind).contains(pos) {
                let i = choose|i: int|
                    0 <= i < rest.len() && (#[trigger] rest[i]).pos == pos && rest[i]@.1.0
                        == Some(kind.text());
                assert(list[i] == rest[i]);
            }
            if exists|i: int|
                0 <= i < list.len() && (#[trigger] list[i]).pos == pos && list[i]@.1.0
                    == Some(kind.text()) {
                let i = choose|i: int|
                    0 <= i < list.len() && (#[trigger] list[i]).pos == pos && list[i]@.1.0
                        == Some(kind.text());
                if i < rest.len() {
                    assert(rest[i] == list[i]);
                }
            }
        }
        if listed_places(rest, kind).contains(list.last().pos) {
            let i = choose|i: int|
                0 <= i < rest.len() && (#[trigger] rest[i]).pos == list.last().pos && rest[i]@.1.0
                    == Some(kind.text());
            assert(list[i] == rest[i]);
            assert(list[i].pos != list[list.len() - 1].pos);
        }
    }
}

proof fn lemma_counts_places(list: Seq<StoredPoi>, rows: Map<Pos, Row>, kind: PoiKind)
    requires
        lists_rows(list, rows),
    ensures
        places_of_kind(rows, kind).len() == rows_of_kind(list, kind),
{
    lemma_listed_places(list, kind);
    assert forall|pos: Pos|
        listed_places(list, kind).contains(pos) == places_of_kind(rows, kind).contains(pos) by {
        if rows.contains_key(pos) {
            let i = choose|i: int| 0 <= i < list.len() && #[trigger] list[i].pos == pos;
            assert(rows[list[i].pos] == list[i]@.1);
        }
        if listed_places(list, kind).contains(pos) {
            let i = choose|i: int|
                0 <= i < list.len() && (#[trigger] list[i]).pos == pos && list[i]@.1.0
                    == Some(kind.text());
            assert(rows.contains_key(list[i].pos));
        }
    }
    assert(listed_places(list, kind) =~= places_of_kind(rows, kind));
}

proof fn lemma_counts_rows(list: Seq<StoredPoi>, rows: Map<Pos, Row>)
    requires
        lists_rows(list, rows),
    ensures
        rows.dom().len() == list.len(),
{
    let places = list.map_values(|row: StoredPoi| row.pos);
    assert(places.no_duplicates()) by {
        assert forall|i: int, j: int| 0 <= i < places.len() && 0 <= j < places.len() && i != j implies
            places[i] != places[j] by {
            if i < j {
                assert(list[i].pos != list[j].pos);
            } else {
                assert(list[j].pos != list[i].pos);
            }
        }
    }
    places.unique_seq_to_set();
    assert forall|pos: Pos| places.to_set().contains(pos) == rows.dom().contains(pos) by {
        if rows.contains_key(pos) {
            let i = choose|i: int| 0 <= i < list.len() && #[trigger] list[i].pos == pos;
            assert(places[i] == pos);
        }
        if places.contains(pos) {
            let i = choose|i: int| 0 <= i < places.len() && places[i] == pos;
            assert(rows.contains_key(list[i].pos));
        }
    }
    assert(places.to_set() =~= rows.dom());
}

proof fn lemma_nearest_of_list(
    list: Seq<StoredPoi>,
    rows: Map<Pos, Row>,
    kinds: Seq<PoiKind>,
    from: Pos,
    tier: i32,
    r: Option<Poi>,
)
    requires
        lists_rows(list, rows),
        r is None <==> no_row_usable(list, kinds, tier),
        r matches Some(poi) ==> is_nearest_row(poi, list, kinds, from, tier),
    ensures
        r matches Some(poi) ==> is_nearest(poi, rows, kinds, from, tier),
        r is None <==> none_usable(rows, kinds, tier),
{
    match r {
        Some(poi) => {
            assert forall|other: Pos| #[trigger]
                rows.contains_key(other) && is_usable(
                    rows[other],
                    kinds,
                    tier,
                ) implies distance2(poi.pos, from) <= distance2(other, from) by {
                let j = choose|j: int| 0 <= j < list.len() && #[trigger] list[j].pos == other;
                assert(is_usable(list[j]@.1, kinds, tier));
            }
            let i = choose|i: int|
                0 <= i < list.len() && poi.pos == (#[trigger] list[i]).pos && is_usable(
                    list[i]@.1,
                    kinds,
                    tier,
                );
            assert(rows[list[i].pos] == list[i]@.1);
        },
        None => {
            assert forall|pos: Pos| #[trigger] rows.contains_key(pos) implies !is_usable(
                rows[pos],
                kinds,
                tier,
            ) by {
                let j = choose|j: int| 0 <= j < list.len() && #[trigger] list[j].pos == pos;
                assert(!is_usable(list[j]@.1, kinds, tier));
            }
        },
    }
}

pub(crate) proof fn lemma_spot_of_list(
    list: Seq<StoredPoi>,
    rows: Map<Pos, Row>,
    kinds: Seq<PoiKind>,
    from: Pos,
    tier: i32,
    r: Option<Pos>,
)
    requires
        lists_rows(list, rows),
        r is None <==> no_row_usable(list, kinds, tier),
        r matches Some(p) ==> exists|poi: Poi|
            poi.pos == p && #[trigger] is_nearest_row(poi, list, kinds, from, tier),
    ensures
        r matches Some(p) ==> exists|poi: Poi|
            poi.pos == p && #[trigger] is_nearest(poi, rows, kinds, from, tier),
        r is None <==> none_usable(rows, kinds, tier),
{
    match r {
        Some(p) => {
            let poi = choose|poi: Poi|
                poi.pos == p && #[trigger] is_nearest_row(poi, list, kinds, from, tier);
            lemma_nearest_of_list(list, rows, kinds, from, tier, Some(poi));
            assert(is_nearest(poi, rows, kinds, from, tier));
        },
        None => lemma_nearest_of_list(list, rows, kinds, from, tier, None),
    }
}

// ── laws ────────────────────────────────────────────────────────────────────

/// What is recorded is read back: the row stands at its key and means the kind
/// and status it was recorded with.
pub proof fn law_recorded_is_read_back(
    rows: Map<Pos, Row>,
    kind: PoiKind,
    pos: Pos,
    status: PoiStatus,
    t: i64,
)
    ensures
        ({
            let after = rows.insert(storage_key(kind, pos), recorded_row(kind, status, t));
            &&& after.contains_key(storage_key(kind, pos))
            &&& reads_row(
                Poi { kind, pos: storage_key(kind, pos), status },
                after[storage_key(kind, pos)],
            )
        }),
{
    law_status_survives_the_table(status);
}

/// Something recorded as available is offered to a bot that asks for its kind:
/// whatever the nearest answer is, it is no farther away.
pub proof fn law_recorded_is_offered(
    rows: Map<Pos, Row>,
    kind: PoiKind,
    pos: Pos,
    t: i64,
    kinds: Seq<PoiKind>,
    from: Pos,
    tier: i32,
)
    requires
        kinds.contains(kind),
    ensures
        ({
            let key = storage_key(kind, pos);
            let after = rows.insert(key, recorded_row(kind, PoiStatus::Available, t));
            &&& is_usable(after[key], kinds, tier)
            &&& !none_usable(after, kinds, tier)
            &&& forall|poi: Poi|
                is_nearest(poi, after, kinds, from, tier) ==> distance2(poi.pos, from) <= distance2(
                    key,
                    from,
                )
        }),
{
    let key = storage_key(kind, pos);
    let after = rows.insert(key, recorded_row(kind, PoiStatus::Available, t));
    let i = choose|i: int| 0 <= i < kinds.len() && kinds[i] == kind;
    assert(kinds[i].text() == kind.text());
    assert(after.contains_key(key));
}

/// Seeing a spot again does not reset what was learned of it: a row that is
/// unreachable or gone keeps its status and tier.
pub proof fn law_sighting_keeps_what_was_learned(
    row: Row,
    kind: PoiKind,
    status: PoiStatus,
    t: i64,
)
    requires
        is_settled(row),
    ensures
        observed_row(Some(row), kind, status, t).1 == row.1,
        observed_row(Some(row), kind, status, t).2 == row.2,
        is_settled(observed_row(Some(row), kind, status, t)),
{
}

/// Of any other spot a sighting writes what recording it would write.
pub proof fn law_sighting_of_a_live_spot_is_recorded(
    before: Option<Row>,
    kind: PoiKind,
    status: PoiStatus,
    t: i64,
)
    requires
        before matches Some(row) ==> !is_settled(row),
    ensures
        observed_row(before, kind, status, t) == recorded_row(kind, status, t),
{
}

/// Nothing is forgotten: recording, observing and marking keep every place on
/// the map, and leave the row of every other place as it was.
pub proof fn law_nothing_is_forgotten(
    rows: Map<Pos, Row>,
    kind: PoiKind,
    pos: Pos,
    status: PoiStatus,
    t: i64,
    place: Pos,
)
    requires
        rows.contains_key(place),
    ensures
        ({
            let key = storage_key(kind, pos);
            let recorded = rows.insert(key, recorded_row(kind, status, t));
            let observed = rows.insert(key, observed_row(row_at(rows, key), kind, status, t));
            let marked = marked_rows(rows, pos, status);
            &&& recorded.contains_key(place) && (place != key ==> recorded[place] == rows[place])
            &&& observed.contains_key(place) && (place != key ==> observed[place] == rows[place])
            &&& marked.contains_key(place) && (place != pos ==> marked[place] == rows[place])
            &&& marked.dom() =~= rows.dom()
        }),
{
}

/// An ore that needs a tool unlocks as soon as the bot's tool reaches the tier.
pub proof fn law_tool_unlocks(kind: PoiKind, needed: i32, t: i64, kinds: Seq<PoiKind>, tier: i32)
    requires
        kinds.contains(kind),
    ensures
        is_usable(recorded_row(kind, PoiStatus::NeedsTool(needed), t), kinds, tier) <==> needed
            <= tier,
{
    reveal_strlit("available");
    reveal_strlit("needs_tool");
    assert("available"@.len() == 9 && "needs_tool"@.len() == 10);
    let i = choose|i: int| 0 <= i < kinds.len() && kinds[i] == kind;
    assert(kinds[i].text() == kind.text());
}

/// What is usable with one tool is usable with a better one.
pub proof fn law_better_tools_lose_nothing(row: Row, kinds: Seq<PoiKind>, tier: i32, better: i32)
    requires
        is_usable(row, kinds, tier),
        tier <= better,
    ensures
        is_usable(row, kinds, better),
{
}

/// An unreachable or gone entry is never offered.
pub proof fn law_settled_is_never_offered(row: Row, kinds: Seq<PoiKind>, tier: i32)
    requires
        is_settled(row),
    ensures
        !is_usable(row, kinds, tier),
{
    reveal_strlit("available");
    reveal_strlit("needs_tool");
    reveal_strlit("unreachable");
    reveal_strlit("gone");
    assert("available"@.len() == 9 && "needs_tool"@.len() == 10);
    assert("unreachable"@.len() == 11 && "gone"@.len() == 4);
}

/// A spot that is marked gone or unreachable is not offered again, however often
/// it is seen afterwards.
pub proof fn law_marked_stays_settled(
    rows: Map<Pos, Row>,
    pos: Pos,
    status: PoiStatus,
    kind: PoiKind,
    sighting: PoiStatus,
    t: i64,
    kinds: Seq<PoiKind>,
    tier: i32,
)
    requires
        rows.contains_key(pos),
        status == PoiStatus::Gone || status == PoiStatus::Unreachable,
    ensures
        ({
            let marked = marked_rows(rows, pos, status)[pos];
            &&& !is_usable(marked, kinds, tier)
            &&& !is_usable(observed_row(Some(marked), kind, sighting, t), kinds, tier)
        }),
{
    let marked = marked_rows(rows, pos, status)[pos];
    law_settled_is_never_offered(marked, kinds, tier);
    law_settled_is_never_offered(observed_row(Some(marked), kind, sighting, t), kinds, tier);
}

/// The time of an event is a counter that only rises: the next tick is later than every
/// event of a log that the counter has not fallen behind, and it has not fallen behind
/// with the event in the log or without it.
pub proof fn law_event_times_rise(
    events: Seq<(i64, Seq<char>, Seq<char>, Seq<char>)>,
    clock: i64,
    category: Seq<char>,
    event: Seq<char>,
    detail: Seq<char>,
)
    requires
        none_later(events, clock),
        clock < i64::MAX,
    ensures
        ({
            let t = (clock + 1) as i64;
            &&& forall|i: int| 0 <= i < events.len() ==> (#[trigger] events[i]).0 < t
            &&& none_later(events.push((t, category, event, detail)), t)
            &&& none_later(events, t)
        }),
{
}

/// A counter that goes on from the last event has not fallen behind the log, those events
/// included that were logged before the database was opened again.
pub proof fn law_reopened_memories_are_in_time(m: WorldMemory)
    requires
        is_latest(m.clock(), m.events()),
    ensures
        m.in_time(),
{
}

proof fn lemma_snapped(v: i32, w: i32)
    ensures
        snapped(v) as i32 == snapped(v),
        snapped(v) <= v < snapped(v) + 8,
        snapped(snapped(v) as i32) == snapped(v),
        snapped(w) == snapped(v) <==> snapped(v) <= w < snapped(v) + 8,
{
}

/// A body of water or lava is one entry for each cube of 8 blocks: a key lies at
/// the low corner of its cube and is its own key, and two blocks share a key
/// exactly if they lie in one cube.
pub proof fn law_one_entry_for_a_body(kind: PoiKind, a: Pos, b: Pos)
    requires
        kind == PoiKind::Water || kind == PoiKind::Lava,
    ensures
        ({
            let key = storage_key(kind, a);
            &&& key.0 <= a.0 < key.0 + 8 && key.1 <= a.1 < key.1 + 8 && key.2 <= a.2 < key.2 + 8
            &&& storage_key(kind, key) == key
            &&& storage_key(kind, b) == key <==> (key.0 <= b.0 < key.0 + 8 && key.1 <= b.1 < key.1
                + 8 && key.2 <= b.2 < key.2 + 8)
        }),
{
    lemma_snapped(a.0, b.0);
    lemma_snapped(a.1, b.1);
    lemma_snapped(a.2, b.2);
    lemma_snapped(b.0, a.0);
    lemma_snapped(b.1, a.1);
    lemma_snapped(b.2, a.2);
}

/// Everything else is stored where it is.
pub proof fn law_other_kinds_are_stored_in_place(kind: PoiKind, pos: Pos)
    requires
        kind != PoiKind::Water,
        kind != PoiKind::Lava,
    ensures
        storage_key(kind, pos) == pos,
{
}

/// The kinds go by their names in the table.
pub proof fn law_kinds_have_their_names()
    ensures
        PoiKind::Log.text() == "log"@,
        PoiKind::CoalOre.text() == "coal_ore"@,
        PoiKind::IronOre.text() == "iron_ore"@,
        PoiKind::GoldOre.text() == "gold_ore"@,
        PoiKind::DiamondOre.text() == "diamond_ore"@,
        PoiKind::RedstoneOre.text() == "redstone_ore"@,
        PoiKind::LapisOre.text() == "lapis_ore"@,
        PoiKind::CopperOre.text() == "copper_ore"@,
        PoiKind::Gravel.text() == "gravel"@,
        PoiKind::Water.text() == "water"@,
        PoiKind::Lava.text() == "lava"@,
        PoiKind::CraftingTable.text() == "crafting_table"@,
        PoiKind::Furnace.text() == "furnace"@,
        PoiKind::Chest.text() == "chest"@,
        PoiKind::DescentPoint.text() == "descent_point"@,
        PoiKind::SurfaceBase.text() == "surface_base"@,
{
}

/// The statuses go by their names in the table, and the tier stands beside the one that needs
/// a tool; a name that is none of theirs reads as available.
pub proof fn law_statuses_have_their_names(s: Seq<char>, tier: i32)
    ensures
        PoiStatus::Available.text() == "available"@,
        PoiStatus::NeedsTool(tier).text() == "needs_tool"@,
        PoiStatus::Unreachable.text() == "unreachable"@,
        PoiStatus::Gone.text() == "gone"@,
        PoiStatus::NeedsTool(tier).tier() == tier,
        PoiStatus::Available.tier() == 0,
        PoiStatus::Unreachable.tier() == 0,
        PoiStatus::Gone.tier() == 0,
        s != "needs_tool"@ && s != "unreachable"@ && s != "gone"@ ==> PoiStatus::of_text(s, tier)
            == PoiStatus::Available,
{
}

/// A row is written with its time, and a sighting updates the kind and the time in any case.
pub proof fn law_rows_hold_their_time(before: Option<Row>, kind: PoiKind, status: PoiStatus, t: i64)
    ensures
        recorded_row(kind, status, t).0 == Some(kind.text()),
        recorded_row(kind, status, t).1 == Some(status.text()),
        recorded_row(kind, status, t).2 == Some(status.tier()),
        recorded_row(kind, status, t).3 == Some(t),
        observed_row(before, kind, status, t).0 == Some(kind.text()),
        observed_row(before, kind, status, t).3 == Some(t),
{
}

/// What the bot has learned of a place is that it is gone or cannot be reached, and nothing
/// else settles it.
pub proof fn law_only_these_settle_a_place(row: Row, kind: PoiKind, status: PoiStatus, t: i64)
    ensures
        is_settled(recorded_row(kind, status, t)) <==> status == PoiStatus::Gone || status
            == PoiStatus::Unreachable,
        row.1 is None ==> !is_settled(row),
{
    law_status_survives_the_table(status);
    law_status_survives_the_table(PoiStatus::Gone);
    law_status_survives_the_table(PoiStatus::Unreachable);
    reveal_strlit("available");
    reveal_strlit("needs_tool");
    reveal_strlit("unreachable");
    reveal_strlit("gone");
    assert("available"@.len() == 9 && "needs_tool"@.len() == 10);
    assert("unreachable"@.len() == 11 && "gone"@.len() == 4);
}

/// Marking changes the status and the tier of a place on the map and leaves its kind and its
/// time; a place that is not on the map is not put there.
pub proof fn law_marking_changes_the_status_only(rows: Map<Pos, Row>, pos: Pos, status: PoiStatus)
    ensures
        rows.contains_key(pos) ==> {
            let row = marked_rows(rows, pos, status)[pos];
            row.0 == rows[pos].0 && row.1 == Some(status.text()) && row.2 == Some(status.tier()) && row.3
                == rows[pos].3
        },
        !rows.contains_key(pos) ==> marked_rows(rows, pos, status) == rows,
        row_at(rows, pos) is Some <==> rows.contains_key(pos),
        row_at(rows, pos) matches Some(row) ==> row == rows[pos],
{
}

/// A row is offered only for a kind that was asked for, and only where it is available or its
/// tool is at hand.
pub proof fn law_only_what_was_asked_for_is_offered(row: Row, kinds: Seq<PoiKind>, tier: i32)
    requires
        is_usable(row, kinds, tier),
    ensures
        exists|i: int| 0 <= i < kinds.len() && row.0 == Some((#[trigger] kinds[i]).text()),
        row.1 == Some("available"@) || (row.1 == Some("needs_tool"@) && row.2 is Some && row.2->0 <= tier),
{
}

/// The distance is that of space: the same both ways, zero only in place, and along one axis
/// the square of the difference.
pub proof fn law_distance_is_that_of_space(a: Pos, b: Pos)
    ensures
        distance2(a, b) == distance2(b, a),
        distance2(a, b) == 0 <==> a == b,
        a.1 == b.1 && a.2 == b.2 ==> distance2(a, b) == (a.0 - b.0) * (a.0 - b.0),
        a.0 == b.0 && a.2 == b.2 ==> distance2(a, b) == (a.1 - b.1) * (a.1 - b.1),
        a.0 == b.0 && a.1 == b.1 ==> distance2(a, b) == (a.2 - b.2) * (a.2 - b.2),
        distance2(a, b) == distance2(a, (b.0, a.1, a.2)) + distance2(a, (a.0, b.1, a.2)) + distance2(
            a,
            (a.0, a.1, b.2),
        ),
{
    let (x, y, z) = (a.0 - b.0, a.1 - b.1, a.2 - b.2);
    assert((-x) * (-x) == x * x && (-y) * (-y) == y * y && (-z) * (-z) == z * z) by (nonlinear_arith);
    assert(x * x + y * y + z * z == 0 <==> x == 0 && y == 0 && z == 0) by (nonlinear_arith);
    assert(b.0 - a.0 == -x && b.1 - a.1 == -y && b.2 - a.2 == -z);
    assert(0int * 0int == 0);
    if a.1 == b.1 {
        assert(y * y == 0) by (nonlinear_arith)
            requires
                y == 0,
        ;
    }
    if a.2 == b.2 {
        assert(z * z == 0) by (nonlinear_arith)
            requires
                z == 0,
        ;
    }
    if a.0 == b.0 {
        assert(x * x == 0) by (nonlinear_arith)
            requires
                x == 0,
        ;
    }
}

/// The nearest answer is on the map, usable and read as its row says, and no usable place is
/// nearer.
pub proof fn law_the_nearest_is_nearest(
    poi: Poi,
    rows: Map<Pos, Row>,
    kinds: Seq<PoiKind>,
    from: Pos,
    tier: i32,
    other: Pos,
)
    requires
        is_nearest(poi, rows, kinds, from, tier),
        rows.contains_key(other),
        is_usable(rows[other], kinds, tier),
    ensures
        rows.contains_key(poi.pos),
        rows[poi.pos].0 == Some(poi.kind.text()),
        is_usable(rows[poi.pos], kinds, tier),
        poi.status == PoiStatus::Available || (poi.status matches PoiStatus::NeedsTool(needed) && needed <= tier),
        distance2(poi.pos, from) <= distance2(other, from),
        !none_usable(rows, kinds, tier),
{
    law_status_survives_the_table(PoiStatus::Available);
    reveal_strlit("available");
    reveal_strlit("needs_tool");
    assert("available"@.len() == 9 && "needs_tool"@.len() == 10);
}

/// Entries of a kind are counted row by row, whatever their status.
pub proof fn law_entries_are_counted(list: Seq<StoredPoi>, row: StoredPoi, kind: PoiKind)
    ensures
        rows_of_kind(Seq::empty(), kind) == 0,
        row@.1.0 == Some(kind.text()) ==> rows_of_kind(list.push(row), kind) == rows_of_kind(list, kind) + 1,
        row@.1.0 != Some(kind.text()) ==> rows_of_kind(list.push(row), kind) == rows_of_kind(list, kind),
        list.len() <= 0x7fff_ffff_ffff_ffff ==> capped(list.len()) == list.len(),
        list.len() > 0x7fff_ffff_ffff_ffff ==> capped(list.len()) == 0x7fff_ffff_ffff_ffff,
{
    assert(list.push(row).drop_last() =~= list);
}

/// A place is known to be unreachable exactly if some row of the list says so of it.
pub proof fn law_unreachable_places_are_listed(list: Seq<StoredPoi>, row: StoredPoi, pos: Pos)
    ensures
        row.pos == pos && row@.1.1 == Some("unreachable"@) ==> lists_unreachable(list.push(row), pos),
        row.pos != pos || row@.1.1 != Some("unreachable"@) ==> (lists_unreachable(list.push(row), pos)
            <==> lists_unreachable(list, pos)),
{
    let all = list.push(row);
    assert(all[list.len() as int] == row);
    if lists_unreachable(list, pos) {
        let i = choose|i: int|
            0 <= i < list.len() && (#[trigger] list[i]).pos == pos && list[i]@.1.1 == Some("unreachable"@);
        assert(all[i] == list[i]);
    }
    if lists_unreachable(all, pos) {
        let i = choose|i: int|
            0 <= i < all.len() && (#[trigger] all[i]).pos == pos && all[i]@.1.1 == Some("unreachable"@);
        if i < list.len() {
            assert(list[i] == all[i]);
        }
    }
}

/// A memory that keeps a database has its name, its places and its events.
pub proof fn law_a_memory_keeps_what_is_there(m: WorldMemory, conn: rusqlite::Connection)
    ensures
        m.keeps(conn) ==> m.place() == opened_as(conn),
        m.keeps(conn) ==> m.pois() == poi_rows(conn),
        m.keeps(conn) ==> m.events() == event_rows(conn),
        m.in_time() <==> forall|i: int| 0 <= i < m.events().len() ==> (#[trigger] m.events()[i]).0 <= m.clock(),
{
}

/// The nearest row of a list is usable and no usable row of it is nearer; where no row is
/// usable there is none.
pub proof fn law_the_nearest_row_is_nearest(
    poi: Poi,
    list: Seq<StoredPoi>,
    kinds: Seq<PoiKind>,
    from: Pos,
    tier: i32,
    j: int,
)
    requires
        is_nearest_row(poi, list, kinds, from, tier),
        0 <= j < list.len(),
    ensures
        is_usable(list[j]@.1, kinds, tier) ==> distance2(poi.pos, from) <= distance2(list[j].pos, from),
        !no_row_usable(list, kinds, tier),
        exists|i: int|
            0 <= i < list.len() && (#[trigger] list[i]).pos == poi.pos && list[i]@.1.0 == Some(poi.kind.text())
                && is_usable(list[i]@.1, kinds, tier),
{
}

/// A usable row keeps the list from being without one.
pub proof fn law_usable_rows_count(list: Seq<StoredPoi>, kinds: Seq<PoiKind>, tier: i32, j: int)
    requires
        0 <= j < list.len(),
        no_row_usable(list, kinds, tier),
    ensures
        !is_usable(list[j]@.1, kinds, tier),
{
}

/// The places of a kind are those on the map whose row is of that kind, whatever its status.
pub proof fn law_places_of_a_kind(rows: Map<Pos, Row>, kind: PoiKind, pos: Pos)
    ensures
        places_of_kind(rows, kind).contains(pos) <==> rows.contains_key(pos) && rows[pos].0 == Some(kind.text()),
{
}

} // verus!
