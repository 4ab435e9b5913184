//! Smelting: place a furnace, load ore and fuel, wait, collect ingots.

use crate::bot_utils::{
    cell_beside, first_niche, is_empty_cell, is_open_spot, lemma_next_niche, next_niche, spot, spot_is_open,
};
use crate::items::{find_from, lemma_slot_from, slot_from, slot_named, Stack};
use crate::memory::Pos;
use crate::tasks::report::{ratio_message, ratio_text};
use crate::text::same;
use crate::types::{failure, success, StepResult};
use crate::world::{block_name, has_room, name_of, Blocks, States};
use vstd::prelude::*;

verus! {

pub open spec fn is_furnace_name(n: Seq<char>) -> bool {
    n == "furnace"@ || n == "lit_furnace"@
}

pub fn is_furnace(name: &str) -> (r: bool)
    ensures
        r == is_furnace_name(name@),
{
    same(name, "furnace") || same(name, "lit_furnace")
}

pub open spec fn furnace_at(blocks: Blocks, p: Pos) -> bool {
    block_name(blocks, p.0 as int, p.1 as int, p.2 as int) matches Some(n) && is_furnace_name(n)
}

/// The cells around the bot in which a furnace is looked for: its own, the four
/// beside it, and the four above those.
pub open spec fn hearth(feet: Pos, k: int) -> Pos {
    let y = if k < 5 {
        feet.1 as int
    } else {
        feet.1 + 1
    };
    if k == 0 {
        feet
    } else if k % 4 == 1 {
        ((feet.0 + 1) as i32, y as i32, feet.2)
    } else if k % 4 == 2 {
        ((feet.0 - 1) as i32, y as i32, feet.2)
    } else if k % 4 == 3 {
        (feet.0, y as i32, (feet.2 + 1) as i32)
    } else {
        (feet.0, y as i32, (feet.2 - 1) as i32)
    }
}

fn cell_of_hearth(feet: Pos, k: u32) -> (r: Pos)
    requires
        has_room(feet, 2),
    ensures
        r == hearth(feet, k as int),
{
    let y: i32 = if k < 5 {
        feet.1
    } else {
        feet.1 + 1
    };
    let way: u32 = k % 4;
    if k == 0 {
        feet
    } else if way == 1 {
        (feet.0 + 1, y, feet.2)
    } else if way == 2 {
        (feet.0 - 1, y, feet.2)
    } else if way == 3 {
        (feet.0, y, feet.2 + 1)
    } else {
        (feet.0, y, feet.2 - 1)
    }
}

/// Does this cell hold a furnace?
fn is_furnace_at(blocks: &Blocks, p: Pos) -> (r: bool)
    ensures
        r == furnace_at(*blocks, p),
{
    match name_of(blocks, p.0, p.1, p.2) {
        Some(n) => is_furnace(n),
        None => false,
    }
}

/// The first of the cells around the bot, from number `from` on, that holds a furnace.
pub open spec fn first_furnace(blocks: Blocks, feet: Pos, from: int) -> Option<Pos>
    decreases 9 - from,
{
    if from >= 9 {
        None
    } else if furnace_at(blocks, hearth(feet, from)) {
        Some(hearth(feet, from))
    } else {
        first_furnace(blocks, feet, from + 1)
    }
}

/// A furnace right beside the bot: the first of the cells around it that holds one.
pub fn furnace_beside(blocks: &Blocks, feet: Pos) -> (r: Option<Pos>)
    requires
        has_room(feet, 2),
    ensures
        r == first_furnace(*blocks, feet, 0),
        r matches Some(p) ==> exists|k: int|
            0 <= k < 9 && p == #[trigger] hearth(feet, k) && furnace_at(*blocks, p) && forall|j: int|
                0 <= j < k ==> !furnace_at(*blocks, #[trigger] hearth(feet, j)),
        r is None ==> forall|j: int| 0 <= j < 9 ==> !furnace_at(*blocks, #[trigger] hearth(feet, j)),
{
    let mut k: u32 = 0;
    while k < 9
        invariant
            k <= 9,
            has_room(feet, 2),
            first_furnace(*blocks, feet, 0) == first_furnace(*blocks, feet, k as int),
            forall|j: int| 0 <= j < k ==> !furnace_at(*blocks, #[trigger] hearth(feet, j)),
        decreases 9 - k,
    {
        let p = cell_of_hearth(feet, k);
        if is_furnace_at(blocks, p) {
            assert(p == hearth(feet, k as int));
            return Some(p);
        }
        k += 1;
    }
    None
}

#[derive(Debug, Clone, Copy, PartialEq, Eq, Structural)]
pub enum HearthPhase {
    Start,
    /// Has taken the furnace in hand.
    Selected,
    /// Has tried to dig this cell open.
    Dug(u32),
    /// Has tried to place the furnace in this cell.
    Placed(u32),
    Over,
}

#[derive(Debug, Clone, Copy, PartialEq, Eq)]
pub struct HearthSeen {
    /// A furnace in the loaded world.
    pub found: Option<Pos>,
    /// Furnaces in the inventory.
    pub carried: i32,
    /// The last select or dig worked.
    pub ok: bool,
}

#[derive(Debug, Clone, Copy, PartialEq, Eq)]
pub enum HearthAction {
    /// Take the furnace in hand.
    Select,
    /// Dig this cell open.
    Dig(Pos),
    /// Place the furnace in this cell.
    PlaceIn(Pos),
    /// Use the furnace at this place.
    Use(Pos),
    /// There is no furnace to be had.
    GiveUp,
}

/// Places the furnace in the next cell with ground, digging it open if need be.
pub open spec fn furnace_in_niche_next(states: &States, feet: Pos, from: u32) -> (HearthPhase, HearthAction) {
    match first_niche(states, feet, from) {
        Some(k) => {
            if spot_is_open(states, feet, k) {
                (HearthPhase::Placed(k), HearthAction::PlaceIn(spot(feet, k as int)))
            } else {
                (HearthPhase::Dug(k), HearthAction::Dig(spot(feet, k as int)))
            }
        },
        None => (HearthPhase::Over, HearthAction::GiveUp),
    }
}

/// Places the furnace in the next cell with ground, digging it open if need be.
fn furnace_in_niche(states: &States, feet: Pos, from: u32) -> (r: (HearthPhase, HearthAction))
    requires
        has_room(feet, 2),
    ensures
        r == furnace_in_niche_next(states, feet, from),
{
    match next_niche(states, feet, from) {
        Some(k) => {
            if is_open_spot(states, feet, k) {
                (HearthPhase::Placed(k), HearthAction::PlaceIn(cell_beside(feet, k)))
            } else {
                (HearthPhase::Dug(k), HearthAction::Dig(cell_beside(feet, k)))
            }
        },
        None => (HearthPhase::Over, HearthAction::GiveUp),
    }
}

/// What `get_furnace` does next.
pub open spec fn get_furnace_next(
    phase: HearthPhase,
    blocks: &Blocks,
    states: &States,
    feet: Pos,
    seen: HearthSeen,
) -> (HearthPhase, HearthAction) {
    match phase {
        HearthPhase::Start => match first_furnace(*blocks, feet, 0) {
            Some(p) => (HearthPhase::Over, HearthAction::Use(p)),
            None => match seen.found {
                Some(p) => (HearthPhase::Over, HearthAction::Use(p)),
                None => {
                    if seen.carried == 0 {
                        (HearthPhase::Over, HearthAction::GiveUp)
                    } else {
                        (HearthPhase::Selected, HearthAction::Select)
                    }
                },
            },
        },
        HearthPhase::Selected => {
            if seen.ok {
                furnace_in_niche_next(states, feet, 0)
            } else {
                (HearthPhase::Over, HearthAction::GiveUp)
            }
        },
        HearthPhase::Dug(k) => {
            if seen.ok && spot_is_open(states, feet, k) {
                (HearthPhase::Placed(k), HearthAction::PlaceIn(spot(feet, k as int)))
            } else if k < 4 {
                furnace_in_niche_next(states, feet, (k + 1) as u32)
            } else {
                (HearthPhase::Over, HearthAction::GiveUp)
            }
        },
        HearthPhase::Placed(k) => {
            if furnace_at(*blocks, spot(feet, k as int)) {
                (HearthPhase::Over, HearthAction::Use(spot(feet, k as int)))
            } else if k < 4 {
                furnace_in_niche_next(states, feet, (k + 1) as u32)
            } else {
                (HearthPhase::Over, HearthAction::GiveUp)
            }
        },
        HearthPhase::Over => (phase, HearthAction::GiveUp),
    }
}

/// Finds a placed furnace nearby, or places one from the inventory on a neighbouring
/// floor (in a niche dug open where the bot is boxed in). Where no furnace stands in the
/// cell afterwards, the next cell has its turn.
pub fn get_furnace(
    phase: HearthPhase,
    blocks: &Blocks,
    states: &States,
    feet: Pos,
    seen: HearthSeen,
) -> (r: (HearthPhase, HearthAction))
    requires
        has_room(feet, 2),
    ensures
        r == get_furnace_next(phase, blocks, states, feet, seen),
{
    match phase {
        HearthPhase::Start => match furnace_beside(blocks, feet) {
            Some(p) => (HearthPhase::Over, HearthAction::Use(p)),
            None => match seen.found {
                Some(p) => (HearthPhase::Over, HearthAction::Use(p)),
                None => {
                    if seen.carried == 0 {
                        (HearthPhase::Over, HearthAction::GiveUp)
                    } else {
                        (HearthPhase::Selected, HearthAction::Select)
                    }
                },
            },
        },
        HearthPhase::Selected => {
            if seen.ok {
                furnace_in_niche(states, feet, 0)
            } else {
                (HearthPhase::Over, HearthAction::GiveUp)
            }
        },
        HearthPhase::Dug(k) => {
            if seen.ok && is_open_spot(states, feet, k) {
                (HearthPhase::Placed(k), HearthAction::PlaceIn(cell_beside(feet, k)))
            } else if k < 4 {
                furnace_in_niche(states, feet, (k + 1) as u32)
            } else {
                (HearthPhase::Over, HearthAction::GiveUp)
            }
        },
        HearthPhase::Placed(k) => {
            let p = cell_beside(feet, k);
            if is_furnace_at(blocks, p) {
                (HearthPhase::Over, HearthAction::Use(p))
            } else if k < 4 {
                furnace_in_niche(states, feet, (k + 1) as u32)
            } else {
                (HearthPhase::Over, HearthAction::GiveUp)
            }
        },
        HearthPhase::Over => (phase, HearthAction::GiveUp),
    }
}

/// A furnace that stands already is used before one is placed, and one is placed only
/// from the inventory, into an empty cell beside the feet.
pub proof fn law_furnaces_are_reused(
    phase: HearthPhase,
    blocks: &Blocks,
    states: &States,
    feet: Pos,
    seen: HearthSeen,
    p: Pos,
)
    ensures
        ({
            let action = get_furnace_next(phase, blocks, states, feet, seen).1;
            &&& action == HearthAction::Select ==> first_furnace(*blocks, feet, 0) is None && seen.found is None
                && seen.carried != 0
            &&& phase == HearthPhase::Start && first_furnace(*blocks, feet, 0) == Some(p) ==> action
                == HearthAction::Use(p)
            &&& action == HearthAction::PlaceIn(p) ==> is_empty_cell(*states, p)
        }),
{
}

proof fn lemma_first_furnace(blocks: Blocks, feet: Pos, from: int)
    ensures
        first_furnace(blocks, feet, from) matches Some(p) ==> furnace_at(blocks, p),
    decreases 9 - from,
{
    if from < 9 && !furnace_at(blocks, hearth(feet, from)) {
        lemma_first_furnace(blocks, feet, from + 1);
    }
}

/// The bot is sent only to a place where a furnace stands, as it sees itself or as the
/// search of the loaded world found it. With none in sight and none in the inventory it
/// gives up at once, and digs and places nothing.
pub proof fn law_furnaces_in_use_stand(
    phase: HearthPhase,
    blocks: &Blocks,
    states: &States,
    feet: Pos,
    seen: HearthSeen,
    p: Pos,
)
    ensures
        get_furnace_next(phase, blocks, states, feet, seen).1 == HearthAction::Use(p) ==> furnace_at(
            *blocks,
            p,
        ) || seen.found == Some(p),
        first_furnace(*blocks, feet, 0) is None && seen.found is None && seen.carried == 0
            ==> get_furnace_next(HearthPhase::Start, blocks, states, feet, seen) == (
            HearthPhase::Over,
            HearthAction::GiveUp,
        ),
{
    lemma_first_furnace(*blocks, feet, 0);
}

/// How many steps of `get_furnace` are left at most.
pub open spec fn hearth_budget(phase: HearthPhase) -> int {
    match phase {
        HearthPhase::Start => 12,
        HearthPhase::Selected => 11,
        HearthPhase::Dug(k) => 10 - 2 * k,
        HearthPhase::Placed(k) => 9 - 2 * k,
        HearthPhase::Over => 0,
    }
}

pub open spec fn hearth_wf(phase: HearthPhase) -> bool {
    match phase {
        HearthPhase::Dug(k) => k < 4,
        HearthPhase::Placed(k) => k < 4,
        _ => true,
    }
}

/// The search for a furnace ends.
pub proof fn law_getting_a_furnace_ends(
    phase: HearthPhase,
    blocks: &Blocks,
    states: &States,
    feet: Pos,
    seen: HearthSeen,
)
    requires
        hearth_wf(phase),
        phase != HearthPhase::Over,
    ensures
        hearth_wf(get_furnace_next(phase, blocks, states, feet, seen).0),
        0 <= hearth_budget(get_furnace_next(phase, blocks, states, feet, seen).0) < hearth_budget(phase),
{
    lemma_next_niche(states, feet, 0);
    match phase {
        HearthPhase::Dug(k) => lemma_next_niche(states, feet, (k + 1) as u32),
        HearthPhase::Placed(k) => lemma_next_niche(states, feet, (k + 1) as u32),
        _ => {},
    }
}

// ── the window of the furnace ───────────────────────────────────────────────

/// Where the ore goes in the window of a furnace.
pub const ORE_SLOT: usize = 0;

/// Where the fuel goes.
pub const FUEL_SLOT: usize = 1;

/// Where the ingots come out.
pub const OUTPUT_SLOT: usize = 2;

/// What a furnace is loaded with.
#[derive(Debug, Clone, Copy, PartialEq, Eq, Structural)]
pub enum Feed {
    RawIron,
    Coal,
    Charcoal,
}

impl Feed {
    pub open spec fn text(self) -> Seq<char> {
        match self {
            Feed::RawIron => "raw_iron"@,
            Feed::Coal => "coal"@,
            Feed::Charcoal => "charcoal"@,
        }
    }

    /// The name of the item.
    pub fn name(self) -> (r: &'static str)
        ensures
            r@ == self.text(),
    {
        match self {
            Feed::RawIron => "raw_iron",
            Feed::Coal => "coal",
            Feed::Charcoal => "charcoal",
        }
    }

    pub open spec fn place(self) -> usize {
        match self {
            Feed::RawIron => ORE_SLOT,
            _ => FUEL_SLOT,
        }
    }

    /// The slot of the furnace that it goes into.
    pub fn slot(self) -> (r: usize)
        ensures
            r == self.place(),
    {
        match self {
            Feed::RawIron => ORE_SLOT,
            _ => FUEL_SLOT,
        }
    }
}

#[derive(Debug, Clone, Copy, PartialEq, Eq, Structural)]
pub enum LoadPhase {
    Start,
    /// Has picked the stack up from this slot.
    Carrying(usize),
    /// Has put it into the furnace.
    Put(usize),
    /// Has put back what was left over.
    Returned,
}

#[derive(Debug, Clone, Copy, PartialEq, Eq, Structural)]
pub enum LoadAction {
    /// Click this slot of the window to pick up or put down.
    Click(usize),
    /// Done; there was something to load, or not.
    Done(bool),
}

/// What `load_slot` does next.
pub open spec fn load_slot_next(
    phase: LoadPhase,
    window: Seq<Option<Stack>>,
    start: usize,
    name: Seq<char>,
    slot: usize,
    carrying: bool,
) -> (LoadPhase, LoadAction) {
    match phase {
        LoadPhase::Start => match slot_from(window, start as int, name) {
            Some(i) => (LoadPhase::Carrying(i), LoadAction::Click(i)),
            None => (LoadPhase::Returned, LoadAction::Done(false)),
        },
        LoadPhase::Carrying(i) => (LoadPhase::Put(i), LoadAction::Click(slot)),
        LoadPhase::Put(i) => {
            if carrying {
                (LoadPhase::Returned, LoadAction::Click(i))
            } else {
                (LoadPhase::Returned, LoadAction::Done(true))
            }
        },
        LoadPhase::Returned => (phase, LoadAction::Done(true)),
    }
}

/// Moves a stack of this name from the inventory part of the open window, which starts
/// at `start`, into a slot of the furnace; what is left over goes back.
pub fn load_slot(
    phase: LoadPhase,
    window: &Vec<Option<Stack>>,
    start: usize,
    name: &str,
    slot: usize,
    carrying: bool,
) -> (r: (LoadPhase, LoadAction))
    ensures
        r == load_slot_next(phase, window@, start, name@, slot, carrying),
{
    match phase {
        LoadPhase::Start => match find_from(window, start, name) {
            Some(i) => (LoadPhase::Carrying(i), LoadAction::Click(i)),
            None => (LoadPhase::Returned, LoadAction::Done(false)),
        },
        LoadPhase::Carrying(i) => (LoadPhase::Put(i), LoadAction::Click(slot)),
        LoadPhase::Put(i) => {
            if carrying {
                (LoadPhase::Returned, LoadAction::Click(i))
            } else {
                (LoadPhase::Returned, LoadAction::Done(true))
            }
        },
        LoadPhase::Returned => (phase, LoadAction::Done(true)),
    }
}

/// A stack is picked up only from the inventory part of the window and only if it has
/// the name; it is put into the slot of the furnace, and leftovers go back to where the
/// stack came from.
pub proof fn law_leftovers_go_back(
    window: Seq<Option<Stack>>,
    start: usize,
    name: Seq<char>,
    slot: usize,
    carrying: bool,
    i: usize,
)
    requires
        window.len() <= usize::MAX,
    ensures
        load_slot_next(LoadPhase::Start, window, start, name, slot, carrying) == (
            LoadPhase::Carrying(i),
            LoadAction::Click(i),
        ) ==> start <= i < window.len() && slot_named(window[i as int], name),
        load_slot_next(LoadPhase::Carrying(i), window, start, name, slot, carrying) == (
            LoadPhase::Put(i),
            LoadAction::Click(slot),
        ),
        load_slot_next(LoadPhase::Put(i), window, start, name, slot, carrying).1 == (if carrying {
            LoadAction::Click(i)
        } else {
            LoadAction::Done(true)
        }),
{
    lemma_slot_from(window, start as int, name);
}

/// The slot of the open window is empty, or not there.
pub open spec fn is_vacant(window: Seq<Option<Stack>>, slot: usize) -> bool {
    slot >= window.len() || window[slot as int] is None
}

/// True if the slot of the open window is empty, or not there.
pub fn slot_empty(slots: &Vec<Option<Stack>>, slot: usize) -> (r: bool)
    ensures
        r == is_vacant(slots@, slot),
{
    slot >= slots.len() || slots[slot].is_none()
}

// ── the task ────────────────────────────────────────────────────────────────

#[derive(Debug, Clone, Copy, PartialEq, Eq, Structural)]
pub enum SmeltPhase {
    Start,
    /// Has looked for a furnace.
    Sought,
    /// Has tried to open it.
    Opened,
    /// Has loaded ore for the first time.
    FirstOre,
    /// Has tried coal for the first time.
    FirstCoal,
    /// Has tried charcoal for the first time.
    FirstCharcoal,
    /// Has let a second pass.
    Waited,
    /// Has taken the ingots out.
    Taken,
    /// Has topped up the ore.
    MoreOre,
    /// Has tried to top up with coal.
    MoreCoal,
    /// Has tried to top up with charcoal.
    MoreCharcoal,
    /// Has let the last ingot finish.
    Grace,
    /// Has taken the last ingots out.
    Emptied,
    /// Has closed the furnace.
    Closed,
    Over,
}

#[derive(Debug, Clone, Copy, PartialEq, Eq, Structural)]
pub struct SmeltSeen {
    /// There is a furnace.
    pub furnace: bool,
    /// It could be opened.
    pub open: bool,
    /// The last load found something.
    pub loaded: bool,
    pub late: bool,
    pub ingots: i32,
    pub raw_iron: i32,
    pub coal: i32,
    pub charcoal: i32,
}

#[derive(Debug, Clone, Copy, PartialEq, Eq, Structural)]
pub enum SmeltEnd {
    NoFurnace,
    NotOpened,
    /// So many ingots.
    Smelted(i32),
}

#[derive(Debug, Clone, Copy, PartialEq, Eq, Structural)]
pub enum SmeltAction {
    /// Find or place a furnace.
    GetFurnace,
    /// Walk to the furnace, open it and wait for its contents.
    Open,
    /// Load the furnace with this.
    Load(Feed),
    /// Let a second pass.
    Wait,
    /// Put the finished ingots away.
    TakeIngots,
    Close,
    Done(SmeltEnd),
}

/// The start of a turn.
pub open spec fn smelt_top_next(target: i32, seen: SmeltSeen) -> (SmeltPhase, SmeltAction) {
    if seen.ingots < target && !seen.late {
        (SmeltPhase::Waited, SmeltAction::Wait)
    } else {
        (SmeltPhase::Closed, SmeltAction::Close)
    }
}

/// The start of a turn.
fn smelt_top(target: i32, seen: SmeltSeen) -> (r: (SmeltPhase, SmeltAction))
    ensures
        r == smelt_top_next(target, seen),
{
    if seen.ingots < target && !seen.late {
        (SmeltPhase::Waited, SmeltAction::Wait)
    } else {
        (SmeltPhase::Closed, SmeltAction::Close)
    }
}

/// The end of a turn: stops once there is nothing left to smelt.
pub open spec fn smelt_turn_end_next(
    target: i32,
    window: Seq<Option<Stack>>,
    seen: SmeltSeen,
) -> (SmeltPhase, SmeltAction) {
    if is_vacant(window, ORE_SLOT) && seen.raw_iron == 0 {
        (SmeltPhase::Grace, SmeltAction::Wait)
    } else {
        smelt_top_next(target, seen)
    }
}

/// The end of a turn: stops once there is nothing left to smelt.
fn smelt_turn_end(target: i32, window: &Vec<Option<Stack>>, seen: SmeltSeen) -> (r: (SmeltPhase, SmeltAction))
    ensures
        r == smelt_turn_end_next(target, window@, seen),
{
    if slot_empty(window, ORE_SLOT) && seen.raw_iron == 0 {
        (SmeltPhase::Grace, SmeltAction::Wait)
    } else {
        smelt_top(target, seen)
    }
}

/// Tops up the fuel where it ran out.
pub open spec fn smelt_fuel_next(
    target: i32,
    window: Seq<Option<Stack>>,
    seen: SmeltSeen,
) -> (SmeltPhase, SmeltAction) {
    if is_vacant(window, FUEL_SLOT) && (seen.coal > 0 || seen.charcoal > 0) {
        (SmeltPhase::MoreCoal, SmeltAction::Load(Feed::Coal))
    } else {
        smelt_turn_end_next(target, window, seen)
    }
}

/// Tops up the fuel where it ran out.
fn smelt_fuel(target: i32, window: &Vec<Option<Stack>>, seen: SmeltSeen) -> (r: (SmeltPhase, SmeltAction))
    ensures
        r == smelt_fuel_next(target, window@, seen),
{
    if slot_empty(window, FUEL_SLOT) && (seen.coal > 0 || seen.charcoal > 0) {
        (SmeltPhase::MoreCoal, SmeltAction::Load(Feed::Coal))
    } else {
        smelt_turn_end(target, window, seen)
    }
}

/// Tops up the ore where it ran out.
pub open spec fn smelt_ore_next(
    target: i32,
    window: Seq<Option<Stack>>,
    seen: SmeltSeen,
) -> (SmeltPhase, SmeltAction) {
    if is_vacant(window, ORE_SLOT) && seen.raw_iron > 0 {
        (SmeltPhase::MoreOre, SmeltAction::Load(Feed::RawIron))
    } else {
        smelt_fuel_next(target, window, seen)
    }
}

/// Tops up the ore where it ran out.
fn smelt_ore(target: i32, window: &Vec<Option<Stack>>, seen: SmeltSeen) -> (r: (SmeltPhase, SmeltAction))
    ensures
        r == smelt_ore_next(target, window@, seen),
{
    if slot_empty(window, ORE_SLOT) && seen.raw_iron > 0 {
        (SmeltPhase::MoreOre, SmeltAction::Load(Feed::RawIron))
    } else {
        smelt_fuel(target, window, seen)
    }
}

/// What `smelt_iron` does next.
pub open spec fn smelt_iron_next(
    phase: SmeltPhase,
    target: i32,
    window: Seq<Option<Stack>>,
    seen: SmeltSeen,
) -> (SmeltPhase, SmeltAction) {
    match phase {
        SmeltPhase::Start => (SmeltPhase::Sought, SmeltAction::GetFurnace),
        SmeltPhase::Sought => {
            if seen.furnace {
                (SmeltPhase::Opened, SmeltAction::Open)
            } else {
                (SmeltPhase::Over, SmeltAction::Done(SmeltEnd::NoFurnace))
            }
        },
        SmeltPhase::Opened => {
            if seen.open {
                (SmeltPhase::FirstOre, SmeltAction::Load(Feed::RawIron))
            } else {
                (SmeltPhase::Over, SmeltAction::Done(SmeltEnd::NotOpened))
            }
        },
        SmeltPhase::FirstOre => (SmeltPhase::FirstCoal, SmeltAction::Load(Feed::Coal)),
        SmeltPhase::FirstCoal => {
            if seen.loaded {
                smelt_top_next(target, seen)
            } else {
                (SmeltPhase::FirstCharcoal, SmeltAction::Load(Feed::Charcoal))
            }
        },
        SmeltPhase::FirstCharcoal => smelt_top_next(target, seen),
        SmeltPhase::Waited => {
            if is_vacant(window, OUTPUT_SLOT) {
                smelt_ore_next(target, window, seen)
            } else {
                (SmeltPhase::Taken, SmeltAction::TakeIngots)
            }
        },
        SmeltPhase::Taken => smelt_ore_next(target, window, seen),
        SmeltPhase::MoreOre => smelt_fuel_next(target, window, seen),
        SmeltPhase::MoreCoal => {
            if seen.loaded {
                smelt_turn_end_next(target, window, seen)
            } else {
                (SmeltPhase::MoreCharcoal, SmeltAction::Load(Feed::Charcoal))
            }
        },
        SmeltPhase::MoreCharcoal => smelt_turn_end_next(target, window, seen),
        SmeltPhase::Grace => {
            if is_vacant(window, OUTPUT_SLOT) {
                (SmeltPhase::Closed, SmeltAction::Close)
            } else {
                (SmeltPhase::Emptied, SmeltAction::TakeIngots)
            }
        },
        SmeltPhase::Emptied => (SmeltPhase::Closed, SmeltAction::Close),
        SmeltPhase::Closed => (
            SmeltPhase::Over,
            SmeltAction::Done(SmeltEnd::Smelted(seen.ingots)),
        ),
        SmeltPhase::Over => (phase, SmeltAction::Done(SmeltEnd::Smelted(seen.ingots))),
    }
}

/// Smelts iron until there are `target` ingots: loads ore and fuel, takes finished
/// ingots out, keeps ore and fuel topped up, and stops once nothing is left to smelt.
pub fn smelt_iron(
    phase: SmeltPhase,
    target: i32,
    window: &Vec<Option<Stack>>,
    seen: SmeltSeen,
) -> (r: (SmeltPhase, SmeltAction))
    ensures
        r == smelt_iron_next(phase, target, window@, seen),
{
    match phase {
        SmeltPhase::Start => (SmeltPhase::Sought, SmeltAction::GetFurnace),
        SmeltPhase::Sought => {
            if seen.furnace {
                (SmeltPhase::Opened, SmeltAction::Open)
            } else {
                (SmeltPhase::Over, SmeltAction::Done(SmeltEnd::NoFurnace))
            }
        },
        SmeltPhase::Opened => {
            if seen.open {
                (SmeltPhase::FirstOre, SmeltAction::Load(Feed::RawIron))
            } else {
                (SmeltPhase::Over, SmeltAction::Done(SmeltEnd::NotOpened))
            }
        },
        SmeltPhase::FirstOre => (SmeltPhase::FirstCoal, SmeltAction::Load(Feed::Coal)),
        SmeltPhase::FirstCoal => {
            if seen.loaded {
                smelt_top(target, seen)
            } else {
                (SmeltPhase::FirstCharcoal, SmeltAction::Load(Feed::Charcoal))
            }
        },
        SmeltPhase::FirstCharcoal => smelt_top(target, seen),
        SmeltPhase::Waited => {
            if slot_empty(window, OUTPUT_SLOT) {
                smelt_ore(target, window, seen)
            } else {
                (SmeltPhase::Taken, SmeltAction::TakeIngots)
            }
        },
        SmeltPhase::Taken => smelt_ore(target, window, seen),
        SmeltPhase::MoreOre => smelt_fuel(target, window, seen),
        SmeltPhase::MoreCoal => {
            if seen.loaded {
                smelt_turn_end(target, window, seen)
            } else {
                (SmeltPhase::MoreCharcoal, SmeltAction::Load(Feed::Charcoal))
            }
        },
        SmeltPhase::MoreCharcoal => smelt_turn_end(target, window, seen),
        SmeltPhase::Grace => {
            if slot_empty(window, OUTPUT_SLOT) {
                (SmeltPhase::Closed, SmeltAction::Close)
            } else {
                (SmeltPhase::Emptied, SmeltAction::TakeIngots)
            }
        },
        SmeltPhase::Emptied => (SmeltPhase::Closed, SmeltAction::Close),
        SmeltPhase::Closed => (
            SmeltPhase::Over,
            SmeltAction::Done(SmeltEnd::Smelted(seen.ingots)),
        ),
        SmeltPhase::Over => (phase, SmeltAction::Done(SmeltEnd::Smelted(seen.ingots))),
    }
}

/// How far the machine is into a turn; a turn starts with a wait.
pub open spec fn smelt_rank(phase: SmeltPhase) -> int {
    match phase {
        SmeltPhase::Start => 0,
        SmeltPhase::Sought => 1,
        SmeltPhase::Opened => 2,
        SmeltPhase::FirstOre => 3,
        SmeltPhase::FirstCoal => 4,
        SmeltPhase::FirstCharcoal => 5,
        SmeltPhase::Waited => 6,
        SmeltPhase::Taken => 7,
        SmeltPhase::MoreOre => 8,
        SmeltPhase::MoreCoal => 9,
        SmeltPhase::MoreCharcoal => 10,
        SmeltPhase::Grace => 11,
        SmeltPhase::Emptied => 12,
        SmeltPhase::Closed => 13,
        SmeltPhase::Over => 14,
    }
}

/// Every step goes on within the turn or waits for the next one; with time up or
/// enough ingots there is no next one. The furnace is closed before the task ends.
pub proof fn law_smelting_goes_on(
    phase: SmeltPhase,
    target: i32,
    window: Seq<Option<Stack>>,
    seen: SmeltSeen,
)
    requires
        phase != SmeltPhase::Over,
    ensures
        ({
            let (next, action) = smelt_iron_next(phase, target, window, seen);
            let waits = next == SmeltPhase::Waited && action == SmeltAction::Wait;
            &&& smelt_rank(next) > smelt_rank(phase) || waits
            &&& waits ==> seen.ingots < target && !seen.late
            &&& action matches SmeltAction::Done(SmeltEnd::Smelted(n)) ==> phase == SmeltPhase::Closed && n
                == seen.ingots
        }),
{
}

/// Charcoal is used only where there is no coal, and ore and fuel are loaded only into
/// empty slots once the furnace burns.
pub proof fn law_slots_are_topped_up_when_empty(
    phase: SmeltPhase,
    target: i32,
    window: Seq<Option<Stack>>,
    seen: SmeltSeen,
)
    ensures
        ({
            let action = smelt_iron_next(phase, target, window, seen).1;
            &&& action == SmeltAction::Load(Feed::Charcoal) ==> !seen.loaded && (phase == SmeltPhase::FirstCoal
                || phase == SmeltPhase::MoreCoal)
            &&& action == SmeltAction::Load(Feed::RawIron) && phase != SmeltPhase::Opened ==> is_vacant(
                window,
                ORE_SLOT,
            ) && seen.raw_iron > 0
            &&& action == SmeltAction::Load(Feed::Coal) && phase != SmeltPhase::FirstOre ==> is_vacant(
                window,
                FUEL_SLOT,
            ) && (seen.coal > 0 || seen.charcoal > 0)
            &&& action == SmeltAction::TakeIngots ==> !is_vacant(window, OUTPUT_SLOT)
        }),
{
}

/// What the step reports: some iron is a partial success.
pub fn report_smelt(end: SmeltEnd, target: i32) -> (r: StepResult)
    ensures
        r.success == (end matches SmeltEnd::Smelted(n) && (n >= target || n > 0)),
        r.message@ == (match end {
            SmeltEnd::NoFurnace => "no furnace to smelt with"@,
            SmeltEnd::NotOpened => "could not open furnace"@,
            SmeltEnd::Smelted(n) => if n >= target {
                ratio_text("smelted "@, n as int, target as int, " iron"@)
            } else if n > 0 {
                ratio_text("smelted "@, n as int, target as int, " iron (partial)"@)
            } else {
                "smelted no iron"@
            },
        }),
{
    match end {
        SmeltEnd::NoFurnace => failure("no furnace to smelt with"),
        SmeltEnd::NotOpened => failure("could not open furnace"),
        SmeltEnd::Smelted(n) => {
            if n >= target {
                let message = ratio_message("smelted ", n, target, " iron");
                success(message.as_str())
            } else if n > 0 {
                let message = ratio_message("smelted ", n, target, " iron (partial)");
                success(message.as_str())
            } else {
                failure("smelted no iron")
            }
        },
    }
}

// ── what holds of every step ────────────────────────────────────────────────

/// The furnace burns and the bot goes through a turn: it has let a second pass, or is on the
/// way through what a turn holds.
pub open spec fn is_in_a_turn(phase: SmeltPhase) -> bool {
    phase == SmeltPhase::Waited || phase == SmeltPhase::Taken || phase == SmeltPhase::MoreOre || phase
        == SmeltPhase::MoreCoal || phase == SmeltPhase::MoreCharcoal
}

/// All the iron is smelted: the bot lets the last ingot finish only where no ore is left,
/// neither in the furnace nor in the inventory, and it closes the furnace only after that,
/// or with enough ingots, or with the time up. While ore lies in the furnace, ingots are
/// wanting and there is time, it takes out what is done, tops up, and otherwise waits.
pub proof fn law_iron_is_smelted_to_the_end(
    phase: SmeltPhase,
    target: i32,
    window: Seq<Option<Stack>>,
    seen: SmeltSeen,
)
    requires
        phase != SmeltPhase::Over,
    ensures
        ({
            let (next, action) = smelt_iron_next(phase, target, window, seen);
            let wanting = seen.ingots < target && !seen.late;
            let fuel_runs_out = is_vacant(window, 1) && (seen.coal > 0 || seen.charcoal > 0);
            &&& next == SmeltPhase::Grace ==> is_in_a_turn(phase) && is_vacant(window, 0) && seen.raw_iron == 0
                && action == SmeltAction::Wait
            &&& is_in_a_turn(phase) && is_vacant(window, 0) && seen.raw_iron == 0 && !fuel_runs_out
                && is_vacant(window, 2) && (phase == SmeltPhase::MoreCoal ==> seen.loaded) ==> next
                == SmeltPhase::Grace
            &&& next == SmeltPhase::Closed <==> action == SmeltAction::Close
            &&& action == SmeltAction::Close ==> phase == SmeltPhase::Emptied || (phase == SmeltPhase::Grace
                && is_vacant(window, 2)) || !wanting
            &&& is_in_a_turn(phase) && !is_vacant(window, 0) && wanting && !fuel_runs_out && is_vacant(
                window,
                2,
            ) && (phase == SmeltPhase::MoreCoal ==> seen.loaded) ==> next == SmeltPhase::Waited && action
                == SmeltAction::Wait
            &&& is_in_a_turn(phase) && !is_vacant(window, 0) && !wanting && !fuel_runs_out && is_vacant(
                window,
                2,
            ) && (phase == SmeltPhase::MoreCoal ==> seen.loaded) ==> action == SmeltAction::Close
        }),
{
}

/// In a turn the bot first takes the ingots out, then tops up the ore where it ran out and
/// there is more, then the fuel likewise, with charcoal where there is no coal.
pub proof fn law_a_turn_has_its_order(
    phase: SmeltPhase,
    target: i32,
    window: Seq<Option<Stack>>,
    seen: SmeltSeen,
)
    ensures
        ({
            let (next, action) = smelt_iron_next(phase, target, window, seen);
            let emptied = phase == SmeltPhase::Taken || (phase == SmeltPhase::Waited && is_vacant(window, 2));
            let ore_runs_out = is_vacant(window, 0) && seen.raw_iron > 0;
            let fuel_runs_out = is_vacant(window, 1) && (seen.coal > 0 || seen.charcoal > 0);
            &&& phase == SmeltPhase::Waited && !is_vacant(window, 2) ==> action == SmeltAction::TakeIngots
                && next == SmeltPhase::Taken
            &&& emptied && ore_runs_out ==> action == SmeltAction::Load(Feed::RawIron) && next
                == SmeltPhase::MoreOre
            &&& emptied && !ore_runs_out && fuel_runs_out ==> action == SmeltAction::Load(Feed::Coal) && next
                == SmeltPhase::MoreCoal
            &&& phase == SmeltPhase::MoreOre && fuel_runs_out ==> action == SmeltAction::Load(Feed::Coal)
                && next == SmeltPhase::MoreCoal
            &&& phase == SmeltPhase::MoreCoal && !seen.loaded ==> action == SmeltAction::Load(Feed::Charcoal)
                && next == SmeltPhase::MoreCharcoal
        }),
{
}

/// The furnace is found, opened and loaded with ore, then coal, then charcoal where there was
/// no coal, before the first second is let pass; without a furnace, or with one that does not
/// open, the task says so.
pub proof fn law_smelting_starts_and_ends_in_order(
    phase: SmeltPhase,
    target: i32,
    window: Seq<Option<Stack>>,
    seen: SmeltSeen,
)
    ensures
        ({
            let (next, action) = smelt_iron_next(phase, target, window, seen);
            let wanting = seen.ingots < target && !seen.late;
            &&& phase == SmeltPhase::Start ==> action == SmeltAction::GetFurnace && next == SmeltPhase::Sought
            &&& phase == SmeltPhase::Sought ==> if seen.furnace {
                action == SmeltAction::Open && next == SmeltPhase::Opened
            } else {
                action == SmeltAction::Done(SmeltEnd::NoFurnace)
            }
            &&& phase == SmeltPhase::Opened ==> if seen.open {
                action == SmeltAction::Load(Feed::RawIron) && next == SmeltPhase::FirstOre
            } else {
                action == SmeltAction::Done(SmeltEnd::NotOpened)
            }
            &&& phase == SmeltPhase::FirstOre ==> action == SmeltAction::Load(Feed::Coal) && next
                == SmeltPhase::FirstCoal
            &&& phase == SmeltPhase::FirstCoal && !seen.loaded ==> action == SmeltAction::Load(Feed::Charcoal)
                && next == SmeltPhase::FirstCharcoal
            &&& (phase == SmeltPhase::FirstCoal && seen.loaded) || phase == SmeltPhase::FirstCharcoal ==> if wanting {
                action == SmeltAction::Wait && next == SmeltPhase::Waited
            } else {
                action == SmeltAction::Close
            }
            &&& phase == SmeltPhase::Grace ==> if is_vacant(window, 2) {
                action == SmeltAction::Close
            } else {
                action == SmeltAction::TakeIngots && next == SmeltPhase::Emptied
            }
            &&& phase == SmeltPhase::Emptied ==> action == SmeltAction::Close
            &&& phase == SmeltPhase::Closed ==> action == SmeltAction::Done(SmeltEnd::Smelted(seen.ingots))
            &&& action is Done <==> next == SmeltPhase::Over
        }),
{
}

/// A slot is vacant exactly if nothing lies in it.
pub proof fn law_vacant_slots_hold_nothing(window: Seq<Option<Stack>>, slot: usize)
    ensures
        is_vacant(window, slot) <==> !(slot < window.len() && window[slot as int] is Some),
        Feed::RawIron.place() == 0,
        Feed::Coal.place() == 1,
        Feed::Charcoal.place() == 1,
        Feed::RawIron.text() == "raw_iron"@,
        Feed::Coal.text() == "coal"@,
        Feed::Charcoal.text() == "charcoal"@,
{
}

/// Loading a slot moves the first stack of the name, if there is one: it is picked up, put
/// into the slot, and what is left of it goes back. Only a load without such a stack is in
/// vain.
pub proof fn law_loading_moves_a_stack(
    phase: LoadPhase,
    window: Seq<Option<Stack>>,
    start: usize,
    name: Seq<char>,
    slot: usize,
    carrying: bool,
)
    requires
        window.len() <= usize::MAX,
    ensures
        ({
            let (next, action) = load_slot_next(phase, window, start, name, slot, carrying);
            let none = forall|j: int| start <= j < window.len() ==> !slot_named(#[trigger] window[j], name);
            &&& action == LoadAction::Done(false) <==> phase == LoadPhase::Start && none
            &&& phase == LoadPhase::Start && !none ==> exists|i: usize|
                start <= i < window.len() && slot_named(#[trigger] window[i as int], name) && action
                    == LoadAction::Click(i) && next == LoadPhase::Carrying(i) && forall|j: int|
                    start <= j < i ==> !slot_named(#[trigger] window[j], name)
            &&& phase matches LoadPhase::Carrying(i) ==> action == LoadAction::Click(slot) && next
                == LoadPhase::Put(i)
            &&& phase matches LoadPhase::Put(i) ==> next == LoadPhase::Returned && if carrying {
                action == LoadAction::Click(i)
            } else {
                action == LoadAction::Done(true)
            }
            &&& phase == LoadPhase::Returned ==> action == LoadAction::Done(true)
            &&& action is Done ==> next == LoadPhase::Returned
        }),
{
    lemma_slot_from(window, start as int, name);
    lemma_first_slot(window, start as int, name);
    if phase == LoadPhase::Start {
        match slot_from(window, start as int, name) {
            Some(i) => {
                assert(slot_named(window[i as int], name));
            },
            None => {},
        }
    }
}

proof fn lemma_first_slot(window: Seq<Option<Stack>>, start: int, name: Seq<char>)
    requires
        0 <= start,
        window.len() <= usize::MAX,
    ensures
        slot_from(window, start, name) matches Some(i) ==> forall|j: int|
            start <= j < i ==> !slot_named(#[trigger] window[j], name),
    decreases window.len() - start,
{
    if start < window.len() && !slot_named(window[start], name) {
        lemma_first_slot(window, start + 1, name);
    }
}

/// A furnace is looked for in the bot's own cell, in those that share a side with it, and in
/// the four above those.
pub proof fn law_the_hearth_is_around_the_feet(feet: Pos, k: int)
    requires
        has_room(feet, 2),
        0 <= k < 9,
    ensures
        ({
            let p = hearth(feet, k);
            let (dx, dy, dz) = (p.0 - feet.0, p.1 - feet.1, p.2 - feet.2);
            &&& k == 0 <==> dx == 0 && dy == 0 && dz == 0
            &&& 1 <= k ==> (dx == 0 && (dz == 1 || dz == -1)) || (dz == 0 && (dx == 1 || dx == -1))
            &&& 1 <= k <= 4 ==> dy == 0
            &&& 5 <= k ==> dy == 1
            &&& forall|j: int| 0 <= j < 9 && j != k ==> #[trigger] hearth(feet, j) != p
        }),
{
}

/// A block is a furnace by its name, burning or not.
pub proof fn law_furnaces_by_name(blocks: Blocks, p: Pos)
    ensures
        furnace_at(blocks, p) <==> block_name(blocks, p.0 as int, p.1 as int, p.2 as int) == Some("furnace"@)
            || block_name(blocks, p.0 as int, p.1 as int, p.2 as int) == Some("lit_furnace"@),
{
}

/// A furnace that the bot carries is brought into use: it is taken in hand, and put into the
/// next cell beside the feet that has ground, dug open first where it is filled. A cell
/// that cannot be opened, or in which no furnace stands in the end, makes way for the next,
/// and the bot gives up only once no cell is left.
pub proof fn law_carried_furnaces_are_placed(
    phase: HearthPhase,
    blocks: &Blocks,
    states: &States,
    feet: Pos,
    seen: HearthSeen,
)
    requires
        hearth_wf(phase),
    ensures
        ({
            let (next, action) = get_furnace_next(phase, blocks, states, feet, seen);
            let none_beside = first_furnace(*blocks, feet, 0) is None;
            let fresh = match phase {
                HearthPhase::Selected => if seen.ok {
                    Some(0u32)
                } else {
                    None
                },
                HearthPhase::Dug(k) => if seen.ok && is_empty_cell(*states, spot(feet, k as int)) {
                    None
                } else {
                    Some((k + 1) as u32)
                },
                HearthPhase::Placed(k) => if furnace_at(*blocks, spot(feet, k as int)) {
                    None
                } else {
                    Some((k + 1) as u32)
                },
                _ => None,
            };
            &&& action is Use || action == HearthAction::GiveUp <==> next == HearthPhase::Over
            &&& phase == HearthPhase::Start && none_beside && seen.found is None && seen.carried != 0 ==> action
                == HearthAction::Select && next == HearthPhase::Selected
            &&& phase == HearthPhase::Start && none_beside && seen.found is Some ==> action
                == HearthAction::Use(seen.found->0)
            &&& phase == HearthPhase::Selected && !seen.ok ==> action == HearthAction::GiveUp
            &&& phase matches HearthPhase::Dug(k) ==> (fresh is None ==> action == HearthAction::PlaceIn(
                spot(feet, k as int),
            ) && next == HearthPhase::Placed(k))
            &&& phase matches HearthPhase::Placed(k) ==> (fresh is None ==> action == HearthAction::Use(
                spot(feet, k as int),
            ))
            &&& fresh matches Some(from) ==> match first_niche(states, feet, from) {
                Some(k) => if is_empty_cell(*states, spot(feet, k as int)) {
                    action == HearthAction::PlaceIn(spot(feet, k as int)) && next == HearthPhase::Placed(k)
                } else {
                    action == HearthAction::Dig(spot(feet, k as int)) && next == HearthPhase::Dug(k)
                },
                None => action == HearthAction::GiveUp,
            }
            &&& next == HearthPhase::Over <==> action is Use || action == HearthAction::GiveUp
        }),
{
    lemma_next_niche(states, feet, 0);
    match phase {
        HearthPhase::Dug(k) => lemma_next_niche(states, feet, (k + 1) as u32),
        HearthPhase::Placed(k) => lemma_next_niche(states, feet, (k + 1) as u32),
        _ => {},
    }
    if phase == (HearthPhase::Dug(3)) || phase == (HearthPhase::Placed(3)) {
        assert(first_niche(states, feet, 4) is None);
    }
}

/// A furnace that stands around the feet is found, and the first of them is.
pub proof fn law_a_furnace_around_is_found(blocks: Blocks, feet: Pos, k: int)
    requires
        0 <= k < 9,
        furnace_at(blocks, hearth(feet, k)),
    ensures
        exists|j: int|
            0 <= j <= k && first_furnace(blocks, feet, 0) == Some(#[trigger] hearth(feet, j)) && furnace_at(
                blocks,
                hearth(feet, j),
            ),
{
    lemma_furnace_from(blocks, feet, 0, k);
}

proof fn lemma_furnace_from(blocks: Blocks, feet: Pos, from: int, k: int)
    requires
        0 <= from <= k < 9,
        furnace_at(blocks, hearth(feet, k)),
    ensures
        exists|j: int|
            from <= j <= k && first_furnace(blocks, feet, from) == Some(#[trigger] hearth(feet, j))
                && furnace_at(blocks, hearth(feet, j)),
    decreases 9 - from,
{
    if furnace_at(blocks, hearth(feet, from)) {
        assert(first_furnace(blocks, feet, from) == Some(hearth(feet, from)));
    } else {
        lemma_furnace_from(blocks, feet, from + 1, k);
    }
}

} // verus!
