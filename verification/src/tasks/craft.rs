//! Crafting tasks.

use crate::items::Stack;
use crate::tasks::report::{count_message, count_text};
use crate::text::{ends_with, is_tail, replace_all, replaced};
use crate::types::{failure, success, StepResult};
use vstd::prelude::*;

verus! {

// ── by hand ─────────────────────────────────────────────────────────────────

/// What is crafted without a table.
#[derive(Debug, Clone, Copy, PartialEq, Eq, Structural)]
pub enum HandItem {
    OakPlanks,
    CraftingTable,
    Stick,
}

impl HandItem {
    pub open spec fn text(self) -> Seq<char> {
        match self {
            HandItem::OakPlanks => "oak_planks"@,
            HandItem::CraftingTable => "crafting_table"@,
            HandItem::Stick => "stick"@,
        }
    }

    /// The name of the item.
    pub fn name(self) -> (r: &'static str)
        ensures
            r@ == self.text(),
    {
        match self {
            HandItem::OakPlanks => "oak_planks",
            HandItem::CraftingTable => "crafting_table",
            HandItem::Stick => "stick",
        }
    }
}

// ── planks ──────────────────────────────────────────────────────────────────

/// No more than so many logs of a stack are turned into planks at once.
pub const PLANK_BATCH: i32 = 8;

/// Planks to be made of one stack of logs.
#[derive(Debug, Clone, PartialEq, Eq)]
pub struct PlankJob {
    /// What is crafted.
    pub planks: String,
    /// How many logs are used.
    pub count: i32,
}

/// The planks of a species of logs.
pub open spec fn planks_of(log: Seq<char>) -> Seq<char> {
    replaced(log, "_log"@, "_planks"@)
}

pub open spec fn batch_of(count: i32) -> i32 {
    if count < PLANK_BATCH {
        count
    } else {
        PLANK_BATCH
    }
}

/// One job for each stack of logs, in order: what is crafted and of how many logs.
pub open spec fn jobs_of(slots: Seq<Option<Stack>>) -> Seq<(Seq<char>, i32)>
    decreases slots.len(),
{
    if slots.len() == 0 {
        Seq::empty()
    } else {
        let rest = jobs_of(slots.drop_last());
        match slots.last() {
            Some(stack) if is_tail("_log"@, stack.name@) => rest.push(
                (planks_of(stack.name@), batch_of(stack.count)),
            ),
            _ => rest,
        }
    }
}

pub open spec fn job_cells(jobs: Seq<PlankJob>) -> Seq<(Seq<char>, i32)> {
    jobs.map_values(|j: PlankJob| (j.planks@, j.count))
}

/// What to craft of each stack of logs.
pub fn plank_jobs(slots: &Vec<Option<Stack>>) -> (r: Vec<PlankJob>)
    ensures
        job_cells(r@) == jobs_of(slots@),
{
    let mut jobs: Vec<PlankJob> = Vec::new();
    assert(job_cells(jobs@) =~= jobs_of(slots@.take(0)));
    proof {
        reveal_strlit("_log");
    }
    let mut i: usize = 0;
    while i < slots.len()
        invariant
            i <= slots@.len(),
            "_log"@.len() > 0,
            job_cells(jobs@) == jobs_of(slots@.take(i as int)),
        decreases slots@.len() - i,
    {
        let ghost before = jobs@;
        assert(slots@.take(i + 1).drop_last() =~= slots@.take(i as int));
        match &slots[i] {
            Some(stack) => {
                if ends_with(stack.name.as_str(), "_log") {
                    let planks = replace_all(stack.name.as_str(), "_log", "_planks");
                    let count: i32 = if stack.count < PLANK_BATCH {
                        stack.count
                    } else {
                        PLANK_BATCH
                    };
                    jobs.push(PlankJob { planks, count });
                    assert(job_cells(jobs@) =~= job_cells(before).push(
                        (planks_of(stack.name@), batch_of(stack.count)),
                    ));
                }
            },
            None => {},
        }
        i += 1;
    }
    assert(slots@.take(slots@.len() as int) =~= slots@);
    jobs
}

#[derive(Debug, Clone, Copy, PartialEq, Eq, Structural)]
pub enum PlanksPhase {
    /// About to start on this job.
    Job(usize),
    /// Has crafted for this job.
    Crafted(usize),
}

#[derive(Debug, Clone, Copy, PartialEq, Eq, Structural)]
pub enum PlanksAction {
    /// Craft the planks of this job.
    Craft(usize),
    /// Fall back to this item for this job.
    CraftInstead(HandItem, usize),
    /// Done; there were logs, or not.
    Done(bool),
}

/// Starts on a job, where there is one.
pub open spec fn planks_job_next(jobs: usize, i: usize) -> (PlanksPhase, PlanksAction) {
    if i < jobs {
        (PlanksPhase::Crafted(i), PlanksAction::Craft(i))
    } else {
        (PlanksPhase::Job(i), PlanksAction::Done(jobs > 0))
    }
}

/// Starts on a job, where there is one.
fn planks_job(jobs: usize, i: usize) -> (r: (PlanksPhase, PlanksAction))
    ensures
        r == planks_job_next(jobs, i),
{
    if i < jobs {
        (PlanksPhase::Crafted(i), PlanksAction::Craft(i))
    } else {
        (PlanksPhase::Job(i), PlanksAction::Done(jobs > 0))
    }
}

/// What `craft_planks` does next.
pub open spec fn craft_planks_next(phase: PlanksPhase, jobs: usize, ok: bool) -> (PlanksPhase, PlanksAction) {
    match phase {
        PlanksPhase::Job(i) => planks_job_next(jobs, i),
        PlanksPhase::Crafted(i) => {
            if i >= jobs {
                (phase, PlanksAction::Done(jobs > 0))
            } else if ok {
                planks_job_next(jobs, (i + 1) as usize)
            } else {
                (PlanksPhase::Job((i + 1) as usize), PlanksAction::CraftInstead(HandItem::OakPlanks, i))
            }
        },
    }
}

/// Turns each stack of logs into planks. Where the craft of a species fails, falls back
/// to the recipe of oak planks.
pub fn craft_planks(phase: PlanksPhase, jobs: usize, ok: bool) -> (r: (PlanksPhase, PlanksAction))
    ensures
        r == craft_planks_next(phase, jobs, ok),
{
    match phase {
        PlanksPhase::Job(i) => planks_job(jobs, i),
        PlanksPhase::Crafted(i) => {
            if i >= jobs {
                (phase, PlanksAction::Done(jobs > 0))
            } else if ok {
                planks_job(jobs, (i + 1) as usize)
            } else {
                (PlanksPhase::Job((i + 1) as usize), PlanksAction::CraftInstead(HandItem::OakPlanks, i))
            }
        },
    }
}

/// Each stack of logs gets its craft, one after the other, and oak planks are tried only
/// for a craft that has just failed.
pub proof fn law_every_stack_gets_its_craft(phase: PlanksPhase, jobs: usize, ok: bool)
    ensures
        ({
            let (next, action) = craft_planks_next(phase, jobs, ok);
            &&& action matches PlanksAction::Craft(i) ==> i < jobs && next == PlanksPhase::Crafted(i) && (phase
                == PlanksPhase::Job(i) || (ok && i > 0 && phase == PlanksPhase::Crafted((i - 1) as usize)))
            &&& action matches PlanksAction::CraftInstead(item, i) ==> item == HandItem::OakPlanks && i < jobs
                && !ok && phase == PlanksPhase::Crafted(i) && next == PlanksPhase::Job((i + 1) as usize)
            &&& action matches PlanksAction::Done(had_logs) ==> had_logs == (jobs > 0) && match phase {
                PlanksPhase::Job(i) => i >= jobs,
                PlanksPhase::Crafted(i) => i + 1 >= jobs,
            }
        }),
{
}

/// How many crafts of `craft_planks` are left at most.
pub open spec fn planks_budget(phase: PlanksPhase, jobs: usize) -> int {
    match phase {
        PlanksPhase::Job(i) => 2 * (jobs - i),
        PlanksPhase::Crafted(i) => 2 * (jobs - i) - 1,
    }
}

/// Turning logs into planks ends: each craft uses up some of the budget.
pub proof fn law_planks_end(phase: PlanksPhase, jobs: usize, ok: bool)
    requires
        !(craft_planks_next(phase, jobs, ok).1 is Done),
    ensures
        0 <= planks_budget(craft_planks_next(phase, jobs, ok).0, jobs) < planks_budget(phase, jobs),
{
}

/// What the step reports of planks.
pub fn report_planks(had_logs: bool) -> (r: StepResult)
    ensures
        r.success == had_logs,
        r.message@ == (if had_logs {
            "crafted planks from logs"@
        } else {
            "no logs in inventory"@
        }),
{
    if had_logs {
        success("crafted planks from logs")
    } else {
        failure("no logs in inventory")
    }
}

// ── sticks and the table ────────────────────────────────────────────────────

#[derive(Debug, Clone, Copy, PartialEq, Eq, Structural)]
pub enum BatchAction {
    /// Craft one batch of this.
    Craft(HandItem),
    /// Done; what the last craft reported stands.
    Done,
}

/// What `craft_sticks` does next.
pub open spec fn craft_sticks_next(done: u32, ok: bool) -> (u32, BatchAction) {
    if done == 0 || (done == 1 && ok) {
        ((done + 1) as u32, BatchAction::Craft(HandItem::Stick))
    } else {
        (done, BatchAction::Done)
    }
}

/// Two batches: 8 sticks, enough for the early tools. `done` is how many were tried; the
/// second is not tried where the first failed.
pub fn craft_sticks(done: u32, ok: bool) -> (r: (u32, BatchAction))
    ensures
        r == craft_sticks_next(done, ok),
{
    if done == 0 || (done == 1 && ok) {
        ((done + 1) as u32, BatchAction::Craft(HandItem::Stick))
    } else {
        (done, BatchAction::Done)
    }
}

/// What `craft_crafting_table` does next.
pub open spec fn craft_crafting_table_next(done: u32) -> (u32, BatchAction) {
    if done == 0 {
        (1, BatchAction::Craft(HandItem::CraftingTable))
    } else {
        (done, BatchAction::Done)
    }
}

/// One crafting table, without a table.
pub fn craft_crafting_table(done: u32) -> (r: (u32, BatchAction))
    ensures
        r == craft_crafting_table_next(done),
{
    if done == 0 {
        (1, BatchAction::Craft(HandItem::CraftingTable))
    } else {
        (done, BatchAction::Done)
    }
}

// ── at a table ──────────────────────────────────────────────────────────────

/// What is crafted at a table.
#[derive(Debug, Clone, Copy, PartialEq, Eq, Structural)]
pub enum TableItem {
    WoodenPickaxe,
    StonePickaxe,
    StoneSword,
    Furnace,
    IronPickaxe,
    Bucket,
    FlintAndSteel,
}

impl TableItem {
    pub open spec fn text(self) -> Seq<char> {
        match self {
            TableItem::WoodenPickaxe => "wooden_pickaxe"@,
            TableItem::StonePickaxe => "stone_pickaxe"@,
            TableItem::StoneSword => "stone_sword"@,
            TableItem::Furnace => "furnace"@,
            TableItem::IronPickaxe => "iron_pickaxe"@,
            TableItem::Bucket => "bucket"@,
            TableItem::FlintAndSteel => "flint_and_steel"@,
        }
    }

    /// The name of the item.
    pub fn name(self) -> (r: &'static str)
        ensures
            r@ == self.text(),
    {
        match self {
            TableItem::WoodenPickaxe => "wooden_pickaxe",
            TableItem::StonePickaxe => "stone_pickaxe",
            TableItem::StoneSword => "stone_sword",
            TableItem::Furnace => "furnace",
            TableItem::IronPickaxe => "iron_pickaxe",
            TableItem::Bucket => "bucket",
            TableItem::FlintAndSteel => "flint_and_steel",
        }
    }
}

/// What is crafted and how many sticks have to be there first.
#[derive(Debug, Clone, Copy, PartialEq, Eq, Structural)]
pub struct TablePlan {
    pub item: TableItem,
    pub sticks: i32,
    /// Stop where the sticks cannot be crafted.
    pub strict: bool,
}

/// A wooden pickaxe.
pub fn craft_wooden_pickaxe() -> (r: TablePlan)
    ensures
        r == (TablePlan { item: TableItem::WoodenPickaxe, sticks: 0, strict: false }),
{
    TablePlan { item: TableItem::WoodenPickaxe, sticks: 0, strict: false }
}

/// A stone pickaxe, of which the sticks come first.
pub fn craft_stone_pickaxe() -> (r: TablePlan)
    ensures
        r == (TablePlan { item: TableItem::StonePickaxe, sticks: 2, strict: true }),
{
    TablePlan { item: TableItem::StonePickaxe, sticks: 2, strict: true }
}

/// A stone sword.
pub fn craft_stone_sword() -> (r: TablePlan)
    ensures
        r == (TablePlan { item: TableItem::StoneSword, sticks: 1, strict: false }),
{
    TablePlan { item: TableItem::StoneSword, sticks: 1, strict: false }
}

/// A furnace.
pub fn craft_furnace() -> (r: TablePlan)
    ensures
        r == (TablePlan { item: TableItem::Furnace, sticks: 0, strict: false }),
{
    TablePlan { item: TableItem::Furnace, sticks: 0, strict: false }
}

/// An iron pickaxe.
pub fn craft_iron_pickaxe() -> (r: TablePlan)
    ensures
        r == (TablePlan { item: TableItem::IronPickaxe, sticks: 2, strict: false }),
{
    TablePlan { item: TableItem::IronPickaxe, sticks: 2, strict: false }
}

#[derive(Debug, Clone, Copy, PartialEq, Eq, Structural)]
pub enum AtTablePhase {
    Start,
    /// Has tried to craft sticks.
    Sticks,
    /// Has looked for a table.
    Table,
    /// Has crafted the item.
    Crafted,
}

#[derive(Debug, Clone, Copy, PartialEq, Eq, Structural)]
pub struct AtTableSeen {
    pub sticks: i32,
    /// The last craft worked.
    pub ok: bool,
    /// There is a table.
    pub table: bool,
}

#[derive(Debug, Clone, Copy, PartialEq, Eq, Structural)]
pub enum AtTableAction {
    CraftSticks,
    GetTable,
    CraftItem,
    /// Done; what the last craft reported stands.
    Done,
    /// There is no table.
    NoTable,
}

/// What `craft_at_table` does next.
pub open spec fn craft_at_table_next(
    plan: TablePlan,
    phase: AtTablePhase,
    seen: AtTableSeen,
) -> (AtTablePhase, AtTableAction) {
    match phase {
        AtTablePhase::Start => {
            if plan.sticks > 0 && seen.sticks < plan.sticks {
                (AtTablePhase::Sticks, AtTableAction::CraftSticks)
            } else {
                (AtTablePhase::Table, AtTableAction::GetTable)
            }
        },
        AtTablePhase::Sticks => {
            if plan.strict && !seen.ok {
                (AtTablePhase::Crafted, AtTableAction::Done)
            } else {
                (AtTablePhase::Table, AtTableAction::GetTable)
            }
        },
        AtTablePhase::Table => {
            if seen.table {
                (AtTablePhase::Crafted, AtTableAction::CraftItem)
            } else {
                (AtTablePhase::Crafted, AtTableAction::NoTable)
            }
        },
        AtTablePhase::Crafted => (phase, AtTableAction::Done),
    }
}

/// Crafts a tool or item at a table (placed or found) after seeing to the sticks.
pub fn craft_at_table(
    plan: TablePlan,
    phase: AtTablePhase,
    seen: AtTableSeen,
) -> (r: (AtTablePhase, AtTableAction))
    ensures
        r == craft_at_table_next(plan, phase, seen),
{
    match phase {
        AtTablePhase::Start => {
            if plan.sticks > 0 && seen.sticks < plan.sticks {
                (AtTablePhase::Sticks, AtTableAction::CraftSticks)
            } else {
                (AtTablePhase::Table, AtTableAction::GetTable)
            }
        },
        AtTablePhase::Sticks => {
            if plan.strict && !seen.ok {
                (AtTablePhase::Crafted, AtTableAction::Done)
            } else {
                (AtTablePhase::Table, AtTableAction::GetTable)
            }
        },
        AtTablePhase::Table => {
            if seen.table {
                (AtTablePhase::Crafted, AtTableAction::CraftItem)
            } else {
                (AtTablePhase::Crafted, AtTableAction::NoTable)
            }
        },
        AtTablePhase::Crafted => (phase, AtTableAction::Done),
    }
}

/// Nothing is crafted at a table that is not there.
pub proof fn law_table_crafts_need_a_table(plan: TablePlan, phase: AtTablePhase, seen: AtTableSeen)
    ensures
        craft_at_table_next(plan, phase, seen).1 == AtTableAction::CraftItem ==> seen.table,
        craft_at_table_next(plan, phase, seen).1 == AtTableAction::NoTable ==> !seen.table && phase
            == AtTablePhase::Table,
{
}

/// What is reported where there is no table.
pub fn report_no_table() -> (r: StepResult)
    ensures
        !r.success,
        r.message@ == "need a crafting table"@,
{
    failure("need a crafting table")
}

// ── buckets ─────────────────────────────────────────────────────────────────

#[derive(Debug, Clone, Copy, PartialEq, Eq, Structural)]
pub struct BucketSeen {
    /// Empty and full buckets.
    pub buckets: i32,
    pub water_buckets: i32,
    pub iron_ingots: i32,
    /// The last craft worked.
    pub ok: bool,
}

#[derive(Debug, Clone, Copy, PartialEq, Eq, Structural)]
pub enum BucketAction {
    /// Craft a bucket at a table.
    Craft(TablePlan),
    /// The craft failed; what it reported stands.
    Failed,
    /// Done, with so many empty buckets.
    Done(i32),
}

/// What `craft_buckets` does next.
pub open spec fn craft_buckets_next(started: bool, count: i32, seen: BucketSeen) -> (bool, BucketAction) {
    if started && !seen.ok {
        (started, BucketAction::Failed)
    } else if seen.buckets as i64 + (seen.water_buckets as i64) < count as i64 && seen.iron_ingots >= 3 {
        (true, BucketAction::Craft(TablePlan { item: TableItem::Bucket, sticks: 0, strict: false }))
    } else {
        (started, BucketAction::Done(seen.buckets))
    }
}

/// Crafts buckets up to `count`, one at a time while iron lasts (each is 3 iron).
/// `started` says whether one has been crafted.
pub fn craft_buckets(started: bool, count: i32, seen: BucketSeen) -> (r: (bool, BucketAction))
    ensures
        r == craft_buckets_next(started, count, seen),
{
    if started && !seen.ok {
        (started, BucketAction::Failed)
    } else if seen.buckets as i64 + (seen.water_buckets as i64) < count as i64 && seen.iron_ingots >= 3 {
        (true, BucketAction::Craft(TablePlan { item: TableItem::Bucket, sticks: 0, strict: false }))
    } else {
        (started, BucketAction::Done(seen.buckets))
    }
}

/// A bucket is crafted only while buckets are wanting and there is iron for one, and
/// never after a craft that failed.
pub proof fn law_buckets_stop_at_the_count(started: bool, count: i32, seen: BucketSeen)
    requires
        craft_buckets_next(started, count, seen).1 is Craft,
    ensures
        seen.buckets + seen.water_buckets < count,
        seen.iron_ingots >= 3,
        started ==> seen.ok,
{
}

/// What the step reports of buckets.
pub fn report_buckets(n: i32) -> (r: StepResult)
    ensures
        r.success,
        r.message@ == count_text("have "@, n as int, " buckets"@),
{
    let message = count_message("have ", n, " buckets");
    success(message.as_str())
}

// ── flint and steel ─────────────────────────────────────────────────────────

#[derive(Debug, Clone, Copy, PartialEq, Eq, Structural)]
pub enum FlintPhase {
    Start,
    /// Has mined gravel.
    Mined,
    /// Has crafted.
    Crafted,
}

#[derive(Debug, Clone, Copy, PartialEq, Eq, Structural)]
pub enum FlintAction {
    /// Mine gravel for so many flints.
    MineGravel(i32),
    /// Craft flint and steel at a table.
    Craft(TablePlan),
    /// There is no flint to be had.
    NoFlint,
    /// Done; what the craft reported stands.
    Done,
}

/// What `get_flint_and_steel` does next.
pub open spec fn get_flint_and_steel_next(phase: FlintPhase, flint: i32) -> (FlintPhase, FlintAction) {
    match phase {
        FlintPhase::Start => {
            if flint < 1 {
                (FlintPhase::Mined, FlintAction::MineGravel(1))
            } else {
                (
                    FlintPhase::Crafted,
                    FlintAction::Craft(TablePlan { item: TableItem::FlintAndSteel, sticks: 0, strict: false }),
                )
            }
        },
        FlintPhase::Mined => {
            if flint < 1 {
                (FlintPhase::Crafted, FlintAction::NoFlint)
            } else {
                (
                    FlintPhase::Crafted,
                    FlintAction::Craft(TablePlan { item: TableItem::FlintAndSteel, sticks: 0, strict: false }),
                )
            }
        },
        FlintPhase::Crafted => (phase, FlintAction::Done),
    }
}

/// Flint (from gravel) and an iron ingot make flint and steel.
pub fn get_flint_and_steel(phase: FlintPhase, flint: i32) -> (r: (FlintPhase, FlintAction))
    ensures
        r == get_flint_and_steel_next(phase, flint),
{
    match phase {
        FlintPhase::Start => {
            if flint < 1 {
                (FlintPhase::Mined, FlintAction::MineGravel(1))
            } else {
                (
                    FlintPhase::Crafted,
                    FlintAction::Craft(TablePlan { item: TableItem::FlintAndSteel, sticks: 0, strict: false }),
                )
            }
        },
        FlintPhase::Mined => {
            if flint < 1 {
                (FlintPhase::Crafted, FlintAction::NoFlint)
            } else {
                (
                    FlintPhase::Crafted,
                    FlintAction::Craft(TablePlan { item: TableItem::FlintAndSteel, sticks: 0, strict: false }),
                )
            }
        },
        FlintPhase::Crafted => (phase, FlintAction::Done),
    }
}

/// Flint and steel is crafted only with flint in hand.
pub proof fn law_flint_comes_first(phase: FlintPhase, flint: i32)
    requires
        get_flint_and_steel_next(phase, flint).1 is Craft,
    ensures
        flint >= 1,
{
}

/// What the step reports where there is no flint.
pub fn report_no_flint() -> (r: StepResult)
    ensures
        !r.success,
        r.message@ == "could not get flint from gravel"@,
{
    failure("could not get flint from gravel")
}

// ── what holds of every step ────────────────────────────────────────────────

/// The items are crafted under their own names.
pub proof fn law_crafts_go_by_name()
    ensures
        HandItem::OakPlanks.text() == "oak_planks"@,
        HandItem::CraftingTable.text() == "crafting_table"@,
        HandItem::Stick.text() == "stick"@,
        TableItem::WoodenPickaxe.text() == "wooden_pickaxe"@,
        TableItem::StonePickaxe.text() == "stone_pickaxe"@,
        TableItem::StoneSword.text() == "stone_sword"@,
        TableItem::Furnace.text() == "furnace"@,
        TableItem::IronPickaxe.text() == "iron_pickaxe"@,
        TableItem::Bucket.text() == "bucket"@,
        TableItem::FlintAndSteel.text() == "flint_and_steel"@,
{
}

/// Every stack of logs is a job of its own, in order, for no more than eight of its logs; what
/// is no stack of logs is none.
pub proof fn law_stacks_of_logs_are_jobs(slots: Seq<Option<Stack>>, stack: Stack)
    ensures
        jobs_of(Seq::empty()).len() == 0,
        jobs_of(slots.push(None)) == jobs_of(slots),
        !is_tail("_log"@, stack.name@) ==> jobs_of(slots.push(Some(stack))) == jobs_of(slots),
        is_tail("_log"@, stack.name@) ==> {
            let jobs = jobs_of(slots.push(Some(stack)));
            &&& jobs.len() == jobs_of(slots).len() + 1
            &&& jobs.drop_last() == jobs_of(slots)
            &&& jobs.last().0 == replaced(stack.name@, "_log"@, "_planks"@)
            &&& jobs.last().1 <= 8 && jobs.last().1 <= stack.count
            &&& jobs.last().1 == 8 || jobs.last().1 == stack.count
        },
{
    assert(slots.push(None).drop_last() =~= slots);
    assert(slots.push(Some(stack)).drop_last() =~= slots);
    if is_tail("_log"@, stack.name@) {
        assert(jobs_of(slots.push(Some(stack))).drop_last() =~= jobs_of(slots));
    }
}

/// Every job is crafted in turn; one whose craft fails is made up for with oak planks, and the
/// work is done only after the last.
pub proof fn law_planks_go_job_by_job(phase: PlanksPhase, jobs: usize, ok: bool, i: usize)
    requires
        i < jobs,
    ensures
        craft_planks_next(phase, jobs, ok).1 == PlanksAction::Craft(i) <==> phase == PlanksPhase::Job(i) || (ok
            && i > 0 && phase == PlanksPhase::Crafted((i - 1) as usize)),
        craft_planks_next(phase, jobs, ok).1 == PlanksAction::CraftInstead(HandItem::OakPlanks, i) <==> phase
            == PlanksPhase::Crafted(i) && !ok,
        craft_planks_next(phase, jobs, ok).1 is Done <==> match phase {
            PlanksPhase::Job(k) => k >= jobs,
            PlanksPhase::Crafted(k) => k >= jobs || (k == jobs - 1 && ok),
        },
        craft_planks_next(phase, jobs, ok).1 is Done ==> craft_planks_next(phase, jobs, ok).1
            == PlanksAction::Done(true),
        craft_planks_next(phase, 0, ok).1 == PlanksAction::Done(false),
{
}

/// Sticks are crafted twice, the second time only after a first that worked; a table is
/// crafted once.
pub proof fn law_sticks_are_crafted_twice(done: u32, ok: bool)
    ensures
        craft_sticks_next(done, ok).1 == BatchAction::Craft(HandItem::Stick) <==> done == 0 || (done == 1 && ok),
        craft_sticks_next(done, ok).1 == BatchAction::Done <==> done > 1 || (done == 1 && !ok),
        craft_sticks_next(done, ok).1 is Craft ==> craft_sticks_next(done, ok).0 == done + 1,
        craft_crafting_table_next(done).1 == BatchAction::Craft(HandItem::CraftingTable) <==> done == 0,
        craft_crafting_table_next(done).1 == BatchAction::Done <==> done > 0,
        craft_crafting_table_next(done).0 > 0,
{
}

/// Sticks are crafted exactly where too few are carried, and their failure ends a strict plan
/// only; then a table is looked for, and the item is crafted exactly where there is one.
pub proof fn law_table_crafts_have_their_order(plan: TablePlan, phase: AtTablePhase, seen: AtTableSeen)
    requires
        seen.sticks >= 0,
    ensures
        ({
            let (next, action) = craft_at_table_next(plan, phase, seen);
            &&& action == AtTableAction::CraftSticks <==> phase == AtTablePhase::Start && seen.sticks
                < plan.sticks
            &&& action == AtTableAction::CraftSticks ==> next == AtTablePhase::Sticks
            &&& action == AtTableAction::GetTable <==> (phase == AtTablePhase::Start && seen.sticks
                >= plan.sticks) || (phase == AtTablePhase::Sticks && (seen.ok || !plan.strict))
            &&& action == AtTableAction::GetTable ==> next == AtTablePhase::Table
            &&& action == AtTableAction::CraftItem <==> phase == AtTablePhase::Table && seen.table
            &&& action == AtTableAction::NoTable <==> phase == AtTablePhase::Table && !seen.table
            &&& action == AtTableAction::Done <==> phase == AtTablePhase::Crafted || (phase
                == AtTablePhase::Sticks && plan.strict && !seen.ok)
            &&& action == AtTableAction::CraftItem || action == AtTableAction::NoTable || action
                == AtTableAction::Done ==> next == AtTablePhase::Crafted
        }),
{
}

/// Buckets are crafted one by one until there are enough, full ones included, or the iron for
/// another is wanting; a craft that failed ends it.
pub proof fn law_buckets_are_crafted_while_wanting(started: bool, count: i32, seen: BucketSeen)
    ensures
        ({
            let (next, action) = craft_buckets_next(started, count, seen);
            let failed = started && !seen.ok;
            let wanting = seen.buckets + seen.water_buckets < count && seen.iron_ingots >= 3;
            &&& action == BucketAction::Failed <==> failed
            &&& action is Craft <==> !failed && wanting
            &&& action matches BucketAction::Craft(plan) ==> plan.item == TableItem::Bucket && plan.sticks <= 0
            &&& action is Craft ==> next
            &&& action == BucketAction::Done(seen.buckets) <==> !failed && !wanting
        }),
{
}

/// Gravel is mined for one flint where there is none; flint and steel is crafted as soon as
/// there is one, and the lack of it is reported only after the mining.
pub proof fn law_flint_and_steel_has_its_order(phase: FlintPhase, flint: i32)
    ensures
        ({
            let (next, action) = get_flint_and_steel_next(phase, flint);
            &&& action == FlintAction::MineGravel(1) <==> phase == FlintPhase::Start && flint < 1
            &&& action == FlintAction::MineGravel(1) ==> next == FlintPhase::Mined
            &&& action is Craft <==> phase != FlintPhase::Crafted && flint >= 1
            &&& action matches FlintAction::Craft(plan) ==> plan.item == TableItem::FlintAndSteel && plan.sticks
                <= 0
            &&& action == FlintAction::NoFlint <==> phase == FlintPhase::Mined && flint < 1
            &&& action == FlintAction::Done <==> phase == FlintPhase::Crafted
            &&& action is Craft || action == FlintAction::NoFlint ==> next == FlintPhase::Crafted
        }),
{
}

/// A job is read as its planks and its count.
pub proof fn law_jobs_are_read_as_they_are(jobs: Seq<PlankJob>, i: int)
    requires
        0 <= i < jobs.len(),
    ensures
        job_cells(jobs).len() == jobs.len(),
        job_cells(jobs)[i].0 == jobs[i].planks@,
        job_cells(jobs)[i].1 == jobs[i].count,
{
}

} // verus!
