//! Inventory slots and what they add up to.

use crate::text::{ends_with, is_tail, same};
use vstd::prelude::*;

verus! {

/// A stack of items of one name.
#[derive(Debug, Clone, PartialEq, Eq)]
pub struct Stack {
    pub name: String,
    pub count: i32,
}

/// The slot holds a stack of this name, even an empty one.
pub open spec fn slot_named(slot: Option<Stack>, name: Seq<char>) -> bool {
    slot matches Some(stack) && stack.name@ == name
}

/// The first slot from `start` on that holds a stack of this name.
pub open spec fn slot_from(slots: Seq<Option<Stack>>, start: int, name: Seq<char>) -> Option<usize>
    decreases slots.len() - start,
{
    if start >= slots.len() {
        None
    } else if slot_named(slots[start], name) {
        Some(start as usize)
    } else {
        slot_from(slots, start + 1, name)
    }
}

/// How many items of a slot have a name that `wanted` accepts.
pub open spec fn held(slot: Option<Stack>, wanted: spec_fn(Seq<char>) -> bool) -> int {
    match slot {
        Some(stack) if wanted(stack.name@) => stack.count as int,
        _ => 0,
    }
}

/// How many items in the slots have a name that `wanted` accepts.
pub open spec fn tally(slots: Seq<Option<Stack>>, wanted: spec_fn(Seq<char>) -> bool) -> int
    decreases slots.len(),
{
    if slots.len() == 0 {
        0
    } else {
        tally(slots.drop_last(), wanted) + held(slots.last(), wanted)
    }
}

pub open spec fn fits(n: int) -> bool {
    i32::MIN <= n <= i32::MAX
}

/// Adding the items up from the first slot on stays within an `i32`.
pub open spec fn tally_fits(slots: Seq<Option<Stack>>, wanted: spec_fn(Seq<char>) -> bool) -> bool {
    forall|k: int| 0 <= k <= slots.len() ==> fits(#[trigger] tally(slots.take(k), wanted))
}

/// The one name.
pub open spec fn named(name: Seq<char>) -> spec_fn(Seq<char>) -> bool {
    |n: Seq<char>| n == name
}

pub open spec fn any_name() -> spec_fn(Seq<char>) -> bool {
    |n: Seq<char>| true
}

pub open spec fn log_name() -> spec_fn(Seq<char>) -> bool {
    |n: Seq<char>| is_tail("_log"@, n)
}

/// Adds up the items whose name passes `test`.
pub(crate) fn tally_by<F: Fn(&str) -> bool>(
    slots: &Vec<Option<Stack>>,
    test: F,
    Ghost(wanted): Ghost<spec_fn(Seq<char>) -> bool>,
) -> (r: i32)
    requires
        forall|s: &str| call_requires(test, (s,)),
        forall|s: &str, b: bool| call_ensures(test, (s,), b) ==> b == wanted(s@),
        tally_fits(slots@, wanted),
    ensures
        r == tally(slots@, wanted),
{
    let mut sum: i32 = 0;
    let mut i: usize = 0;
    while i < slots.len()
        invariant
            i <= slots@.len(),
            forall|s: &str| call_requires(test, (s,)),
            forall|s: &str, b: bool| call_ensures(test, (s,), b) ==> b == wanted(s@),
            tally_fits(slots@, wanted),
            sum == tally(slots@.take(i as int), wanted),
        decreases slots@.len() - i,
    {
        proof {
            assert(slots@.take(i + 1).drop_last() =~= slots@.take(i as int));
            assert(slots@.take(i + 1).last() == slots@[i as int]);
            assert(fits(tally(slots@.take(i + 1), wanted)));
        }
        match &slots[i] {
            Some(stack) => {
                if test(stack.name.as_str()) {
                    sum = sum + stack.count;
                }
            },
            None => {},
        }
        i += 1;
    }
    assert(slots@.take(slots@.len() as int) =~= slots@);
    sum
}

pub(crate) proof fn lemma_slot_from(slots: Seq<Option<Stack>>, start: int, name: Seq<char>)
    requires
        0 <= start,
        slots.len() <= usize::MAX,
    ensures
        slot_from(slots, start, name) matches Some(i) ==> start <= i < slots.len() && slot_named(
            slots[i as int],
            name,
        ),
        slot_from(slots, start, name) is None ==> forall|j: int|
            start <= j < slots.len() ==> !slot_named(#[trigger] slots[j], name),
    decreases slots.len() - start,
{
    if start < slots.len() {
        lemma_slot_from(slots, start + 1, name);
    }
}

/// The first slot from `start` on that holds a stack of this name.
pub fn find_from(slots: &Vec<Option<Stack>>, start: usize, name: &str) -> (r: Option<usize>)
    ensures
        r == slot_from(slots@, start as int, name@),
        r matches Some(i) ==> start <= i < slots@.len() && slot_named(slots@[i as int], name@)
            && forall|j: int| start <= j < i ==> !slot_named(#[trigger] slots@[j], name@),
        r is None ==> forall|j: int|
            start <= j < slots@.len() ==> !slot_named(#[trigger] slots@[j], name@),
{
    let mut i: usize = start;
    while i < slots.len()
        invariant
            start <= i,
            slot_from(slots@, start as int, name@) == slot_from(slots@, i as int, name@),
            forall|j: int| start <= j < i ==> !slot_named(#[trigger] slots@[j], name@),
        decreases slots@.len() - i,
    {
        match &slots[i] {
            Some(stack) => {
                if same(stack.name.as_str(), name) {
                    return Some(i);
                }
            },
            None => {},
        }
        i += 1;
    }
    None
}

/// Total count of an item by name in the inventory.
pub fn count_items(slots: &Vec<Option<Stack>>, name: &str) -> (r: i32)
    requires
        tally_fits(slots@, named(name@)),
    ensures
        r == tally(slots@, named(name@)),
{
    let test = |n: &str| -> (b: bool)
        ensures b == (n@ == name@)
    {
        same(n, name)
    };
    tally_by(slots, test, Ghost(named(name@)))
}

/// Total inventory item count (any item).
pub fn total_count(slots: &Vec<Option<Stack>>) -> (r: i32)
    requires
        tally_fits(slots@, any_name()),
    ensures
        r == tally(slots@, any_name()),
{
    let test = |n: &str| -> (b: bool)
        ensures b
    {
        true
    };
    tally_by(slots, test, Ghost(any_name()))
}

/// Logs of every species.
pub fn count_logs(slots: &Vec<Option<Stack>>) -> (r: i32)
    requires
        tally_fits(slots@, log_name()),
    ensures
        r == tally(slots@, log_name()),
{
    let test = |n: &str| -> (b: bool)
        ensures b == is_tail("_log"@, n@)
    {
        ends_with(n, "_log")
    };
    tally_by(slots, test, Ghost(log_name()))
}

/// The slot that is found is the first one from `start` on with a stack of this name.
pub proof fn law_the_first_slot_is_found(slots: Seq<Option<Stack>>, start: int, name: Seq<char>)
    requires
        0 <= start,
        slots.len() <= usize::MAX,
    ensures
        match slot_from(slots, start, name) {
            Some(i) => start <= i < slots.len() && (slots[i as int] matches Some(stack) && stack.name@ == name)
                && forall|j: int| start <= j < i ==> !((#[trigger] slots[j]) matches Some(stack) && stack.name@ == name),
            None => forall|j: int|
                start <= j < slots.len() ==> !((#[trigger] slots[j]) matches Some(stack) && stack.name@ == name),
        },
    decreases slots.len() - start,
{
    if start < slots.len() {
        law_the_first_slot_is_found(slots, start + 1, name);
    }
}

/// Items are counted stack by stack: a stack adds its count where its name is wanted, and
/// nothing otherwise.
pub proof fn law_stacks_add_up(slots: Seq<Option<Stack>>, stack: Stack, wanted: spec_fn(Seq<char>) -> bool)
    ensures
        tally(Seq::empty(), wanted) == 0,
        tally(slots.push(None), wanted) == tally(slots, wanted),
        wanted(stack.name@) ==> tally(slots.push(Some(stack)), wanted) == tally(slots, wanted) + stack.count,
        !wanted(stack.name@) ==> tally(slots.push(Some(stack)), wanted) == tally(slots, wanted),
{
    assert(slots.push(None).drop_last() =~= slots);
    assert(slots.push(Some(stack)).drop_last() =~= slots);
}

/// A name is wanted as itself, as any name, or as a log by its ending.
pub proof fn law_names_that_are_counted(name: Seq<char>, n: Seq<char>)
    ensures
        named(name)(n) <==> n == name,
        any_name()(n),
        log_name()(n) <==> is_tail("_log"@, n),
        fits(0),
        forall|k: int| #[trigger] fits(k) <==> -0x8000_0000 <= k <= 0x7fff_ffff,
{
}

} // verus!
