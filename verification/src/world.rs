//! What the bot sees of the world around it: boxes of block names and of block
//! states, copied out of the loaded chunks.

use crate::memory::Pos;
use crate::text::{contains, ends_with, is_tail, occurs_in, same};
use vstd::prelude::*;

verus! {

/// No position up to `room` away from `p` on each axis leaves the coordinates.
pub open spec fn has_room(p: Pos, room: int) -> bool {
    &&& i32::MIN + room <= p.0 <= i32::MAX - room
    &&& i32::MIN + room <= p.1 <= i32::MAX - room
    &&& i32::MIN + room <= p.2 <= i32::MAX - room
}

/// A box of cells with its low corner at `min`, by x, then y, then z. A cell
/// that the box does not reach is one that is not loaded.
pub struct Grid<T> {
    pub min: Pos,
    pub cells: Vec<Vec<Vec<T>>>,
}

impl<T> Grid<T> {
    /// What the box holds at a position.
    pub open spec fn at(self, x: int, y: int, z: int) -> Option<T> {
        let i = x - self.min.0;
        let j = y - self.min.1;
        let k = z - self.min.2;
        if 0 <= i < self.cells@.len() && 0 <= j < self.cells@[i]@.len() && 0 <= k
            < self.cells@[i]@[j]@.len() {
            Some(self.cells@[i]@[j]@[k])
        } else {
            None
        }
    }

    /// What the box holds at a position.
    pub fn get(&self, x: i32, y: i32, z: i32) -> (r: Option<&T>)
        ensures
            r matches Some(t) ==> self.at(x as int, y as int, z as int) == Some(*t),
            r is None ==> self.at(x as int, y as int, z as int) is None,
    {
        let i: i64 = x as i64 - self.min.0 as i64;
        let j: i64 = y as i64 - self.min.1 as i64;
        let k: i64 = z as i64 - self.min.2 as i64;
        if i < 0 || i as u64 >= self.cells.len() as u64 {
            return None;
        }
        let column = &self.cells[i as usize];
        if j < 0 || j as u64 >= column.len() as u64 {
            return None;
        }
        let row = &column[j as usize];
        if k < 0 || k as u64 >= row.len() as u64 {
            return None;
        }
        Some(&row[k as usize])
    }
}

/// Block names; a cell without one is a cell whose block is not known.
pub type Blocks = Grid<Option<String>>;

/// Block states; 0 is air.
pub type States = Grid<u32>;

/// The name of the block at a position, where one is known.
pub open spec fn block_name(blocks: Blocks, x: int, y: int, z: int) -> Option<Seq<char>> {
    match blocks.at(x, y, z) {
        Some(Some(name)) => Some(name@),
        _ => None,
    }
}

/// The state of the block at a position; an unloaded cell counts as air.
pub open spec fn block_state(states: States, x: int, y: int, z: int) -> u32 {
    match states.at(x, y, z) {
        Some(s) => s,
        None => 0,
    }
}

/// The name of the block at a position, where one is known.
pub fn name_of(blocks: &Blocks, x: i32, y: i32, z: i32) -> (r: Option<&str>)
    ensures
        r matches Some(name) ==> block_name(*blocks, x as int, y as int, z as int) == Some(name@),
        r is None ==> block_name(*blocks, x as int, y as int, z as int) is None,
{
    match blocks.get(x, y, z) {
        Some(Some(name)) => Some(name.as_str()),
        _ => None,
    }
}

/// The state of the block at a position; an unloaded cell counts as air.
pub fn state_of(states: &States, x: i32, y: i32, z: i32) -> (r: u32)
    ensures
        r == block_state(*states, x as int, y as int, z as int),
{
    match states.get(x, y, z) {
        Some(s) => *s,
        None => 0,
    }
}

/// Water under any of its names.
pub open spec fn is_water_name(n: Seq<char>) -> bool {
    occurs_in("water"@, n)
}

/// Lava under any of its names.
pub open spec fn is_lava_name(n: Seq<char>) -> bool {
    occurs_in("lava"@, n)
}

pub open spec fn is_log_name(n: Seq<char>) -> bool {
    is_tail("_log"@, n)
}

pub open spec fn water_at(blocks: Blocks, x: int, y: int, z: int) -> bool {
    block_name(blocks, x, y, z) matches Some(n) && is_water_name(n)
}

pub open spec fn lava_at(blocks: Blocks, x: int, y: int, z: int) -> bool {
    block_name(blocks, x, y, z) matches Some(n) && is_lava_name(n)
}

pub open spec fn liquid_at(blocks: Blocks, x: int, y: int, z: int) -> bool {
    water_at(blocks, x, y, z) || lava_at(blocks, x, y, z)
}

pub open spec fn log_at(blocks: Blocks, x: int, y: int, z: int) -> bool {
    block_name(blocks, x, y, z) matches Some(n) && is_log_name(n)
}

/// The block at a position has this very name.
pub open spec fn named_at(blocks: Blocks, name: Seq<char>, x: int, y: int, z: int) -> bool {
    block_name(blocks, x, y, z) == Some(name)
}

pub fn is_water_at(blocks: &Blocks, x: i32, y: i32, z: i32) -> (r: bool)
    ensures
        r == water_at(*blocks, x as int, y as int, z as int),
{
    match name_of(blocks, x, y, z) {
        Some(n) => contains(n, "water"),
        None => false,
    }
}

pub fn is_lava_at(blocks: &Blocks, x: i32, y: i32, z: i32) -> (r: bool)
    ensures
        r == lava_at(*blocks, x as int, y as int, z as int),
{
    match name_of(blocks, x, y, z) {
        Some(n) => contains(n, "lava"),
        None => false,
    }
}

/// Is there liquid (water or lava) at (x, y, z)?
pub fn is_liquid_at(blocks: &Blocks, x: i32, y: i32, z: i32) -> (r: bool)
    ensures
        r == liquid_at(*blocks, x as int, y as int, z as int),
{
    is_water_at(blocks, x, y, z) || is_lava_at(blocks, x, y, z)
}

pub fn is_log_at(blocks: &Blocks, x: i32, y: i32, z: i32) -> (r: bool)
    ensures
        r == log_at(*blocks, x as int, y as int, z as int),
{
    match name_of(blocks, x, y, z) {
        Some(n) => ends_with(n, "_log"),
        None => false,
    }
}

pub fn is_named_at(blocks: &Blocks, name: &str, x: i32, y: i32, z: i32) -> (r: bool)
    ensures
        r == named_at(*blocks, name@, x as int, y as int, z as int),
{
    match name_of(blocks, x, y, z) {
        Some(n) => same(n, name),
        None => false,
    }
}

/// A cell holds what stands at its offset from the low corner, and a cell outside the box
/// holds nothing.
pub proof fn law_cells_are_found_by_offset<T>(grid: Grid<T>, i: int, j: int, k: int)
    ensures
        0 <= i < grid.cells@.len() && 0 <= j < grid.cells@[i]@.len() && 0 <= k < grid.cells@[i]@[j]@.len()
            ==> grid.at(grid.min.0 + i, grid.min.1 + j, grid.min.2 + k) == Some(grid.cells@[i]@[j]@[k]),
        i < 0 || j < 0 || k < 0 || i >= grid.cells@.len() ==> grid.at(
            grid.min.0 + i,
            grid.min.1 + j,
            grid.min.2 + k,
        ) is None,
        0 <= i < grid.cells@.len() && j >= grid.cells@[i]@.len() ==> grid.at(
            grid.min.0 + i,
            grid.min.1 + j,
            grid.min.2 + k,
        ) is None,
        0 <= i < grid.cells@.len() && 0 <= j < grid.cells@[i]@.len() && k >= grid.cells@[i]@[j]@.len()
            ==> grid.at(grid.min.0 + i, grid.min.1 + j, grid.min.2 + k) is None,
{
}

/// A block has its name where one is known, and an unloaded cell reads as air.
pub proof fn law_unloaded_cells_read_as_air(blocks: Blocks, states: States, x: int, y: int, z: int)
    ensures
        blocks.at(x, y, z) is None ==> block_name(blocks, x, y, z) is None,
        blocks.at(x, y, z) matches Some(name) ==> match name {
            Some(s) => block_name(blocks, x, y, z) == Some(s@),
            None => block_name(blocks, x, y, z) is None,
        },
        states.at(x, y, z) is None ==> block_state(states, x, y, z) == 0,
        states.at(x, y, z) matches Some(s) ==> block_state(states, x, y, z) == s,
{
}

/// Water, lava and logs are told by their names, and only where the name is known. Liquid is
/// either of the first two.
pub proof fn law_blocks_are_told_by_name(blocks: Blocks, x: int, y: int, z: int, name: Seq<char>, n: Seq<char>)
    ensures
        block_name(blocks, x, y, z) is None ==> !water_at(blocks, x, y, z) && !lava_at(blocks, x, y, z)
            && !log_at(blocks, x, y, z) && !named_at(blocks, name, x, y, z),
        block_name(blocks, x, y, z) == Some(n) ==> {
            &&& water_at(blocks, x, y, z) <==> occurs_in("water"@, n)
            &&& lava_at(blocks, x, y, z) <==> occurs_in("lava"@, n)
            &&& log_at(blocks, x, y, z) <==> is_tail("_log"@, n)
            &&& named_at(blocks, name, x, y, z) <==> n == name
        },
        water_at(blocks, x, y, z) ==> liquid_at(blocks, x, y, z),
        lava_at(blocks, x, y, z) ==> liquid_at(blocks, x, y, z),
        liquid_at(blocks, x, y, z) && !lava_at(blocks, x, y, z) ==> water_at(blocks, x, y, z),
{
}

} // verus!
