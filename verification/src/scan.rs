//! Finding what lies nearest: in a box of cells around the bot, or by a list of
//! distances.

use vstd::prelude::*;

verus! {

/// A box of offsets, both corners included, and how it is gone through.
#[derive(Debug, Clone, Copy, PartialEq, Eq)]
pub struct Search {
    pub lo: (i32, i32, i32),
    pub hi: (i32, i32, i32),
    /// Go up each column before the next one, instead of level by level.
    pub columns: bool,
    /// Count cells more than one below as farther away, by four for each level.
    pub shun_below: bool,
}

impl Search {
    pub open spec fn covers(self, dx: int, dy: int, dz: int) -> bool {
        &&& self.lo.0 <= dx <= self.hi.0
        &&& self.lo.1 <= dy <= self.hi.1
        &&& self.lo.2 <= dz <= self.hi.2
    }

    /// How far away an offset counts.
    pub open spec fn cost(self, dx: int, dy: int, dz: int) -> int {
        dx * dx + dy * dy + dz * dz + (if self.shun_below && dy < -1 {
            4 * (-dy - 1)
        } else {
            0
        })
    }

    /// Offset `d` is gone through before offset `e`.
    pub open spec fn before(self, d: (int, int, int), e: (int, int, int)) -> bool {
        if self.columns {
            d.0 < e.0 || (d.0 == e.0 && (d.2 < e.2 || (d.2 == e.2 && d.1 < e.1)))
        } else {
            d.0 < e.0 || (d.0 == e.0 && (d.1 < e.1 || (d.1 == e.1 && d.2 < e.2)))
        }
    }

    /// `d` is the first hit of the box that no other hit is nearer than.
    pub open spec fn picks(
        self,
        hit: spec_fn(int, int, int) -> bool,
        d: (int, int, int),
    ) -> bool {
        &&& self.covers(d.0, d.1, d.2)
        &&& hit(d.0, d.1, d.2)
        &&& forall|ex: int, ey: int, ez: int|
            self.covers(ex, ey, ez) && #[trigger] hit(ex, ey, ez) ==> self.cost(d.0, d.1, d.2)
                <= self.cost(ex, ey, ez)
        &&& forall|ex: int, ey: int, ez: int|
            self.covers(ex, ey, ez) && #[trigger] hit(ex, ey, ez) && self.before((ex, ey, ez), d)
                ==> self.cost(d.0, d.1, d.2) < self.cost(ex, ey, ez)
    }

    /// Nothing in the box is a hit.
    pub open spec fn misses(self, hit: spec_fn(int, int, int) -> bool) -> bool {
        forall|ex: int, ey: int, ez: int|
            self.covers(ex, ey, ez) ==> !(#[trigger] hit(ex, ey, ez))
    }

    /// What has been found once everything before `cur` has been gone through.
    spec fn so_far(
        self,
        hit: spec_fn(int, int, int) -> bool,
        best: Option<(i32, i32, i32)>,
        cost: int,
        cur: (int, int, int),
    ) -> bool {
        &&& best is None ==> forall|ex: int, ey: int, ez: int|
            self.covers(ex, ey, ez) && self.before((ex, ey, ez), cur) ==> !(#[trigger] hit(
                ex,
                ey,
                ez,
            ))
        &&& best matches Some(d) ==> {
            &&& self.covers(d.0 as int, d.1 as int, d.2 as int)
            &&& hit(d.0 as int, d.1 as int, d.2 as int)
            &&& self.before((d.0 as int, d.1 as int, d.2 as int), cur)
            &&& cost == self.cost(d.0 as int, d.1 as int, d.2 as int)
            &&& forall|ex: int, ey: int, ez: int|
                self.covers(ex, ey, ez) && self.before((ex, ey, ez), cur) && #[trigger] hit(
                    ex,
                    ey,
                    ez,
                ) ==> cost <= self.cost(ex, ey, ez)
            &&& forall|ex: int, ey: int, ez: int|
                self.covers(ex, ey, ez) && self.before(
                    (ex, ey, ez),
                    (d.0 as int, d.1 as int, d.2 as int),
                ) && #[trigger] hit(ex, ey, ez) ==> cost < self.cost(ex, ey, ez)
        }
    }

    fn cost_of(self, dx: i32, dy: i32, dz: i32) -> (r: i128)
        ensures
            r == self.cost(dx as int, dy as int, dz as int),
    {
        let (x, y, z) = (dx as i128, dy as i128, dz as i128);
        assert(0 <= x * x <= 0x4000_0000_0000_0000 && 0 <= y * y <= 0x4000_0000_0000_0000 && 0 <= z * z
            <= 0x4000_0000_0000_0000) by (nonlinear_arith)
            requires
                -0x8000_0000 <= x <= 0x7fff_ffff,
                -0x8000_0000 <= y <= 0x7fff_ffff,
                -0x8000_0000 <= z <= 0x7fff_ffff,
        ;
        let weight: i128 = if self.shun_below && y < -1 {
            4 * (-y - 1)
        } else {
            0
        };
        x * x + y * y + z * z + weight
    }

    /// The nearest offset of the box that passes `test`.
    pub(crate) fn nearest<F: Fn(i32, i32, i32) -> bool>(
        self,
        test: F,
        Ghost(hit): Ghost<spec_fn(int, int, int) -> bool>,
    ) -> (r: Option<(i32, i32, i32)>)
        requires
            forall|x: i32, y: i32, z: i32|
                self.covers(x as int, y as int, z as int) ==> call_requires(test, (x, y, z)),
            forall|x: i32, y: i32, z: i32, b: bool|
                self.covers(x as int, y as int, z as int) && call_ensures(test, (x, y, z), b) ==> b
                    == hit(x as int, y as int, z as int),
        ensures
            r matches Some(d) ==> self.picks(hit, (d.0 as int, d.1 as int, d.2 as int)),
            r is None ==> self.misses(hit),
    {
        let mut best: Option<(i32, i32, i32)> = None;
        let mut best_cost: i128 = 0;
        let (lo_m, hi_m, lo_n, hi_n) = if self.columns {
            (self.lo.2 as i64, self.hi.2 as i64, self.lo.1 as i64, self.hi.1 as i64)
        } else {
            (self.lo.1 as i64, self.hi.1 as i64, self.lo.2 as i64, self.hi.2 as i64)
        };
        if lo_m > hi_m || lo_n > hi_n {
            return None;
        }
        let mut x: i64 = self.lo.0 as i64;
        while x <= self.hi.0 as i64
            invariant
                    forall|x: i32, y: i32, z: i32|
                    self.covers(x as int, y as int, z as int) ==> call_requires(test, (x, y, z)),
                forall|x: i32, y: i32, z: i32, b: bool|
                    self.covers(x as int, y as int, z as int) && call_ensures(test, (x, y, z), b)
                        ==> b == hit(x as int, y as int, z as int),
                self.columns ==> lo_m == self.lo.2 && hi_m == self.hi.2 && lo_n == self.lo.1 && hi_n
                    == self.hi.1,
                !self.columns ==> lo_m == self.lo.1 && hi_m == self.hi.1 && lo_n == self.lo.2 && hi_n
                    == self.hi.2,
                lo_m <= hi_m,
                lo_n <= hi_n,
                self.lo.0 <= x,
                x <= self.hi.0 + 1 || x == self.lo.0,
                self.so_far(hit, best, best_cost as int, self.spot(x as int, lo_m as int, lo_n as int)),
            decreases self.hi.0 + 1 - x,
        {
            let mut m: i64 = lo_m;
            while m <= hi_m
                invariant
                            forall|x: i32, y: i32, z: i32|
                        self.covers(x as int, y as int, z as int) ==> call_requires(test, (x, y, z)),
                    forall|x: i32, y: i32, z: i32, b: bool|
                        self.covers(x as int, y as int, z as int) && call_ensures(test, (x, y, z), b)
                            ==> b == hit(x as int, y as int, z as int),
                    self.columns ==> lo_m == self.lo.2 && hi_m == self.hi.2 && lo_n == self.lo.1
                        && hi_n == self.hi.1,
                    !self.columns ==> lo_m == self.lo.1 && hi_m == self.hi.1 && lo_n == self.lo.2
                        && hi_n == self.hi.2,
                    lo_m <= hi_m,
                    lo_n <= hi_n,
                    self.lo.0 <= x <= self.hi.0,
                    lo_m <= m <= hi_m + 1,
                    self.so_far(
                        hit,
                        best,
                        best_cost as int,
                        self.spot(x as int, m as int, lo_n as int),
                    ),
                decreases hi_m + 1 - m,
            {
                let mut n: i64 = lo_n;
                while n <= hi_n
                    invariant
                                    forall|x: i32, y: i32, z: i32|
                            self.covers(x as int, y as int, z as int) ==> call_requires(
                                test,
                                (x, y, z),
                            ),
                        forall|x: i32, y: i32, z: i32, b: bool|
                            self.covers(x as int, y as int, z as int) && call_ensures(
                                test,
                                (x, y, z),
                                b,
                            ) ==> b == hit(x as int, y as int, z as int),
                        self.columns ==> lo_m == self.lo.2 && hi_m == self.hi.2 && lo_n == self.lo.1
                            && hi_n == self.hi.1,
                        !self.columns ==> lo_m == self.lo.1 && hi_m == self.hi.1 && lo_n == self.lo.2
                            && hi_n == self.hi.2,
                        self.lo.0 <= x <= self.hi.0,
                        lo_m <= m <= hi_m,
                        lo_n <= n <= hi_n + 1,
                        self.so_far(
                            hit,
                            best,
                            best_cost as int,
                            self.spot(x as int, m as int, n as int),
                        ),
                    decreases hi_n + 1 - n,
                {
                    let (dx, dy, dz) = if self.columns {
                        (x as i32, n as i32, m as i32)
                    } else {
                        (x as i32, m as i32, n as i32)
                    };
                    assert(self.covers(dx as int, dy as int, dz as int));
                    if test(dx, dy, dz) {
                        let c: i128 = self.cost_of(dx, dy, dz);
                        if best.is_none() || c < best_cost {
                            best = Some((dx, dy, dz));
                            best_cost = c;
                        }
                    }
                    n += 1;
                }
                m += 1;
            }
            x += 1;
        }
        best
    }

    /// The offset at a place of the walk through the box.
    spec fn spot(self, x: int, m: int, n: int) -> (int, int, int) {
        if self.columns {
            (x, n, m)
        } else {
            (x, m, n)
        }
    }
}

/// A pick is settled: there is only one.
pub proof fn law_pick_is_one(
    s: Search,
    hit: spec_fn(int, int, int) -> bool,
    a: (int, int, int),
    b: (int, int, int),
)
    requires
        s.picks(hit, a),
        s.picks(hit, b),
    ensures
        a == b,
{
    assert(hit(a.0, a.1, a.2) && hit(b.0, b.1, b.2));
}

/// What a search around `at` comes to: the place of the pick, where there is one.
pub open spec fn found_near(
    s: Search,
    hit: spec_fn(int, int, int) -> bool,
    at: (i32, i32, i32),
) -> Option<(i32, i32, i32)> {
    if exists|d: (int, int, int)| s.picks(hit, d) {
        let d = choose|d: (int, int, int)| s.picks(hit, d);
        Some(((at.0 + d.0) as i32, (at.1 + d.1) as i32, (at.2 + d.2) as i32))
    } else {
        None
    }
}

pub(crate) proof fn lemma_found_near(
    s: Search,
    hit: spec_fn(int, int, int) -> bool,
    at: (i32, i32, i32),
    found: Option<(i32, i32, i32)>,
)
    requires
        found matches Some(p) ==> s.picks(hit, (p.0 - at.0, p.1 - at.1, p.2 - at.2)),
        found is None ==> s.misses(hit),
    ensures
        found == found_near(s, hit, at),
{
    match found {
        Some(p) => {
            let d: (int, int, int) = (p.0 - at.0, p.1 - at.1, p.2 - at.2);
            assert(s.picks(hit, d));
            law_pick_is_one(s, hit, d, choose|d: (int, int, int)| s.picks(hit, d));
        },
        None => {
            if exists|d: (int, int, int)| s.picks(hit, d) {
                let d = choose|d: (int, int, int)| s.picks(hit, d);
                assert(hit(d.0, d.1, d.2));
            }
        },
    }
}

/// `i` is the first of the keys below `below` that no other is less than.
pub open spec fn is_least(keys: Seq<u64>, below: u64, i: int) -> bool {
    &&& 0 <= i < keys.len()
    &&& keys[i] < below
    &&& forall|j: int| 0 <= j < keys.len() ==> keys[i] <= #[trigger] keys[j]
    &&& forall|j: int| 0 <= j < i ==> keys[i] < #[trigger] keys[j]
}

/// The first of the least keys, where any is below `below`. Distances are handed in
/// as keys in their order.
pub fn least_key(keys: &Vec<u64>, below: u64) -> (r: Option<usize>)
    ensures
        r matches Some(i) ==> is_least(keys@, below, i as int),
        r is None ==> forall|j: int| 0 <= j < keys@.len() ==> below <= #[trigger] keys@[j],
{
    let mut best: Option<usize> = None;
    let mut limit: u64 = below;
    let mut i: usize = 0;
    while i < keys.len()
        invariant
            i <= keys@.len(),
            limit <= below,
            forall|j: int| 0 <= j < i ==> limit <= #[trigger] keys@[j],
            best is None ==> limit == below,
            best matches Some(b) ==> b < i && keys@[b as int] == limit && limit < below && forall|j: int|
                0 <= j < b ==> limit < #[trigger] keys@[j],
        decreases keys@.len() - i,
    {
        if keys[i] < limit {
            limit = keys[i];
            best = Some(i);
        }
        i += 1;
    }
    best
}

/// A cell counts as far away as it is; only where cells below are shunned does each level from
/// the second on count for four more.
pub proof fn law_far_below_counts_more(s: Search, dx: int, dy: int, dz: int)
    ensures
        !s.shun_below || dy >= -1 ==> s.cost(dx, dy, dz) == dx * dx + dy * dy + dz * dz,
        s.shun_below && dy <= -1 ==> s.cost(dx, dy, dz) == dx * dx + dy * dy + dz * dz + 4 * (-1 - dy),
        s.covers(dx, dy, dz) <==> (s.lo.0 <= dx && s.lo.1 <= dy && s.lo.2 <= dz) && (dx <= s.hi.0 && dy
            <= s.hi.1 && dz <= s.hi.2),
{
}

/// The box is gone through by its first axis, and then column by column or level by level;
/// every cell comes before or after every other.
pub proof fn law_cells_come_one_after_the_other(s: Search, d: (int, int, int), e: (int, int, int))
    ensures
        d != e ==> (s.before(d, e) <==> !s.before(e, d)),
        !s.before(d, d),
        d.0 < e.0 ==> s.before(d, e),
        s.columns && d.0 == e.0 && d.2 < e.2 ==> s.before(d, e),
        s.columns && d.0 == e.0 && d.2 == e.2 && d.1 < e.1 ==> s.before(d, e),
        !s.columns && d.0 == e.0 && d.1 < e.1 ==> s.before(d, e),
        !s.columns && d.0 == e.0 && d.1 == e.1 && d.2 < e.2 ==> s.before(d, e),
{
}

/// What is picked is a hit within the box, no hit within it counts as nearer, and of hits that
/// count as near it is the first.
pub proof fn law_the_nearest_hit_is_picked(
    s: Search,
    hit: spec_fn(int, int, int) -> bool,
    d: (int, int, int),
    e: (int, int, int),
)
    requires
        s.picks(hit, d),
        s.covers(e.0, e.1, e.2),
        hit(e.0, e.1, e.2),
    ensures
        s.covers(d.0, d.1, d.2),
        hit(d.0, d.1, d.2),
        s.cost(d.0, d.1, d.2) <= s.cost(e.0, e.1, e.2),
        s.cost(d.0, d.1, d.2) == s.cost(e.0, e.1, e.2) && d != e ==> s.before(d, e),
        !s.misses(hit),
{
}

/// A search finds the place of its pick, seen from where it is made, and nothing where there
/// is no hit.
pub proof fn law_the_pick_is_found(
    s: Search,
    hit: spec_fn(int, int, int) -> bool,
    at: (i32, i32, i32),
    d: (int, int, int),
)
    ensures
        s.picks(hit, d) ==> found_near(s, hit, at) == Some(
            ((at.0 + d.0) as i32, (at.1 + d.1) as i32, (at.2 + d.2) as i32),
        ),
        s.misses(hit) ==> found_near(s, hit, at) is None,
{
    if s.picks(hit, d) {
        law_pick_is_one(s, hit, d, choose|d: (int, int, int)| s.picks(hit, d));
    }
    if s.misses(hit) && exists|d: (int, int, int)| s.picks(hit, d) {
        let e = choose|d: (int, int, int)| s.picks(hit, d);
        assert(hit(e.0, e.1, e.2));
    }
}

/// The least key is below the limit, no key is less, and it is the first of those as small.
pub proof fn law_the_least_key_is_least(keys: Seq<u64>, below: u64, i: int, j: int)
    requires
        is_least(keys, below, i),
        0 <= j < keys.len(),
    ensures
        keys[i] < below,
        keys[i] <= keys[j],
        keys[i] == keys[j] ==> i <= j,
{
}

/// A key that is below the limit and least, and before all others as small, is the one.
pub proof fn law_the_first_least_key_counts(keys: Seq<u64>, below: u64, i: int)
    requires
        0 <= i < keys.len(),
        keys[i] < below,
        forall|j: int| 0 <= j < keys.len() ==> keys[i] <= #[trigger] keys[j] && (keys[i] == keys[j] ==> i <= j),
    ensures
        is_least(keys, below, i),
{
}

} // verus!
