//! Archery scoring over fixed-point coordinates.
//!
//! Coordinates and distances are held in thousandths of a unit, so the
//! scoring thresholds of 1, 3 and 5 units are the integers 1000, 3000 and
//! 5000, and the distance from the centre is the integer square root of the
//! squared distance.

use vstd::prelude::*;

verus! {

/// Half the width, in thousandths of a unit, of the square region that
/// arrows land in.
pub const REGION_HALF_WIDTH: i64 = 6000;

/// Bound on a coordinate's magnitude under which the squared distance fits
/// in a machine word.
pub const COORD_LIMIT: i64 = 2_000_000_000;

/// A 2D coordinate, in thousandths of a unit from the centre of the target.
#[derive(Clone, Copy, PartialEq, Eq, Structural, Debug)]
pub struct Coord {
    pub x: i64,
    pub y: i64,
}

/// One scored shot: a bullseye, a ring hit carrying the distance (in
/// thousandths of a unit) that produced it, or a miss.
#[derive(Clone, Copy, PartialEq, Eq, Structural, Debug)]
pub enum Shot {
    Bullseye,
    Hit(u64),
    Miss,
}

/// Point value of a shot: 5 for a bullseye, 2 for a ring hit closer than
/// 3 units, 1 for a farther ring hit, 0 for a miss.
pub open spec fn shot_points(s: Shot) -> int {
    match s {
        Shot::Bullseye => 5,
        Shot::Hit(d) => if d < 3000 {
            2
        } else {
            1
        },
        Shot::Miss => 0,
    }
}

/// The score category of a distance from the centre, in thousandths of a
/// unit: a bullseye under 1 unit, a ring hit under 5 units, a miss beyond.
pub open spec fn classify_spec(d: int) -> Shot {
    if d < 1000 {
        Shot::Bullseye
    } else if d < 5000 {
        Shot::Hit(d as u64)
    } else {
        Shot::Miss
    }
}

/// Squared distance of a coordinate from the centre.
pub open spec fn dist2(c: Coord) -> int {
    c.x * c.x + c.y * c.y
}

/// Floor of the square root.
pub open spec fn sqrt_floor(n: nat) -> nat
    decreases n,
{
    if n == 0 {
        0
    } else {
        let s = sqrt_floor((n - 1) as nat);
        if (s + 1) * (s + 1) <= n {
            s + 1
        } else {
            s
        }
    }
}

/// Distance of a coordinate from the centre, in the same thousandths.
pub open spec fn spec_distance(c: Coord) -> nat {
    sqrt_floor(dist2(c) as nat)
}

/// The score category a coordinate falls in.
pub open spec fn shot_of_coord(c: Coord) -> Shot {
    classify_spec(spec_distance(c) as int)
}

/// The score categories of a run of coordinates, in generation order.
pub open spec fn shots_of(coords: Seq<Coord>) -> Seq<Shot> {
    coords.map_values(|c: Coord| shot_of_coord(c))
}

/// Sum of the point values of a run of score categories.
pub open spec fn sum_points(shots: Seq<Shot>) -> int
    decreases shots.len(),
{
    if shots.len() == 0 {
        0
    } else {
        sum_points(shots.drop_last()) + shot_points(shots.last())
    }
}

/// Sum of the point values that a run of coordinates scores.
pub open spec fn total_points(coords: Seq<Coord>) -> int
    decreases coords.len(),
{
    if coords.len() == 0 {
        0
    } else {
        total_points(coords.drop_last()) + shot_points(shot_of_coord(coords.last()))
    }
}

/// The coordinate lies in the square region that arrows land in.
pub open spec fn in_region(c: Coord) -> bool {
    &&& -REGION_HALF_WIDTH <= c.x <= REGION_HALF_WIDTH
    &&& -REGION_HALF_WIDTH <= c.y <= REGION_HALF_WIDTH
}

/// The coordinate is small enough that its squared distance fits in a
/// machine word.
pub open spec fn in_coord_limit(c: Coord) -> bool {
    &&& -COORD_LIMIT <= c.x <= COORD_LIMIT
    &&& -COORD_LIMIT <= c.y <= COORD_LIMIT
}

/// The floor square root squares to at most its argument, and the next
/// integer up squares past it.
pub proof fn lemma_sqrt_floor_bounds(n: nat)
    ensures
        sqrt_floor(n) * sqrt_floor(n) <= n,
        n < (sqrt_floor(n) + 1) * (sqrt_floor(n) + 1),
    decreases n,
{
    if n == 0 {
        assert(sqrt_floor(n) == 0);
        assert(n < (sqrt_floor(n) + 1) * (sqrt_floor(n) + 1)) by (nonlinear_arith)
            requires
                n == 0,
                sqrt_floor(n) == 0,
        ;
    } else {
        lemma_sqrt_floor_bounds((n - 1) as nat);
        let s = sqrt_floor((n - 1) as nat);
        if (s + 1) * (s + 1) <= n {
            assert(sqrt_floor(n) == s + 1);
            assert(sqrt_floor(n) * sqrt_floor(n) <= n && n < (sqrt_floor(n) + 1) * (sqrt_floor(n)
                + 1)) by (nonlinear_arith)
                requires
                    sqrt_floor(n) == s + 1,
                    (s + 1) * (s + 1) <= n,
                    n - 1 < (s + 1) * (s + 1),
            ;
        } else {
            assert(sqrt_floor(n) == s);
            assert(sqrt_floor(n) * sqrt_floor(n) <= n && n < (sqrt_floor(n) + 1) * (sqrt_floor(n)
                + 1)) by (nonlinear_arith)
                requires
                    sqrt_floor(n) == s,
                    s * s <= n - 1,
                    n < (s + 1) * (s + 1),
            ;
        }
    }
}

/// Any integer whose square is at most `n`, and whose successor's square is
/// past `n`, is the floor square root of `n`.
proof fn lemma_sqrt_floor_unique(n: nat, r: nat)
    requires
        r * r <= n,
        n < (r + 1) * (r + 1),
    ensures
        r == sqrt_floor(n),
{
    let s = sqrt_floor(n);
    lemma_sqrt_floor_bounds(n);
    if r < s {
        assert((r + 1) * (r + 1) <= s * s) by (nonlinear_arith)
            requires
                r + 1 <= s,
        ;
    }
    if s < r {
        assert((s + 1) * (s + 1) <= r * r) by (nonlinear_arith)
            requires
                s + 1 <= r,
        ;
    }
}

/// Integer square root by bisection.
pub fn isqrt(n: u64) -> (r: u64)
    ensures
        r == sqrt_floor(n as nat),
{
    let mut lo: u64 = 0;
    let mut hi: u64 = 0xFFFF_FFFF;
    while lo < hi
        invariant
            lo <= hi <= 0xFFFF_FFFF,
            lo * lo <= n,
            n < (hi + 1) * (hi + 1),
        decreases hi - lo,
    {
        let mid = lo + (hi - lo + 1) / 2;
        proof {
            assert(mid * mid <= 0xFFFF_FFFF_0000_0000u64) by (nonlinear_arith)
                requires
                    0 <= mid <= 0xFFFF_FFFFu64,
            ;
        }
        if mid * mid <= n {
            lo = mid;
        } else {
            hi = mid - 1;
        }
    }
    proof {
        lemma_sqrt_floor_unique(n as nat, lo as nat);
    }
    lo
}

impl Coord {
    /// Distance of this coordinate from the centre of the target, in
    /// thousandths of a unit.
    pub fn distance_from_center(&self) -> (r: u64)
        requires
            in_coord_limit(*self),
        ensures
            r == spec_distance(*self),
    {
        proof {
            assert(0 <= self.x * self.x <= 4_000_000_000_000_000_000i64
                && 0 <= self.y * self.y <= 4_000_000_000_000_000_000i64) by (nonlinear_arith)
                requires
                    -COORD_LIMIT <= self.x <= COORD_LIMIT,
                    -COORD_LIMIT <= self.y <= COORD_LIMIT,
            ;
        }
        let sq: i64 = self.x * self.x + self.y * self.y;
        isqrt(sq as u64)
    }
}

impl Shot {
    /// Point value of this shot.
    pub fn points(self) -> (r: i32)
        ensures
            r == shot_points(self),
    {
        match self {
            Shot::Bullseye => 5,
            Shot::Miss => 0,
            Shot::Hit(x) => {
                if x < 3000 {
                    2
                } else {
                    1
                }
            },
        }
    }
}

/// The score category of a distance from the centre, in thousandths of a
/// unit.
pub fn classify(distance: u64) -> (s: Shot)
    ensures
        s == classify_spec(distance as int),
{
    if distance < 1000 {
        Shot::Bullseye
    } else if distance < 5000 {
        Shot::Hit(distance)
    } else {
        Shot::Miss
    }
}

/// Relies on rand::random: one draw from the thread-local generator;
/// nothing is promised of the value.
#[verifier::external_body]
fn random_u64() -> u64 {
    rand::random::<u64>()
}

/// A run of `num` arrows, each coordinate drawn from the square region.
pub fn get_arrow_coords(num: u32) -> (coords: Vec<Coord>)
    ensures
        coords@.len() == num as nat,
        forall|i: int| 0 <= i < coords@.len() ==> in_region(#[trigger] coords@[i]),
{
    let mut coords: Vec<Coord> = Vec::new();
    let mut k: u32 = 0;
    while k < num
        invariant
            k <= num,
            coords@.len() == k as nat,
            forall|i: int| 0 <= i < coords@.len() ==> in_region(#[trigger] coords@[i]),
        decreases num - k,
    {
        let x = (random_u64() % 12001) as i64 - 6000;
        let y = (random_u64() % 12001) as i64 - 6000;
        coords.push(Coord { x, y });
        k += 1;
    }
    coords
}

/// The score category of each coordinate of a run, in generation order.
pub fn classify_all(coords: &Vec<Coord>) -> (shots: Vec<Shot>)
    requires
        forall|i: int| 0 <= i < coords@.len() ==> in_coord_limit(#[trigger] coords@[i]),
    ensures
        shots@ == shots_of(coords@),
{
    let mut shots: Vec<Shot> = Vec::new();
    let mut k: usize = 0;
    while k < coords.len()
        invariant
            k <= coords@.len(),
            shots@.len() == k as nat,
            forall|i: int| 0 <= i < coords@.len() ==> in_coord_limit(#[trigger] coords@[i]),
            forall|i: int| 0 <= i < k ==> shots@[i] == shot_of_coord(coords@[i]),
        decreases coords@.len() - k,
    {
        let distance = coords[k].distance_from_center();
        shots.push(classify(distance));
        k += 1;
    }
    proof {
        assert(shots@ =~= shots_of(coords@));
    }
    shots
}

/// Point values lie between 0 and 5, so a total is bounded by five points
/// per shot.
proof fn lemma_sum_points_bounds(shots: Seq<Shot>)
    ensures
        0 <= sum_points(shots) <= 5 * shots.len(),
    decreases shots.len(),
{
    if shots.len() > 0 {
        lemma_sum_points_bounds(shots.drop_last());
    }
}

/// Total point value of a run of shots.
pub fn score_shots(shots: &Vec<Shot>) -> (total: i32)
    requires
        5 * shots@.len() <= i32::MAX,
    ensures
        total == sum_points(shots@),
{
    let mut total: i32 = 0;
    let mut k: usize = 0;
    proof {
        assert(shots@.take(0) =~= Seq::<Shot>::empty());
    }
    while k < shots.len()
        invariant
            k <= shots@.len(),
            5 * shots@.len() <= i32::MAX,
            total == sum_points(shots@.take(k as int)),
            0 <= total <= 5 * k,
        decreases shots@.len() - k,
    {
        proof {
            let taken = shots@.take(k as int + 1);
            assert(taken.drop_last() =~= shots@.take(k as int));
            assert(taken.last() == shots@[k as int]);
            lemma_sum_points_bounds(shots@.take(k as int));
        }
        total += shots[k].points();
        k += 1;
    }
    proof {
        assert(shots@.take(shots@.len() as int) =~= shots@);
    }
    total
}

/// A distance under 1 unit classifies as a bullseye and contributes exactly
/// 5 points.
pub proof fn lemma_bullseye_scores_five(d: int)
    requires
        0 <= d < 1000,
    ensures
        classify_spec(d) == Shot::Bullseye,
        shot_points(classify_spec(d)) == 5,
{
}

/// A distance of at least 1 unit but under 3 classifies as a ring hit and
/// contributes exactly 2 points.
pub proof fn lemma_inner_ring_scores_two(d: int)
    requires
        1000 <= d < 3000,
    ensures
        classify_spec(d) == Shot::Hit(d as u64),
        shot_points(classify_spec(d)) == 2,
{
}

/// A distance of at least 3 units but under 5 classifies as a ring hit and
/// contributes exactly 1 point.
pub proof fn lemma_outer_ring_scores_one(d: int)
    requires
        3000 <= d < 5000,
    ensures
        classify_spec(d) == Shot::Hit(d as u64),
        shot_points(classify_spec(d)) == 1,
{
}

/// A distance of 5 units or more classifies as a miss and contributes
/// nothing.
pub proof fn lemma_miss_scores_nothing(d: int)
    requires
        d >= 5000,
    ensures
        classify_spec(d) == Shot::Miss,
        shot_points(classify_spec(d)) == 0,
{
}

/// A run of coordinates yields exactly one score category per coordinate,
/// and the run's total is the sum of each coordinate's individual point
/// value.
pub proof fn lemma_run_total(coords: Seq<Coord>)
    ensures
        shots_of(coords).len() == coords.len(),
        sum_points(shots_of(coords)) == total_points(coords),
    decreases coords.len(),
{
    if coords.len() > 0 {
        lemma_run_total(coords.drop_last());
        assert(shots_of(coords).drop_last() =~= shots_of(coords.drop_last()));
    }
}

/// Each score category contributes exactly its own point value to the
/// total, wherever in the run it stands.
pub proof fn lemma_each_shot_contributes(shots: Seq<Shot>, k: int)
    requires
        0 <= k < shots.len(),
    ensures
        sum_points(shots) == shot_points(shots[k]) + sum_points(shots.remove(k)),
    decreases shots.len(),
{
    if k == shots.len() - 1 {
        assert(shots.remove(k) =~= shots.drop_last());
    } else {
        lemma_each_shot_contributes(shots.drop_last(), k);
        assert(shots.remove(k).drop_last() =~= shots.drop_last().remove(k));
        assert(shots.remove(k).last() == shots.last());
    }
}

} // verus!
