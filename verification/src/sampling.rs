//! Uniform points of the unit ball by rejection, on a lattice of spacing
//! `2^-53`.
//!
//! A coordinate is the numerator of a fraction over `2^53`, so the cube of
//! side 2 about the origin holds the numerators from `-2^53` up to, and not
//! including, `2^53`, and the test against the unit ball is exact.
//!
//! Each sampler comes twice: `pick_..` searches draws that it is given and
//! says exactly which point it returns, and `random_..` makes the same search
//! over draws that it takes from the generator.
use vstd::prelude::*;
use crate::order::{less, precedes, ZERO};
use crate::utilities::{random_double, unit, UNIT};

verus! {

/// A point whose coordinates are `x / 2^53`, `y / 2^53` and `z / 2^53`.
#[derive(Clone, Copy, Debug, PartialEq, Eq, Structural)]
pub struct LatticePoint {
    pub x: i64,
    pub y: i64,
    pub z: i64,
}

/// The coordinate in `[-1, 1)` that a numerator `n` of `[0, 1)` maps to:
/// `-1 + 2 * (n / 2^53)`, as a numerator over `2^53`.
pub open spec fn spread(n: int) -> int {
    2 * n - unit()
}

/// The number of draws that one candidate takes: three for a point of the
/// cube, two for a point of the square in the plane `z = 0`.
pub open spec fn draws_per_try(flat: bool) -> int {
    if flat {
        2
    } else {
        3
    }
}

/// Every draw is a numerator of `[0, 1)`.
pub open spec fn are_draws(draws: Seq<u64>) -> bool {
    forall|i: int| 0 <= i < draws.len() ==> #[trigger] draws[i] < unit()
}

/// The candidate of try `k`, counted from zero, when the generator yields
/// `draws` in this order: each try takes the next draws, one for each
/// coordinate, and a draw `d` gives the coordinate `2 * d - 1`.
pub open spec fn candidate(draws: Seq<u64>, flat: bool, k: int) -> LatticePoint {
    if flat {
        LatticePoint {
            x: spread(draws[2 * k] as int) as i64,
            y: spread(draws[2 * k + 1] as int) as i64,
            z: 0,
        }
    } else {
        LatticePoint {
            x: spread(draws[3 * k] as int) as i64,
            y: spread(draws[3 * k + 1] as int) as i64,
            z: spread(draws[3 * k + 2] as int) as i64,
        }
    }
}

/// What rejection sampling returns from try `from` on: the first candidate
/// that lies strictly inside the unit ball, and none where the tries or the
/// draws run out before one does.
pub open spec fn first_accepted(draws: Seq<u64>, flat: bool, from: int, max_tries: int) -> Option<
    LatticePoint,
>
    decreases max_tries - from,
{
    if from < 0 || from >= max_tries || draws_per_try(flat) * (from + 1) > draws.len() {
        None
    } else if candidate(draws, flat, from).in_unit_ball() {
        Some(candidate(draws, flat, from))
    } else {
        first_accepted(draws, flat, from + 1, max_tries)
    }
}

/// The first candidate of the cube, three draws each, that lies strictly
/// inside the unit ball, among the tries from `from` up to `max_tries`.
pub open spec fn first_inside(draws: Seq<u64>, from: int, max_tries: int) -> Option<LatticePoint> {
    first_accepted(draws, false, from, max_tries)
}

/// The first candidate of the square, two draws each, that lies strictly
/// inside the unit disk, among the tries from `from` up to `max_tries`.
pub open spec fn first_inside_disk(draws: Seq<u64>, from: int, max_tries: int) -> Option<
    LatticePoint,
> {
    first_accepted(draws, true, from, max_tries)
}

/// `found` is what rejection sampling returns when the generator yields
/// `draws`, and the search gave up only after `max_tries` candidates.
pub open spec fn is_search(
    draws: Seq<u64>,
    flat: bool,
    max_tries: int,
    found: Option<LatticePoint>,
) -> bool {
    &&& are_draws(draws)
    &&& found == first_accepted(draws, flat, 0, max_tries)
    &&& found is None ==> draws.len() == draws_per_try(flat) * max_tries
}

/// `found` is what sampling the hemisphere about `normal` returns when the
/// generator yields `draws`: the first candidate inside the unit ball, as it
/// is or mirrored as `oriented` says.
pub open spec fn is_hemisphere_search(
    draws: Seq<u64>,
    normal: LatticePoint,
    max_tries: int,
    found: Option<LatticePoint>,
) -> bool {
    &&& are_draws(draws)
    &&& found == match first_inside(draws, 0, max_tries) {
        Some(q) => Some(q.oriented(normal)),
        None => None,
    }
    &&& found is None ==> draws.len() == 3 * max_tries
}

/// Tries that were rejected can be skipped: the search from try `from` is the
/// search from try `next` where no candidate between the two lies inside the
/// ball.
pub proof fn lemma_rejected_tries(draws: Seq<u64>, flat: bool, from: int, next: int, max_tries: int)
    requires
        0 <= from <= next <= max_tries,
        draws_per_try(flat) * next <= draws.len(),
        forall|k: int| from <= k < next ==> !(#[trigger] candidate(draws, flat, k)).in_unit_ball(),
    ensures
        first_accepted(draws, flat, from, max_tries) == first_accepted(
            draws,
            flat,
            next,
            max_tries,
        ),
    decreases next - from,
{
    if from < next {
        assert(!candidate(draws, flat, from).in_unit_ball());
        lemma_rejected_tries(draws, flat, from + 1, next, max_tries);
    }
}

impl LatticePoint {
    /// Every coordinate lies in `[-1, 1)`.
    pub open spec fn in_cube(self) -> bool {
        &&& -unit() <= self.x < unit()
        &&& -unit() <= self.y < unit()
        &&& -unit() <= self.z < unit()
    }

    /// The point is one that three draws from `[0, 1)` give, one for each
    /// coordinate.
    pub open spec fn is_draw(self) -> bool {
        exists|a: int, b: int, c: int|
            0 <= a < unit() && 0 <= b < unit() && 0 <= c < unit() && self.x == spread(a) && self.y
                == spread(b) && self.z == spread(c)
    }

    /// The point is one that two draws from `[0, 1)` give for the first two
    /// coordinates, with the third at zero.
    pub open spec fn is_flat_draw(self) -> bool {
        exists|a: int, b: int|
            0 <= a < unit() && 0 <= b < unit() && self.x == spread(a) && self.y == spread(b)
                && self.z == 0
    }

    /// The squared distance from the origin, in units of `2^-106`.
    pub open spec fn norm_squared(self) -> int {
        self.x * self.x + self.y * self.y + self.z * self.z
    }

    /// The point lies strictly inside the ball of radius 1 about the origin.
    pub open spec fn in_unit_ball(self) -> bool {
        self.norm_squared() < unit() * unit()
    }

    /// The squared distance from the origin, in units of `2^-106`.
    pub fn length_squared(&self) -> (r: u128)
        ensures
            r == self.norm_squared(),
    {
        let xx: u128 = square(self.x);
        let yy: u128 = square(self.y);
        let zz: u128 = square(self.z);
        xx + yy + zz
    }

    /// Whether the point lies strictly inside the unit ball.
    pub fn inside_unit_sphere(&self) -> (r: bool)
        ensures
            r == self.in_unit_ball(),
    {
        assert(unit() * unit() == 0x400_0000_0000_0000_0000_0000_0000int) by (nonlinear_arith);
        self.length_squared() < 0x400_0000_0000_0000_0000_0000_0000u128
    }

    /// The point of the cube that three draws from `[0, 1)` give, one draw
    /// for each coordinate. A draw is `n / 2^53` with `n < 2^53`.
    pub fn from_draws(a: u64, b: u64, c: u64) -> (p: LatticePoint)
        requires
            a < unit(),
            b < unit(),
            c < unit(),
        ensures
            p.x == spread(a as int),
            p.y == spread(b as int),
            p.z == spread(c as int),
            p.in_cube(),
    {
        LatticePoint {
            x: 2 * (a as i64) - (UNIT as i64),
            y: 2 * (b as i64) - (UNIT as i64),
            z: 2 * (c as i64) - (UNIT as i64),
        }
    }

    /// The point of the square in the plane `z = 0` that two draws from
    /// `[0, 1)` give, one draw for each of the first two coordinates.
    pub fn from_flat_draws(a: u64, b: u64) -> (p: LatticePoint)
        requires
            a < unit(),
            b < unit(),
        ensures
            p.x == spread(a as int),
            p.y == spread(b as int),
            p.z == 0,
            p.in_cube(),
    {
        LatticePoint { x: 2 * (a as i64) - (UNIT as i64), y: 2 * (b as i64) - (UNIT as i64), z: 0 }
    }

    /// A uniform point of the cube of side 2 about the origin, from three
    /// fresh draws.
    pub fn random_in_cube() -> (p: LatticePoint)
        ensures
            p.in_cube(),
            p.is_draw(),
    {
        let a: u64 = random_double();
        let b: u64 = random_double();
        let c: u64 = random_double();
        let p = LatticePoint::from_draws(a, b, c);
        proof {
            let (na, nb, nc) = (a as int, b as int, c as int);
            assert(0 <= na < unit() && 0 <= nb < unit() && 0 <= nc < unit() && p.x == spread(na)
                && p.y == spread(nb) && p.z == spread(nc));
        }
        p
    }

    /// Rejection sampling of the unit ball over given draws: the candidates
    /// are made of the draws in turn, three draws each, and the first of at
    /// most `max_tries` candidates that lies strictly inside the ball is
    /// returned. `None` where no such candidate comes before the tries or the
    /// draws run out.
    pub fn pick_in_unit_sphere(draws: &Vec<u64>, max_tries: u32) -> (found: Option<LatticePoint>)
        requires
            are_draws(draws@),
        ensures
            found == first_inside(draws@, 0, max_tries as int),
            found is Some ==> found->Some_0.in_cube() && found->Some_0.in_unit_ball(),
    {
        pick(draws, false, max_tries)
    }

    /// Rejection sampling of the unit disk of the plane `z = 0` over given
    /// draws, two draws for each candidate.
    pub fn pick_in_unit_disk(draws: &Vec<u64>, max_tries: u32) -> (found: Option<LatticePoint>)
        requires
            are_draws(draws@),
        ensures
            found == first_inside_disk(draws@, 0, max_tries as int),
            found is Some ==> found->Some_0.in_cube() && found->Some_0.in_unit_ball(),
    {
        pick(draws, true, max_tries)
    }

    /// Sampling of the half of the unit ball that `normal` points to, over
    /// given draws: the point that `pick_in_unit_sphere` finds, as it is where
    /// its dot product with `normal` is positive and mirrored at the origin
    /// where it is not.
    pub fn pick_in_hemisphere(
        draws: &Vec<u64>,
        normal: &LatticePoint,
        max_tries: u32,
    ) -> (found: Option<LatticePoint>)
        requires
            are_draws(draws@),
        ensures
            found == match first_inside(draws@, 0, max_tries as int) {
                Some(q) => Some(q.oriented(*normal)),
                None => None,
            },
    {
        match LatticePoint::pick_in_unit_sphere(draws, max_tries) {
            Some(q) => Some(q.toward(normal)),
            None => None,
        }
    }

    /// A uniform point strictly inside the unit ball: candidates of the cube
    /// are drawn, three draws each, until one lies inside the ball, and that
    /// one is returned. After `max_tries` rejected candidates the search gives
    /// up with `None`; every single candidate is accepted with a probability
    /// of more than a half, so a generous bound is never reached in practice.
    ///
    /// The result is the one that `pick_in_unit_sphere` gives on the draws
    /// that were made. Which draws come is up to the generator.
    pub fn random_in_unit_sphere(max_tries: u32) -> (found: Option<LatticePoint>)
        ensures
            exists|draws: Seq<u64>| is_search(draws, false, max_tries as int, found),
            match found {
                Some(p) => p.is_draw() && p.in_cube() && p.in_unit_ball(),
                None => true,
            },
            max_tries == 0 ==> found is None,
    {
        let found = search(false, max_tries);
        proof {
            if found is Some {
                let p = found->Some_0;
                let draws = choose|draws: Seq<u64>|
                    is_search(draws, false, max_tries as int, found);
                lemma_found_is_candidate(draws, false, 0, max_tries as int);
                let k = choose|k: int|
                    0 <= k < max_tries && 3 * (k + 1) <= draws.len() && p == candidate(
                        draws,
                        false,
                        k,
                    );
                let (a, b, c) = (draws[3 * k] as int, draws[3 * k + 1] as int, draws[3 * k
                    + 2] as int);
                assert(0 <= a < unit() && 0 <= b < unit() && 0 <= c < unit() && p.x == spread(a)
                    && p.y == spread(b) && p.z == spread(c));
                lemma_ball_lies_in_cube(p);
            }
        }
        found
    }

    /// A uniform point strictly inside the unit disk of the plane `z = 0`,
    /// found as `random_in_unit_sphere` finds its points, from two draws a
    /// try. The result is the one that `pick_in_unit_disk` gives on the draws
    /// that were made.
    pub fn random_in_unit_disk(max_tries: u32) -> (found: Option<LatticePoint>)
        ensures
            exists|draws: Seq<u64>| is_search(draws, true, max_tries as int, found),
            match found {
                Some(p) => p.is_flat_draw() && p.in_cube() && p.in_unit_ball(),
                None => true,
            },
            max_tries == 0 ==> found is None,
    {
        let found = search(true, max_tries);
        proof {
            if found is Some {
                let p = found->Some_0;
                let draws = choose|draws: Seq<u64>| is_search(draws, true, max_tries as int, found);
                lemma_found_is_candidate(draws, true, 0, max_tries as int);
                let k = choose|k: int|
                    0 <= k < max_tries && 2 * (k + 1) <= draws.len() && p == candidate(
                        draws,
                        true,
                        k,
                    );
                let (a, b) = (draws[2 * k] as int, draws[2 * k + 1] as int);
                assert(0 <= a < unit() && 0 <= b < unit() && p.x == spread(a) && p.y == spread(b));
                lemma_ball_lies_in_cube(p);
            }
        }
        found
    }

    /// The dot product with `rhs`, in units of `2^-106`.
    pub open spec fn dot_product(self, rhs: LatticePoint) -> int {
        self.x * rhs.x + self.y * rhs.y + self.z * rhs.z
    }

    /// The point mirrored at the origin.
    pub open spec fn mirrored(self) -> LatticePoint {
        LatticePoint { x: (-self.x) as i64, y: (-self.y) as i64, z: (-self.z) as i64 }
    }

    /// The point itself where it lies on the side of the plane through the
    /// origin that `normal` points to, and the mirrored point where it lies on
    /// the other side or in the plane.
    pub open spec fn oriented(self, normal: LatticePoint) -> LatticePoint {
        if self.dot_product(normal) > 0 {
            self
        } else {
            self.mirrored()
        }
    }

    /// The point is a draw from the unit ball, as it came or mirrored at the
    /// origin, whichever of the two `oriented` picks for `normal`.
    pub open spec fn is_oriented_draw(self, normal: LatticePoint) -> bool {
        exists|q: LatticePoint|
            q.is_draw() && q.in_unit_ball() && self == #[trigger] q.oriented(normal)
    }

    /// The dot product of a point of the cube with any other point.
    pub fn dot(&self, rhs: &LatticePoint) -> (r: i128)
        requires
            self.in_cube(),
        ensures
            r == self.dot_product(*rhs),
    {
        let a: i128 = product(self.x, rhs.x);
        let b: i128 = product(self.y, rhs.y);
        let c: i128 = product(self.z, rhs.z);
        a + b + c
    }

    /// The point of the cube mirrored at the origin. It lies as far from the
    /// origin as the point itself.
    pub fn neg(&self) -> (r: LatticePoint)
        requires
            self.in_cube(),
        ensures
            r == self.mirrored(),
            r.x == -self.x && r.y == -self.y && r.z == -self.z,
            r.norm_squared() == self.norm_squared(),
    {
        let r = LatticePoint { x: -self.x, y: -self.y, z: -self.z };
        assert(r.norm_squared() == self.norm_squared()) by (nonlinear_arith)
            requires
                r.x == -self.x && r.y == -self.y && r.z == -self.z,
        ;
        r
    }

    /// The point itself where it lies on the side of the plane through the
    /// origin that `normal` points to, and the mirrored point where it lies on
    /// the other side or in the plane.
    pub fn toward(&self, normal: &LatticePoint) -> (r: LatticePoint)
        requires
            self.in_cube(),
        ensures
            r == self.oriented(*normal),
            r.dot_product(*normal) >= 0,
            r.norm_squared() == self.norm_squared(),
    {
        if self.dot(normal) > 0 {
            *self
        } else {
            let r = self.neg();
            assert(r.dot_product(*normal) == -self.dot_product(*normal)) by (nonlinear_arith)
                requires
                    r.x == -self.x && r.y == -self.y && r.z == -self.z,
            ;
            r
        }
    }

    /// The point itself where its dot product with a normal, given by the
    /// key `along_normal`, is positive, and the mirrored point where it is
    /// not.
    pub fn facing(&self, along_normal: i64) -> (r: LatticePoint)
        requires
            self.in_cube(),
        ensures
            r == if precedes(0, along_normal as int) {
                *self
            } else {
                self.mirrored()
            },
            r.norm_squared() == self.norm_squared(),
    {
        if less(ZERO, along_normal) {
            *self
        } else {
            self.neg()
        }
    }

    /// A uniform point of the half of the unit ball that `normal` points to:
    /// a point drawn from the unit ball, as it came or mirrored at the origin
    /// as `oriented` says. `None` where `random_in_unit_sphere` gives up.
    pub fn random_in_hemisphere(normal: &LatticePoint, max_tries: u32) -> (found: Option<
        LatticePoint,
    >)
        ensures
            exists|draws: Seq<u64>| is_hemisphere_search(draws, *normal, max_tries as int, found),
            match found {
                Some(p) => p.is_oriented_draw(*normal) && p.in_cube() && p.in_unit_ball()
                    && p.dot_product(*normal) >= 0,
                None => true,
            },
            max_tries == 0 ==> found is None,
    {
        let sampled = LatticePoint::random_in_unit_sphere(max_tries);
        let ghost draws = choose|draws: Seq<u64>|
            is_search(draws, false, max_tries as int, sampled);
        match sampled {
            Some(p) => {
                let r = p.toward(normal);
                proof {
                    lemma_ball_lies_in_cube(r);
                    assert(r == p.oriented(*normal));
                    assert(is_hemisphere_search(draws, *normal, max_tries as int, Some(r)));
                }
                Some(r)
            },
            None => {
                proof {
                    assert(is_hemisphere_search(draws, *normal, max_tries as int, None));
                }
                None
            },
        }
    }
}

/// A point that the search finds is one of its candidates, and lies inside
/// the ball.
pub proof fn lemma_found_is_candidate(draws: Seq<u64>, flat: bool, from: int, max_tries: int)
    requires
        first_accepted(draws, flat, from, max_tries) is Some,
    ensures
        exists|k: int|
            from <= k < max_tries && 0 <= k && draws_per_try(flat) * (k + 1) <= draws.len()
                && first_accepted(draws, flat, from, max_tries) == Some(
                #[trigger] candidate(draws, flat, k),
            ),
        first_accepted(draws, flat, from, max_tries)->Some_0.in_unit_ball(),
    decreases max_tries - from,
{
    if !candidate(draws, flat, from).in_unit_ball() {
        lemma_found_is_candidate(draws, flat, from + 1, max_tries);
        let k = choose|k: int|
            from + 1 <= k < max_tries && 0 <= k && draws_per_try(flat) * (k + 1) <= draws.len()
                && first_accepted(draws, flat, from + 1, max_tries) == Some(
                #[trigger] candidate(draws, flat, k),
            );
        assert(from <= k);
    }
}

/// The candidate that the next draws give: a point of the square from two
/// draws, a point of the cube from three.
fn make_candidate(a: u64, b: u64, c: u64, flat: bool) -> (p: LatticePoint)
    requires
        a < unit(),
        b < unit(),
        c < unit(),
    ensures
        p.x == spread(a as int),
        p.y == spread(b as int),
        p.z == if flat {
            0
        } else {
            spread(c as int)
        },
        p.in_cube(),
{
    if flat {
        LatticePoint::from_flat_draws(a, b)
    } else {
        LatticePoint::from_draws(a, b, c)
    }
}

/// The search over given draws, for the ball and for the disk.
fn pick(draws: &Vec<u64>, flat: bool, max_tries: u32) -> (found: Option<LatticePoint>)
    requires
        are_draws(draws@),
    ensures
        found == first_accepted(draws@, flat, 0, max_tries as int),
        found is Some ==> found->Some_0.in_cube() && found->Some_0.in_unit_ball(),
{
    let per: usize = if flat { 2 } else { 3 };
    let mut tries: u32 = 0;
    let mut at: usize = 0;
    while tries < max_tries && draws.len() - at >= per
        invariant
            per == draws_per_try(flat),
            are_draws(draws@),
            tries <= max_tries,
            at == draws_per_try(flat) * tries,
            at <= draws.len(),
            first_accepted(draws@, flat, 0, max_tries as int) == first_accepted(
                draws@,
                flat,
                tries as int,
                max_tries as int,
            ),
        decreases max_tries - tries,
    {
        let a: u64 = draws[at];
        let b: u64 = draws[at + 1];
        let c: u64 = if flat { 0 } else { draws[at + 2] };
        let p = make_candidate(a, b, c, flat);
        assert(p == candidate(draws@, flat, tries as int));
        if p.inside_unit_sphere() {
            return Some(p);
        }
        tries = tries + 1;
        at = at + per;
    }
    None
}

/// The search over fresh draws, for the ball and for the disk: a candidate
/// is made of the next draws and returned if it lies inside the ball, up to
/// `max_tries` times.
fn search(flat: bool, max_tries: u32) -> (found: Option<LatticePoint>)
    ensures
        exists|draws: Seq<u64>| is_search(draws, flat, max_tries as int, found),
        max_tries == 0 ==> found is None,
{
    let ghost mut drawn: Seq<u64> = Seq::empty();
    let mut tries: u32 = 0;
    while tries < max_tries
        invariant
            tries <= max_tries,
            are_draws(drawn),
            drawn.len() == draws_per_try(flat) * tries,
            forall|k: int|
                0 <= k < tries ==> !(#[trigger] candidate(drawn, flat, k)).in_unit_ball(),
        decreases max_tries - tries,
    {
        let a: u64 = random_double();
        let b: u64 = random_double();
        let c: u64 = if flat { 0 } else { random_double() };
        let p = make_candidate(a, b, c, flat);
        let ghost before = drawn;
        proof {
            drawn = if flat {
                before.push(a).push(b)
            } else {
                before.push(a).push(b).push(c)
            };
            assert forall|k: int| 0 <= k < tries implies candidate(drawn, flat, k) == candidate(
                before,
                flat,
                k,
            ) by {}
            assert(p == candidate(drawn, flat, tries as int));
        }
        if p.inside_unit_sphere() {
            proof {
                lemma_rejected_tries(drawn, flat, 0, tries as int, max_tries as int);
                assert(is_search(drawn, flat, max_tries as int, Some(p)));
            }
            return Some(p);
        }
        tries = tries + 1;
    }
    proof {
        lemma_rejected_tries(drawn, flat, 0, max_tries as int, max_tries as int);
        assert(is_search(drawn, flat, max_tries as int, None));
    }
    None
}

/// The unit ball lies inside the cube of side 2 about the origin, and clear
/// of its faces: every coordinate of a point of the ball lies strictly
/// between -1 and 1.
pub proof fn lemma_ball_lies_in_cube(p: LatticePoint)
    requires
        p.in_unit_ball(),
    ensures
        p.in_cube(),
        -unit() < p.x && -unit() < p.y && -unit() < p.z,
{
    let u = unit();
    let (x, y, z) = (p.x as int, p.y as int, p.z as int);
    assert(-u < x < u && -u < y < u && -u < z < u) by (nonlinear_arith)
        requires
            x * x + y * y + z * z < u * u,
            u > 0,
    ;
}

/// The product of a coordinate of the cube with any other coordinate.
fn product(a: i64, b: i64) -> (r: i128)
    requires
        -unit() <= a < unit(),
    ensures
        r == a * b,
        -0x10_0000_0000_0000_0000_0000_0000_0000 <= r <= 0x10_0000_0000_0000_0000_0000_0000_0000,
{
    assert(-0x10_0000_0000_0000_0000_0000_0000_0000 <= a * b
        <= 0x10_0000_0000_0000_0000_0000_0000_0000) by (nonlinear_arith)
        requires
            -0x20_0000_0000_0000 <= a < 0x20_0000_0000_0000,
            -0x8000_0000_0000_0000 <= b < 0x8000_0000_0000_0000,
    ;
    let wide_a: i128 = a as i128;
    let wide_b: i128 = b as i128;
    wide_a * wide_b
}

/// The square of `v`, which always fits 128 bits.
fn square(v: i64) -> (r: u128)
    ensures
        r == v * v,
        r <= 0x4000_0000_0000_0000_0000_0000_0000_0000,
{
    assert(0 <= v * v <= 0x4000_0000_0000_0000_0000_0000_0000_0000) by (nonlinear_arith)
        requires
            -0x8000_0000_0000_0000 <= v < 0x8000_0000_0000_0000,
    ;
    let wide: i128 = v as i128;
    let product: i128 = wide * wide;
    product as u128
}

} // verus!
