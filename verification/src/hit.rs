//! Which root of a sphere's quadratic is the hit, and which object of a scene
//! is hit first.
//!
//! Ray parameters come in as `i64` keys whose order is the order of the
//! parameters they stand for. An object that the ray's line does not cross
//! has no roots and is written `None`.
use vstd::prelude::*;
use crate::order::{less, precedes, ZERO};

verus! {

/// The two solutions of a sphere's quadratic along a ray, in either order.
#[derive(Clone, Copy, Debug, PartialEq, Eq, Structural)]
pub struct Roots {
    pub first: i64,
    pub second: i64,
}

/// An accepted intersection: the object's place in the scene and the ray
/// parameter at which the ray meets it.
#[derive(Clone, Copy, Debug, PartialEq, Eq, Structural)]
pub struct Hit {
    pub index: usize,
    pub t: i64,
}

/// `t` lies strictly inside the open window from `t_min` to `t_max`.
pub open spec fn within(t: int, t_min: int, t_max: int) -> bool {
    t_min < t && t < t_max
}

impl Roots {
    /// The smaller of the two roots.
    pub open spec fn near(self) -> int {
        if self.first <= self.second {
            self.first as int
        } else {
            self.second as int
        }
    }

    /// The larger of the two roots.
    pub open spec fn far(self) -> int {
        if self.first <= self.second {
            self.second as int
        } else {
            self.first as int
        }
    }
}

/// The parameter at which an object counts as hit inside a window: the
/// smaller root if the window holds it, else the larger root if the window
/// holds that, else none. An object without roots is never hit.
pub open spec fn accepted(roots: Option<Roots>, t_min: int, t_max: int) -> Option<int> {
    match roots {
        None => None,
        Some(r) => if within(r.near(), t_min, t_max) {
            Some(r.near())
        } else if within(r.far(), t_min, t_max) {
            Some(r.far())
        } else {
            None
        },
    }
}

/// `h` is the closest hit of `objects` inside the window: its object is hit at
/// `h.t`, no object is hit earlier, and no object before it is hit as early.
pub open spec fn is_closest(h: Hit, objects: Seq<Option<Roots>>, t_min: int, t_max: int) -> bool {
    &&& h.index < objects.len()
    &&& accepted(objects[h.index as int], t_min, t_max) == Some(h.t as int)
    &&& forall|j: int|
        0 <= j < objects.len() ==> match #[trigger] accepted(objects[j], t_min, t_max) {
            None => true,
            Some(t) => h.t <= t && (j < h.index ==> h.t < t),
        }
}

/// No object of `objects` is hit inside the window.
pub open spec fn all_missed(objects: Seq<Option<Roots>>, t_min: int, t_max: int) -> bool {
    forall|j: int|
        0 <= j < objects.len() ==> (#[trigger] accepted(objects[j], t_min, t_max)) is None
}

/// The roots of a quadratic with the given discriminant: the two solutions
/// where the discriminant is positive, and none where it is zero, negative or
/// no number, whatever the two solutions were computed to be.
pub open spec fn crossing(discriminant: int, first: i64, second: i64) -> Option<Roots> {
    if precedes(0, discriminant) {
        Some(Roots { first, second })
    } else {
        None
    }
}

/// The roots of a sphere's quadratic along a ray, from the key of its
/// discriminant and the keys of its two solutions: a ray whose discriminant
/// is not positive does not cross the sphere.
pub fn roots(discriminant: i64, first: i64, second: i64) -> (r: Option<Roots>)
    ensures
        r == crossing(discriminant as int, first, second),
{
    if less(ZERO, discriminant) {
        Some(Roots { first, second })
    } else {
        None
    }
}

/// Whether a ray meets a surface from the side that its outward normal
/// points to: the dot product of the ray's direction with the outward
/// normal, given by its key, is negative.
pub fn front_face(along_normal: i64) -> (front: bool)
    ensures
        front == precedes(along_normal as int, 0),
{
    less(along_normal, ZERO)
}

/// Tests one object against the window from `t_min` to `t_max`, both ends
/// excluded, trying the smaller root first.
pub fn select_root(roots: &Option<Roots>, t_min: i64, t_max: i64) -> (t: Option<i64>)
    ensures
        match t {
            Some(v) => accepted(*roots, t_min as int, t_max as int) == Some(v as int),
            None => accepted(*roots, t_min as int, t_max as int) is None,
        },
{
    match roots {
        None => None,
        Some(r) => {
            let near: i64 = if r.first <= r.second { r.first } else { r.second };
            let far: i64 = if r.first <= r.second { r.second } else { r.first };
            if t_min < near && near < t_max {
                Some(near)
            } else if t_min < far && far < t_max {
                Some(far)
            } else {
                None
            }
        },
    }
}

/// Scans a scene in order and returns its closest hit inside the window from
/// `t_min` to `t_max`. Each object is tested against a window whose upper end
/// is the closest hit found so far, so that of two objects hit at the same
/// parameter the earlier one stays.
pub fn closest_hit(objects: &Vec<Option<Roots>>, t_min: i64, t_max: i64) -> (found: Option<Hit>)
    ensures
        match found {
            Some(h) => is_closest(h, objects@, t_min as int, t_max as int),
            None => all_missed(objects@, t_min as int, t_max as int),
        },
{
    let mut closest_so_far: i64 = t_max;
    let mut found: Option<Hit> = None;
    let mut i: usize = 0;
    while i < objects.len()
        invariant
            i <= objects.len(),
            closest_so_far <= t_max,
            match found {
                Some(h) => h.t == closest_so_far && is_closest(
                    h,
                    objects@.take(i as int),
                    t_min as int,
                    t_max as int,
                ),
                None => closest_so_far == t_max && all_missed(
                    objects@.take(i as int),
                    t_min as int,
                    t_max as int,
                ),
            },
        decreases objects.len() - i,
    {
        let ghost seen = objects@.take(i as int);
        let ghost grown = objects@.take(i + 1);
        proof {
            assert(forall|j: int| 0 <= j < i ==> grown[j] == seen[j]);
            assert(grown[i as int] == objects@[i as int]);
        }
        match select_root(&objects[i], t_min, closest_so_far) {
            Some(t) => {
                closest_so_far = t;
                found = Some(Hit { index: i, t });
            },
            None => {},
        }
        i = i + 1;
    }
    proof {
        assert(objects@.take(i as int) =~= objects@);
    }
    found
}

/// An object that the ray's line does not cross is hit inside no window, and
/// a scene of such objects has no closest hit: no window admits a `Hit`.
pub proof fn lemma_miss_is_never_hit(objects: Seq<Option<Roots>>, t_min: int, t_max: int)
    requires
        forall|j: int| 0 <= j < objects.len() ==> objects[j] is None,
    ensures
        accepted(None, t_min, t_max) is None,
        all_missed(objects, t_min, t_max),
        forall|h: Hit| !is_closest(h, objects, t_min, t_max),
{
}

/// A sphere whose quadratic has no positive discriminant is hit inside no
/// window, whatever its two solutions were computed to be.
pub proof fn lemma_no_crossing_is_never_hit(
    discriminant: int,
    first: i64,
    second: i64,
    t_min: int,
    t_max: int,
)
    requires
        !precedes(0, discriminant),
    ensures
        accepted(crossing(discriminant, first, second), t_min, t_max) is None,
{
}

/// A tighter window never moves a hit: lowering the upper end of the window
/// to `bound` keeps the hits that lie before `bound`, drops the others, and
/// finds none that the wider window did not have. The scan of a scene rests
/// on this when it tests each object against the closest hit so far.
pub proof fn lemma_tighter_window(roots: Option<Roots>, t_min: int, t_max: int, bound: int)
    requires
        bound <= t_max,
    ensures
        accepted(roots, t_min, bound) == match accepted(roots, t_min, t_max) {
            Some(t) => if t < bound {
                Some(t)
            } else {
                None
            },
            None => None,
        },
{
}

/// A scene that is missed in one order is missed in every order.
pub proof fn lemma_missed_in_any_order(
    scene: Seq<Option<Roots>>,
    shuffled: Seq<Option<Roots>>,
    t_min: int,
    t_max: int,
)
    requires
        scene.to_multiset() == shuffled.to_multiset(),
        all_missed(scene, t_min, t_max),
    ensures
        all_missed(shuffled, t_min, t_max),
{
    scene.to_multiset_ensures();
    shuffled.to_multiset_ensures();
    assert forall|j: int| 0 <= j < shuffled.len() implies (#[trigger] accepted(
        shuffled[j],
        t_min,
        t_max,
    )) is None by {
        let object = shuffled[j];
        assert(shuffled.contains(object));
        assert(shuffled.to_multiset().count(object) > 0);
        assert(scene.contains(object));
        let i = choose|i: int| 0 <= i < scene.len() && scene[i] == object;
        assert(accepted(scene[i], t_min, t_max) is None);
    }
}

/// The closest hit of a scene is unique: the order of the scan fixes which of
/// two equally near objects is reported.
pub proof fn lemma_closest_is_unique(
    a: Hit,
    b: Hit,
    objects: Seq<Option<Roots>>,
    t_min: int,
    t_max: int,
)
    requires
        is_closest(a, objects, t_min, t_max),
        is_closest(b, objects, t_min, t_max),
    ensures
        a == b,
{
    let ta = accepted(objects[a.index as int], t_min, t_max);
    let tb = accepted(objects[b.index as int], t_min, t_max);
    assert(ta == Some(a.t as int) && tb == Some(b.t as int));
}

/// Where an object is hit does not depend on the objects around it, so the
/// parameter of the closest hit is the same for every order of the scene:
/// it is the least parameter at which any object is hit.
pub proof fn lemma_closest_is_least(
    h: Hit,
    objects: Seq<Option<Roots>>,
    t_min: int,
    t_max: int,
    j: int,
)
    requires
        is_closest(h, objects, t_min, t_max),
        0 <= j < objects.len(),
    ensures
        within(h.t as int, t_min, t_max),
        match accepted(objects[j], t_min, t_max) {
            Some(t) => h.t <= t,
            None => true,
        },
{
    let th = accepted(objects[h.index as int], t_min, t_max);
    let tj = accepted(objects[j], t_min, t_max);
}

/// The order of a scene does not change where its closest hit lies: two
/// scenes of the same objects, in any order, are hit at the same parameter.
pub proof fn lemma_order_does_not_matter(
    a: Hit,
    scene: Seq<Option<Roots>>,
    b: Hit,
    shuffled: Seq<Option<Roots>>,
    t_min: int,
    t_max: int,
)
    requires
        scene.to_multiset() == shuffled.to_multiset(),
        is_closest(a, scene, t_min, t_max),
        is_closest(b, shuffled, t_min, t_max),
    ensures
        a.t == b.t,
{
    scene.to_multiset_ensures();
    shuffled.to_multiset_ensures();
    let hit_a = scene[a.index as int];
    let hit_b = shuffled[b.index as int];
    assert(scene.contains(hit_a));
    assert(shuffled.contains(hit_b));
    assert(scene.to_multiset().count(hit_a) > 0);
    assert(shuffled.to_multiset().count(hit_b) > 0);
    assert(shuffled.contains(hit_a));
    assert(scene.contains(hit_b));
    let i = choose|i: int| 0 <= i < shuffled.len() && shuffled[i] == hit_a;
    let j = choose|j: int| 0 <= j < scene.len() && scene[j] == hit_b;
    let at_i = accepted(shuffled[i], t_min, t_max);
    let at_j = accepted(scene[j], t_min, t_max);
    assert(at_i == Some(a.t as int));
    assert(at_j == Some(b.t as int));
}

} // verus!
