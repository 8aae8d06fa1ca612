//! Which intersection a ray meets first.
//!
//! A position along a ray is carried as an `i64` key. Keys are ordered as the
//! positions are: a greater key lies further along the ray, and equal keys
//! are the same position. Nothing here does arithmetic on a key; keys are
//! only compared.
//!
//! Where a position is a double-precision number, `key_of_bits` makes its key
//! from the number's bit pattern.

use vstd::prelude::*;

verus! {

/// The key that stands for the sign-and-magnitude bit pattern `bits`, whose
/// top bit is the sign and whose other 63 bits are the magnitude. Without
/// the sign bit the key is the magnitude; with it, the key is below zero and
/// falls as the magnitude grows.
pub open spec fn key_spec(bits: u64) -> int {
    if bits < 0x8000_0000_0000_0000 {
        bits as int
    } else {
        -1 - (bits - 0x8000_0000_0000_0000)
    }
}

/// The key of a bit pattern, as an `i64`.
pub fn key_of_bits(bits: u64) -> (k: i64)
    ensures
        k == key_spec(bits),
{
    if bits < 0x8000_0000_0000_0000 {
        bits as i64
    } else {
        let magnitude: u64 = bits - 0x8000_0000_0000_0000;
        -1 - (magnitude as i64)
    }
}

/// Keys are ordered as signed magnitudes are: among patterns without the
/// sign bit the greater magnitude has the greater key, among patterns with
/// it the greater magnitude has the smaller key, every pattern with the sign
/// bit lies below every pattern without, and no two patterns share a key.
pub proof fn lemma_key_order(a: u64, b: u64)
    ensures
        a < 0x8000_0000_0000_0000 && b < 0x8000_0000_0000_0000 ==> (key_spec(a) < key_spec(b) <==> a
            < b),
        a >= 0x8000_0000_0000_0000 && b >= 0x8000_0000_0000_0000 ==> (key_spec(a) < key_spec(b)
            <==> a > b),
        a >= 0x8000_0000_0000_0000 && b < 0x8000_0000_0000_0000 ==> key_spec(a) < key_spec(b),
        key_spec(a) == key_spec(b) <==> a == b,
{
}

/// The two positions at which the line of a ray crosses a sphere, the nearer
/// one first. Both are the same position where the line only touches.
#[derive(Clone, Copy, Debug)]
pub struct Roots {
    near: i64,
    far: i64,
}

/// The intersection chosen for a ray: the place of the sphere in the scene
/// and the position along the ray.
#[derive(Clone, Copy, Debug, PartialEq, Eq, Structural)]
pub struct Hit {
    pub sphere: usize,
    pub t: i64,
}

impl Roots {
    #[verifier::type_invariant]
    spec fn ordered(self) -> bool {
        self.near <= self.far
    }

    /// The nearer of the two positions.
    pub closed spec fn near(self) -> i64 {
        self.near
    }

    /// The farther of the two positions.
    pub closed spec fn far(self) -> i64 {
        self.far
    }

    /// The nearer position is never beyond the farther one. This holds of
    /// every value that `new` has made.
    pub open spec fn wf(self) -> bool {
        self.near() <= self.far()
    }

    /// Takes the two positions in either order.
    pub fn new(a: i64, b: i64) -> (r: Roots)
        ensures
            r.wf(),
            r.near() == if a <= b { a } else { b },
            r.far() == if a <= b { b } else { a },
    {
        if a <= b {
            Roots { near: a, far: b }
        } else {
            Roots { near: b, far: a }
        }
    }

    /// The nearer position.
    pub fn nearer(&self) -> (t: i64)
        ensures
            t == self.near(),
    {
        self.near
    }

    /// The farther position.
    pub fn farther(&self) -> (t: i64)
        ensures
            t == self.far(),
    {
        self.far
    }
}

/// Whether `t` lies strictly between `t_min` and `t_max`.
pub open spec fn inside(t: i64, t_min: i64, t_max: i64) -> bool {
    t_min < t && t < t_max
}

/// The position at which a sphere is hit within the open interval from
/// `t_min` to `t_max`: the nearer crossing where it lies inside, else the
/// farther one where that lies inside. `None` for `roots` stands for a
/// negative discriminant, that is, a line that misses the sphere.
pub open spec fn first_inside(roots: Option<Roots>, t_min: i64, t_max: i64) -> Option<i64> {
    match roots {
        None => None,
        Some(r) => if inside(r.near(), t_min, t_max) {
            Some(r.near())
        } else if inside(r.far(), t_min, t_max) {
            Some(r.far())
        } else {
            None
        },
    }
}

/// Tests one sphere: tries the nearer crossing first and the farther one
/// only where the nearer lies outside the interval. There is no hit exactly
/// where the discriminant is negative or both crossings lie outside.
pub fn hit(roots: &Option<Roots>, t_min: i64, t_max: i64) -> (r: Option<i64>)
    ensures
        r == first_inside(*roots, t_min, t_max),
        r is None <==> (roots is None || (!inside(roots->0.near(), t_min, t_max) && !inside(
            roots->0.far(),
            t_min,
            t_max,
        ))),
        r matches Some(t) ==> inside(t, t_min, t_max),
{
    match roots {
        None => None,
        Some(both) => {
            let near: i64 = both.nearer();
            if t_min < near && near < t_max {
                return Some(near);
            }
            let far: i64 = both.farther();
            if t_min < far && far < t_max {
                return Some(far);
            }
            None
        },
    }
}

/// `found` is the nearest hit in `world`: it is a hit of the sphere it
/// names, no sphere is hit nearer, and no sphere before it in `world` is hit
/// at the same position.
pub open spec fn is_nearest(world: Seq<Option<Roots>>, t_min: i64, t_max: i64, found: Hit) -> bool {
    &&& found.sphere < world.len()
    &&& first_inside(world[found.sphere as int], t_min, t_max) == Some(found.t)
    &&& forall|j: int|
        0 <= j < world.len() ==> match #[trigger] first_inside(world[j], t_min, t_max) {
            Some(t) => found.t <= t && (j < found.sphere ==> found.t < t),
            None => true,
        }
}

/// No sphere of `world` is hit inside the interval.
pub open spec fn all_miss(world: Seq<Option<Roots>>, t_min: i64, t_max: i64) -> bool {
    forall|j: int| 0 <= j < world.len() ==> #[trigger] first_inside(world[j], t_min, t_max) is None
}

/// Narrowing the interval from above changes nothing but to drop a hit that
/// no longer lies inside.
pub proof fn lemma_narrowed(roots: Option<Roots>, t_min: i64, bound: i64, t_max: i64)
    requires
        bound <= t_max,
        roots matches Some(r) ==> r.wf(),
    ensures
        first_inside(roots, t_min, bound) == match first_inside(roots, t_min, t_max) {
            Some(t) => if t < bound {
                Some(t)
            } else {
                None
            },
            None => None,
        },
{
}

/// The position of the nearest hit does not depend on the order of the
/// spheres, nor on how often one of them is listed: two scenes that hold the
/// same spheres have their nearest hit at the same position.
pub proof fn lemma_order_irrelevant(
    a: Seq<Option<Roots>>,
    b: Seq<Option<Roots>>,
    t_min: i64,
    t_max: i64,
    in_a: Hit,
    in_b: Hit,
)
    requires
        forall|s: Option<Roots>| a.contains(s) <==> b.contains(s),
        is_nearest(a, t_min, t_max, in_a),
        is_nearest(b, t_min, t_max, in_b),
    ensures
        in_a.t == in_b.t,
{
    let sa = a[in_a.sphere as int];
    let sb = b[in_b.sphere as int];
    assert(a.contains(sa));
    assert(b.contains(sb));
    let ja = choose|j: int| 0 <= j < b.len() && b[j] == sa;
    let jb = choose|j: int| 0 <= j < a.len() && a[j] == sb;
    assert(first_inside(b[ja], t_min, t_max) == Some(in_a.t));
    assert(first_inside(a[jb], t_min, t_max) == Some(in_b.t));
}

/// Whether any sphere is hit does not depend on their order either.
pub proof fn lemma_miss_in_any_order(
    a: Seq<Option<Roots>>,
    b: Seq<Option<Roots>>,
    t_min: i64,
    t_max: i64,
)
    requires
        forall|s: Option<Roots>| a.contains(s) <==> b.contains(s),
        all_miss(a, t_min, t_max),
    ensures
        all_miss(b, t_min, t_max),
{
    assert forall|j: int| 0 <= j < b.len() implies #[trigger] first_inside(
        b[j],
        t_min,
        t_max,
    ) is None by {
        assert(b.contains(b[j]));
        let i = choose|i: int| 0 <= i < a.len() && a[i] == b[j];
        assert(first_inside(a[i], t_min, t_max) is None);
    }
}

/// Finds the nearest hit among all spheres of the scene. Each sphere is
/// tested against an interval whose upper end is the nearest hit found so
/// far, so a later sphere replaces the hit only where it is strictly nearer.
pub fn hit_world(world: &Vec<Option<Roots>>, t_min: i64, t_max: i64) -> (found: Option<Hit>)
    ensures
        match found {
            Some(h) => is_nearest(world@, t_min, t_max, h),
            None => all_miss(world@, t_min, t_max),
        },
{
    let mut closest_so_far: i64 = t_max;
    let mut found: Option<Hit> = None;
    let mut i: usize = 0;
    while i < world.len()
        invariant
            i <= world.len(),
            closest_so_far <= t_max,
            match found {
                Some(h) => h.t == closest_so_far && h.sphere < i && is_nearest(
                    world@.take(i as int),
                    t_min,
                    t_max,
                    h,
                ),
                None => closest_so_far == t_max && all_miss(world@.take(i as int), t_min, t_max),
            },
        decreases world.len() - i,
    {
        let candidate: &Option<Roots> = &world[i];
        proof {
            match candidate {
                Some(r) => {
                    use_type_invariant(r);
                },
                None => {},
            }
            lemma_narrowed(*candidate, t_min, closest_so_far, t_max);
        }
        let ghost before = world@.take(i as int);
        let ghost after = world@.take(i + 1);
        assert(forall|j: int| 0 <= j < i ==> after[j] == before[j]);
        assert(after[i as int] == world@[i as int]);
        if let Some(t) = hit(candidate, t_min, closest_so_far) {
            closest_so_far = t;
            found = Some(Hit { sphere: i, t });
        }
        i += 1;
    }
    assert(world@.take(i as int) =~= world@);
    found
}

} // verus!
