//! Choosing hits along a ray.
//!
//! A ray parameter `t` is held as an order key: the IEEE-754 bit pattern of
//! the double, mapped so that unsigned comparison of keys follows the order of
//! the doubles (negative values below positive ones, `-0.0` just below
//! `+0.0`, positive NaNs above `+inf`, negative NaNs below `-inf`). Every
//! decision here reads only that order.
use vstd::prelude::*;

verus! {

/// The sign bit of a double's bit pattern.
pub const SIGN_BIT: u64 = 0x8000_0000_0000_0000;

/// The order key of the bit pattern `bits`: non-negative doubles get their
/// sign bit set, negative ones have every bit flipped.
pub open spec fn key_of_bits(bits: u64) -> u64 {
    if bits & SIGN_BIT == 0 {
        bits | SIGN_BIT
    } else {
        !bits
    }
}

/// The order key of a ray parameter, from the bit pattern of its double.
pub fn param_key(bits: u64) -> (k: u64)
    ensures
        k == key_of_bits(bits),
{
    if bits & SIGN_BIT == 0 {
        bits | SIGN_BIT
    } else {
        !bits
    }
}

/// Keys order bit patterns as IEEE-754 orders the doubles they encode:
/// non-negative doubles by their bits, negative ones by their bits reversed,
/// and every negative one below every non-negative one.
pub proof fn lemma_key_order(a: u64, b: u64)
    ensures
        a & SIGN_BIT == 0 && b & SIGN_BIT == 0 ==> (key_of_bits(a) < key_of_bits(b) <==> a < b),
        a & SIGN_BIT != 0 && b & SIGN_BIT != 0 ==> (key_of_bits(a) < key_of_bits(b) <==> b < a),
        a & SIGN_BIT != 0 && b & SIGN_BIT == 0 ==> key_of_bits(a) < key_of_bits(b),
{
    assert(a & SIGN_BIT == 0 && b & SIGN_BIT == 0 ==> ((a | SIGN_BIT) < (b | SIGN_BIT) <==> a < b))
        by (bit_vector)
        requires
            SIGN_BIT == 0x8000_0000_0000_0000u64,
    ;
    assert(a & SIGN_BIT != 0 && b & SIGN_BIT != 0 ==> (!a < !b <==> b < a)) by (bit_vector);
    assert(a & SIGN_BIT != 0 && b & SIGN_BIT == 0 ==> !a < (b | SIGN_BIT)) by (bit_vector)
        requires
            SIGN_BIT == 0x8000_0000_0000_0000u64,
    ;
}

/// The bit pattern of the double whose order key is `key`.
pub fn param_bits(key: u64) -> (bits: u64)
    ensures
        key_of_bits(bits) == key,
{
    if key & SIGN_BIT != 0 {
        let b = key & !SIGN_BIT;
        assert(b & SIGN_BIT == 0 && b | SIGN_BIT == key) by (bit_vector)
            requires
                key & SIGN_BIT != 0,
                b == key & !SIGN_BIT,
                SIGN_BIT == 0x8000_0000_0000_0000u64,
        ;
        b
    } else {
        let b = !key;
        assert(b & SIGN_BIT != 0 && !b == key) by (bit_vector)
            requires
                key & SIGN_BIT == 0,
                b == !key,
                SIGN_BIT == 0x8000_0000_0000_0000u64,
        ;
        b
    }
}

/// The two real roots of a primitive's intersection equation along a ray,
/// as order keys, nearest first.
#[derive(Clone, Copy, Debug, PartialEq, Eq)]
pub struct Roots {
    pub near: u64,
    pub far: u64,
}

impl Roots {
    /// The roots are ordered.
    pub open spec fn wf(self) -> bool {
        self.near <= self.far
    }

    /// The roots `a` and `b` of an equation, in either order.
    pub fn from_pair(a: u64, b: u64) -> (r: Roots)
        ensures
            r.wf(),
            (r.near == a && r.far == b) || (r.near == b && r.far == a),
    {
        if a <= b {
            Roots { near: a, far: b }
        } else {
            Roots { near: b, far: a }
        }
    }
}

/// `t` lies in the half-open interval `(t_min, t_max]` of valid hits.
pub open spec fn in_range(t: u64, t_min: u64, t_max: u64) -> bool {
    t_min < t <= t_max
}

/// The hit that a primitive with these roots reports on `(t_min, t_max]`:
/// the smaller root that lies in the interval, if any.
pub open spec fn root_hit(roots: Option<Roots>, t_min: u64, t_max: u64) -> Option<u64> {
    match roots {
        None => None,
        Some(r) => if in_range(r.near, t_min, t_max) {
            Some(r.near)
        } else if in_range(r.far, t_min, t_max) {
            Some(r.far)
        } else {
            None
        },
    }
}

/// The hit of one primitive on `(t_min, t_max]`; `roots` is `None` where its
/// equation has no real root.
pub fn nearest_root(roots: Option<Roots>, t_min: u64, t_max: u64) -> (r: Option<u64>)
    ensures
        r == root_hit(roots, t_min, t_max),
        r matches Some(t) ==> in_range(t, t_min, t_max),
{
    match roots {
        None => None,
        Some(rs) => {
            if t_min < rs.near && rs.near <= t_max {
                Some(rs.near)
            } else if t_min < rs.far && rs.far <= t_max {
                Some(rs.far)
            } else {
                None
            }
        },
    }
}

/// Narrowing the interval's upper end keeps a primitive's hit if it is still
/// inside and drops it otherwise.
pub proof fn lemma_narrowed_hit(roots: Option<Roots>, t_min: u64, t_max: u64, bound: u64)
    requires
        roots matches Some(r) ==> r.wf(),
        bound <= t_max,
    ensures
        root_hit(roots, t_min, bound) == (match root_hit(roots, t_min, t_max) {
            Some(t) => if t <= bound {
                Some(t)
            } else {
                None
            },
            None => None,
        }),
{
}

/// The hit that the scene reports: the primitive hit and its parameter.
#[derive(Clone, Copy, Debug, PartialEq, Eq)]
pub struct SceneHit {
    pub index: usize,
    pub t: u64,
}

/// Every primitive's roots are ordered.
pub open spec fn all_wf(candidates: Seq<Option<Roots>>) -> bool {
    forall|i: int| 0 <= i < candidates.len() ==> (#[trigger] candidates[i] matches Some(r) ==> r.wf())
}

/// `h` is the closest hit among `candidates` on `(t_min, t_max]`: a primitive's
/// own hit, no other hit is nearer, and none after it is as near.
pub open spec fn is_closest(candidates: Seq<Option<Roots>>, t_min: u64, t_max: u64, h: SceneHit) -> bool {
    &&& h.index < candidates.len()
    &&& root_hit(candidates[h.index as int], t_min, t_max) == Some(h.t)
    &&& forall|i: int|
        0 <= i < candidates.len() ==> (#[trigger] root_hit(candidates[i], t_min, t_max) matches Some(t)
            ==> (h.t <= t && (i > h.index ==> h.t < t)))
}

/// The closest hit of the scene on `(t_min, t_max]`, given each primitive's
/// roots in scene order. Each primitive is asked only for hits up to the
/// closest one found so far.
pub fn closest_hit(candidates: &Vec<Option<Roots>>, t_min: u64, t_max: u64) -> (r: Option<SceneHit>)
    requires
        all_wf(candidates@),
    ensures
        r is None <==> forall|i: int|
            0 <= i < candidates@.len() ==> #[trigger] root_hit(candidates@[i], t_min, t_max) is None,
        r matches Some(h) ==> is_closest(candidates@, t_min, t_max, h) && in_range(
            h.t,
            t_min,
            t_max,
        ),
{
    let mut best: Option<SceneHit> = None;
    let mut i: usize = 0;
    while i < candidates.len()
        invariant
            i <= candidates@.len(),
            all_wf(candidates@),
            best is None ==> forall|j: int|
                0 <= j < i ==> #[trigger] root_hit(candidates@[j], t_min, t_max) is None,
            best matches Some(h) ==> is_closest(candidates@.take(i as int), t_min, t_max, h),
        decreases candidates@.len() - i,
    {
        let bound = match best {
            Some(h) => h.t,
            None => t_max,
        };
        proof {
            lemma_narrowed_hit(candidates@[i as int], t_min, t_max, bound);
        }
        match nearest_root(candidates[i], t_min, bound) {
            Some(t) => {
                best = Some(SceneHit { index: i, t });
            },
            None => {},
        }
        i = i + 1;
    }
    assert(candidates@.take(i as int) =~= candidates@);
    best
}

/// The scene's closest hit is fixed by the primitives' own hits: two hits
/// that are both closest are the same.
pub proof fn lemma_closest_unique(
    candidates: Seq<Option<Roots>>,
    t_min: u64,
    t_max: u64,
    h1: SceneHit,
    h2: SceneHit,
)
    requires
        is_closest(candidates, t_min, t_max, h1),
        is_closest(candidates, t_min, t_max, h2),
    ensures
        h1 == h2,
{
    assert(root_hit(candidates[h1.index as int], t_min, t_max) == Some(h1.t));
    assert(root_hit(candidates[h2.index as int], t_min, t_max) == Some(h2.t));
}

} // verus!
