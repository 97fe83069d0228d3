//! Nearest-hit resolution over the surfaces of a scene.
//!
//! A scene is scanned in a fixed order, spheres first and planes after them.
//! Each surface either is missed by the ray or yields a record. The nearest
//! record wins; among records at the same distance the one scanned first wins.

use vstd::prelude::*;
use crate::obj::HitRecord;

verus! {

/// A surface of the scene, by its position in the list of its kind.
#[derive(Clone, Copy, Debug, PartialEq, Eq, Structural)]
pub enum Surface {
    /// The sphere at this index of the scene's spheres.
    Sphere(usize),
    /// The plane at this index of the scene's planes.
    Plane(usize),
}

impl Surface {
    /// Position of the surface in the scan order of a scene with `spheres`
    /// spheres.
    pub open spec fn position(self, spheres: int) -> int {
        match self {
            Surface::Sphere(i) => i as int,
            Surface::Plane(j) => spheres + j,
        }
    }
}

/// `best` is the position of the winning record among the first `n` entries
/// of `s`: no position exactly when every entry is a miss, and otherwise the
/// first position that holds a record of least distance.
pub open spec fn is_nearest_upto(s: Seq<Option<HitRecord>>, n: int, best: Option<int>) -> bool {
    match best {
        None => forall|j: int| 0 <= j < n ==> (#[trigger] s[j]) is None,
        Some(i) => {
            &&& 0 <= i < n
            &&& s[i] is Some
            &&& forall|j: int|
                0 <= j < n && (#[trigger] s[j]) is Some ==> s[i].unwrap().t <= s[j].unwrap().t
            &&& forall|j: int|
                0 <= j < i && (#[trigger] s[j]) is Some ==> s[i].unwrap().t < s[j].unwrap().t
        },
    }
}

/// `best` is the position of the winning record in the whole of `s`.
pub open spec fn is_nearest(s: Seq<Option<HitRecord>>, best: Option<int>) -> bool {
    is_nearest_upto(s, s.len() as int, best)
}

/// The entry of `s` at an optional position.
pub open spec fn record_at(s: Seq<Option<HitRecord>>, best: Option<int>) -> Option<HitRecord> {
    match best {
        Some(i) => s[i],
        None => None,
    }
}

/// The scan position of an optional surface in a scene with `spheres`
/// spheres.
pub open spec fn scan_position(found: Option<Surface>, spheres: int) -> Option<int> {
    match found {
        Some(surface) => Some(surface.position(spheres)),
        None => None,
    }
}

/// An optional index as an optional mathematical integer.
pub open spec fn as_position(best: Option<usize>) -> Option<int> {
    match best {
        Some(i) => Some(i as int),
        None => None,
    }
}

/// The nearer of two optional records; on equal distance the first stays.
pub open spec fn take_min_spec(acc: Option<HitRecord>, next: Option<HitRecord>) -> Option<
    HitRecord,
> {
    match (acc, next) {
        (Some(a), Some(b)) => if b.t < a.t {
            Some(b)
        } else {
            Some(a)
        },
        (Some(a), None) => Some(a),
        (None, Some(b)) => Some(b),
        (None, None) => None,
    }
}

/// Keeps the nearer of the record held so far and the next one. The next
/// record replaces the held one only when it is strictly nearer.
pub fn take_min(acc: Option<HitRecord>, next: Option<HitRecord>) -> (kept: Option<HitRecord>)
    ensures
        kept == take_min_spec(acc, next),
{
    match (acc, next) {
        (Some(a), Some(b)) => if b.t < a.t {
            Some(b)
        } else {
            Some(a)
        },
        (Some(a), None) => Some(a),
        (None, Some(b)) => Some(b),
        (None, None) => None,
    }
}

/// Finds the winning record in one list of outcomes, by its index.
pub fn nearest(hits: &Vec<Option<HitRecord>>) -> (best: Option<usize>)
    ensures
        is_nearest(hits@, as_position(best)),
{
    let mut best: Option<usize> = None;
    let mut best_t: i64 = 0;
    let mut k: usize = 0;
    while k < hits.len()
        invariant
            k <= hits.len(),
            is_nearest_upto(hits@, k as int, as_position(best)),
            best matches Some(i) ==> hits@[i as int].unwrap().t == best_t,
        decreases hits.len() - k,
    {
        match hits[k] {
            Some(h) => {
                if best.is_none() || h.t < best_t {
                    best = Some(k);
                    best_t = h.t;
                }
            },
            None => {},
        }
        k = k + 1;
    }
    best
}

/// Resolves the nearest hit of a scene from the outcomes of its spheres and
/// of its planes, each list in the scene's order. The result names the
/// surface that wins over the spheres followed by the planes.
pub fn hit(spheres: &Vec<Option<HitRecord>>, planes: &Vec<Option<HitRecord>>) -> (found: Option<
    Surface,
>)
    ensures
        is_nearest(spheres@ + planes@, scan_position(found, spheres@.len() as int)),
        found matches Some(Surface::Sphere(i)) ==> i < spheres@.len(),
        found matches Some(Surface::Plane(j)) ==> j < planes@.len(),
{
    let among_spheres = nearest(spheres);
    let among_planes = nearest(planes);
    match (among_spheres, among_planes) {
        (Some(i), Some(j)) => {
            let a = spheres[i].unwrap();
            let b = planes[j].unwrap();
            if b.t < a.t {
                Some(Surface::Plane(j))
            } else {
                Some(Surface::Sphere(i))
            }
        },
        (Some(i), None) => Some(Surface::Sphere(i)),
        (None, Some(j)) => Some(Surface::Plane(j)),
        (None, None) => None,
    }
}

/// The record that is left after `take_min` has been applied along `s`, from
/// the first entry to the last, starting with `acc`.
pub open spec fn fold_from(acc: Option<HitRecord>, s: Seq<Option<HitRecord>>) -> Option<HitRecord>
    decreases s.len(),
{
    if s.len() == 0 {
        acc
    } else {
        take_min_spec(fold_from(acc, s.drop_last()), s.last())
    }
}

/// The record that is left after a scan of `s` that starts with no record.
pub open spec fn fold_min(s: Seq<Option<HitRecord>>) -> Option<HitRecord> {
    fold_from(None, s)
}

/// A list of outcomes has at most one winning position: resolving the same
/// outcomes twice gives the same answer.
pub proof fn lemma_nearest_unique(s: Seq<Option<HitRecord>>, a: Option<int>, b: Option<int>)
    requires
        is_nearest(s, a),
        is_nearest(s, b),
    ensures
        a == b,
{
    if let Some(i) = a {
        assert(s[i] is Some);
    }
    if let Some(j) = b {
        assert(s[j] is Some);
    }
}

/// Every list of outcomes has a winning position, and folding `take_min`
/// along the list leaves the record at that position.
proof fn lemma_fold_min_position(s: Seq<Option<HitRecord>>) -> (best: Option<int>)
    ensures
        is_nearest(s, best),
        fold_min(s) == record_at(s, best),
    decreases s.len(),
{
    if s.len() == 0 {
        None
    } else {
        let front = s.drop_last();
        let last = s.len() - 1;
        let before = lemma_fold_min_position(front);
        assert forall|j: int| 0 <= j < last implies front[j] == s[j] by {}
        let best = match (before, s.last()) {
            (Some(i), Some(b)) => if b.t < s[i].unwrap().t {
                Some(last)
            } else {
                Some(i)
            },
            (Some(i), None) => Some(i),
            (None, Some(_)) => Some(last),
            (None, None) => None,
        };
        best
    }
}

/// Folding `take_min` along a list of outcomes leaves the record at the
/// list's winning position, and nothing where the list has none.
pub proof fn lemma_fold_min_is_nearest(s: Seq<Option<HitRecord>>, best: Option<int>)
    requires
        is_nearest(s, best),
    ensures
        fold_min(s) == record_at(s, best),
{
    let found = lemma_fold_min_position(s);
    lemma_nearest_unique(s, found, best);
}

/// Scanning the spheres and then going on through the planes with what the
/// spheres left is one scan of both lists in that order.
pub proof fn lemma_fold_min_append(a: Seq<Option<HitRecord>>, b: Seq<Option<HitRecord>>)
    ensures
        fold_min(a + b) == fold_from(fold_min(a), b),
    decreases b.len(),
{
    if b.len() == 0 {
        assert(a + b =~= a);
    } else {
        assert((a + b).drop_last() =~= a + b.drop_last());
        assert((a + b).last() == b.last());
        lemma_fold_min_append(a, b.drop_last());
    }
}

} // verus!
