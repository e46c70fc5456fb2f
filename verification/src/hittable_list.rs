//! A collection of objects that is itself an object: a ray strikes it where it
//! first strikes one of its members.

use vstd::prelude::*;
use std::rc::Rc;
use crate::aabb::aabb;
use crate::hittable::hit_record;
use crate::hittable::Hittable;
use crate::interval::Interval;
use crate::ray::Ray;
use crate::scalar::Scalar;

verus! {

/// The objects of a scene, in the order in which they were added.
pub struct HittableList {
    pub objects: Vec<Rc<dyn Hittable>>,
}

/// The nearer of two hits. Where both lie at the same distance, the first.
pub open spec fn nearer(first: Option<hit_record>, second: Option<hit_record>) -> Option<
    hit_record,
> {
    match (first, second) {
        (Some(a), Some(b)) => if b.t@ < a.t@ {
            second
        } else {
            first
        },
        (None, _) => second,
        (_, None) => first,
    }
}

/// The nearest hit beyond `after` among the first `n` objects. Among hits at
/// the same distance, that of the object that was added first.
pub open spec fn nearest_upto(
    objects: Seq<Rc<dyn Hittable>>,
    r: Ray,
    after: Scalar,
    n: nat,
) -> Option<hit_record>
    decreases n,
{
    if n == 0 {
        None
    } else {
        nearer(
            nearest_upto(objects, r, after, (n - 1) as nat),
            objects[n - 1].nearest(r, after),
        )
    }
}

/// The smallest box around the boxes of the first `n` objects.
pub open spec fn bounds_upto(objects: Seq<Rc<dyn Hittable>>, n: nat) -> aabb
    decreases n,
{
    if n == 0 {
        aabb::empty()
    } else {
        bounds_upto(objects, (n - 1) as nat).enclose(objects[n - 1].bounds())
    }
}

/// Appends to a vector.
fn store<T>(item: T, into: &mut Vec<T>)
    ensures
        final(into)@ == old(into)@.push(item),
{
    into.push(item);
}

impl HittableList {
    /// The collection without objects.
    pub fn new() -> (list: Self)
        ensures
            list.objects@.len() == 0,
    {
        Self { objects: Vec::new() }
    }

    /// Removes every object.
    pub fn clear(&mut self)
        ensures
            final(self).objects@.len() == 0,
    {
        self.objects.clear();
    }

    /// Adds an object behind those that are there.
    pub fn add(&mut self, object: Rc<dyn Hittable>)
        ensures
            final(self).objects@.len() == old(self).objects@.len() + 1,
            final(self).objects@.drop_last() == old(self).objects@,
            final(self).objects@.last() == object,
    {
        store(object, &mut self.objects);
        assert(self.objects@.drop_last() =~= old(self).objects@);
    }
}

impl Hittable for HittableList {
    open spec fn nearest(&self, r: Ray, after: Scalar) -> Option<hit_record> {
        nearest_upto(self.objects@, r, after, self.objects@.len())
    }

    /// Tests the ray against every member, each within the distance of the
    /// nearest hit so far. Leaves `rec` as it was where nothing is struck.
    fn hit(&self, r: &Ray, ray_t: Interval, rec: &mut hit_record) -> (found: bool)
        ensures
            !found ==> *final(rec) == *old(rec),
            self.objects@.len() == 0 ==> !found,
    {
        let mut temp_rec = hit_record::empty();
        let mut hit_anything = false;
        let mut closest_so_far = ray_t.max;
        let mut i: usize = 0;
        while i < self.objects.len()
            invariant
                i <= self.objects.len(),
                hit_anything <==> (nearest_upto(self.objects@, *r, ray_t.min, i as nat) matches Some(
                    h,
                ) && h.t@ < ray_t.max@),
                hit_anything ==> nearest_upto(self.objects@, *r, ray_t.min, i as nat) == Some(*rec)
                    && closest_so_far == rec.t && ray_t.surrounds(rec.t),
                !hit_anything ==> closest_so_far == ray_t.max && *rec == *old(rec),
            decreases self.objects.len() - i,
        {
            if self.objects[i].hit(r, Interval::new(ray_t.min, closest_so_far), &mut temp_rec) {
                hit_anything = true;
                closest_so_far = temp_rec.t;
                *rec = temp_rec;
                temp_rec = hit_record::empty();
            }
            i += 1;
        }
        hit_anything
    }

    open spec fn bounds(&self) -> aabb {
        bounds_upto(self.objects@, self.objects@.len())
    }

    fn bounding_box(&self) -> (b: aabb) {
        let mut b = aabb::empty();
        let mut i: usize = 0;
        while i < self.objects.len()
            invariant
                i <= self.objects.len(),
                b == bounds_upto(self.objects@, i as nat),
            decreases self.objects.len() - i,
        {
            b = b.enclose(self.objects[i].bounding_box());
            i += 1;
        }
        b
    }
}

/// A ray strikes nothing in a collection without objects.
pub proof fn lemma_empty_list_never_hit(list: HittableList, r: Ray, after: Scalar)
    requires
        list.objects@.len() == 0,
    ensures
        list.nearest(r, after) is None,
{
}

/// The hit that a collection reports is the closest one: it is the hit of one
/// of its members, no member is struck nearer, and every member that was added
/// before that one is struck farther away or not at all. The collection
/// reports no hit exactly when no member is struck.
pub proof fn lemma_nearest_is_closest(
    objects: Seq<Rc<dyn Hittable>>,
    r: Ray,
    after: Scalar,
    n: nat,
)
    requires
        n <= objects.len(),
    ensures
        nearest_upto(objects, r, after, n) is None <==> forall|j: int|
            0 <= j < n ==> (#[trigger] objects[j]).nearest(r, after) is None,
        nearest_upto(objects, r, after, n) matches Some(h) ==> exists|k: int|
            {
                &&& 0 <= k < n
                &&& (#[trigger] objects[k]).nearest(r, after) == Some(h)
                &&& forall|j: int|
                    0 <= j < n ==> ((#[trigger] objects[j]).nearest(r, after) matches Some(o)
                        ==> h.t@ <= o.t@ && (j < k ==> h.t@ < o.t@))
            },
    decreases n,
{
    if n > 0 {
        let m = (n - 1) as nat;
        lemma_nearest_is_closest(objects, r, after, m);
        let before = nearest_upto(objects, r, after, m);
        let last = objects[n - 1].nearest(r, after);
        match (before, last) {
            (Some(a), Some(b)) => {
                if b.t@ < a.t@ {
                    assert(forall|j: int|
                        0 <= j < n ==> ((#[trigger] objects[j]).nearest(r, after) matches Some(o)
                            ==> b.t@ <= o.t@ && (j < n - 1 ==> b.t@ < o.t@)));
                } else {
                    let k = choose|k: int|
                        {
                            &&& 0 <= k < m
                            &&& (#[trigger] objects[k]).nearest(r, after) == Some(a)
                            &&& forall|j: int|
                                0 <= j < m ==> ((#[trigger] objects[j]).nearest(r, after) matches Some(
                                    o,
                                ) ==> a.t@ <= o.t@ && (j < k ==> a.t@ < o.t@))
                        };
                    assert(forall|j: int|
                        0 <= j < n ==> ((#[trigger] objects[j]).nearest(r, after) matches Some(o)
                            ==> a.t@ <= o.t@ && (j < k ==> a.t@ < o.t@)));
                }
            },
            (None, Some(b)) => {
                assert(forall|j: int|
                    0 <= j < n ==> ((#[trigger] objects[j]).nearest(r, after) matches Some(o)
                        ==> b.t@ <= o.t@ && (j < n - 1 ==> b.t@ < o.t@)));
            },
            (Some(a), None) => {
                let k = choose|k: int|
                    {
                        &&& 0 <= k < m
                        &&& (#[trigger] objects[k]).nearest(r, after) == Some(a)
                        &&& forall|j: int|
                            0 <= j < m ==> ((#[trigger] objects[j]).nearest(r, after) matches Some(
                                o,
                            ) ==> a.t@ <= o.t@ && (j < k ==> a.t@ < o.t@))
                    };
                assert(forall|j: int|
                    0 <= j < n ==> ((#[trigger] objects[j]).nearest(r, after) matches Some(o)
                        ==> a.t@ <= o.t@ && (j < k ==> a.t@ < o.t@)));
            },
            (None, None) => {},
        }
    }
}

/// The box of a collection holds the box of each of its members.
pub proof fn lemma_bounds_cover_members(objects: Seq<Rc<dyn Hittable>>, n: nat, j: int)
    requires
        0 <= j < n <= objects.len(),
    ensures
        bounds_upto(objects, n).covers(objects[j].bounds()),
    decreases n,
{
    if j < n - 1 {
        lemma_bounds_cover_members(objects, (n - 1) as nat, j);
    }
}

} // verus!
