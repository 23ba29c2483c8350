//! The scene: one point light and an ordered list of shapes. A ray is
//! intersected against every shape; hits behind the ray origin are
//! dropped, the rest are sorted by distance (ties keep scene order),
//! and the nearest one is shaded.

use vstd::prelude::*;
use crate::num::{Fx, iabs};
use crate::coords::{Vector, Point, UnitVector, vec_wf, uv_wf, vuwf, vdot, vsub, vnormed, vmag,
    vmsq, lemma_uv_comp_bound, VEC_LIM, MIN_NORM_MSQ};
use crate::color::Color;
use crate::material::{col_wf, lighting_of};
use crate::normal::{Normal, over_point_of};
use crate::light::PointLight;
use crate::ray::{Ray, ray_at, DIST_LIM};
use crate::shape::{Shape, shape_wf, shape_roots, shape_normal, shape_material};

verus! {

/// Bound on a usable hit point: close enough to the working bound to
/// leave room for the shadow bias.
pub const HIT_LIM: i64 = 0xFFF_FFFF_FF00;

/// One intersection: which shape was met, and how far along the ray.
#[derive(Clone, Copy, PartialEq, Eq, Structural, Debug)]
pub struct Intersection {
    pub shape_index: usize,
    pub distance: Fx,
}

pub struct World {
    pub light: PointLight,
    pub shapes: Vec<Shape>,
}

/// Everything a hit carries to the shading step.
pub struct RayHit {
    pub shape_index: usize,
    pub is_shadowed: bool,
    pub point: Point,
    pub eye_direction: UnitVector,
    pub normal: Normal,
}

/// A world the kernel can work with.
pub open spec fn world_wf(w: World) -> bool {
    col_wf(w.light.intensity) && vec_wf(w.light.position.v)
        && forall|i: int| 0 <= i < w.shapes@.len() ==> shape_wf(#[trigger] w.shapes@[i])
}

/// A ray the intersection pipeline accepts.
pub open spec fn ray_ok(ray: Ray) -> bool {
    vec_wf(ray.origin.v) && vec_wf(ray.direction)
}

/// The non-negative roots of one shape, tagged with its index, in the
/// order the shape reports them.
pub open spec fn nonneg_tagged(roots: Seq<Fx>, i: int) -> Seq<Intersection>
    decreases roots.len(),
{
    if roots.len() == 0 {
        Seq::empty()
    } else {
        let rest = nonneg_tagged(roots.subrange(1, roots.len() as int), i);
        if roots[0]@ >= 0 {
            seq![Intersection { shape_index: i as usize, distance: roots[0] }] + rest
        } else {
            rest
        }
    }
}

/// All non-negative intersections of the first n shapes, in scene
/// order.
pub open spec fn all_hits(w: World, ray: Ray, n: int) -> Seq<Intersection>
    decreases n,
{
    if n <= 0 {
        Seq::empty()
    } else {
        all_hits(w, ray, n - 1) + nonneg_tagged(shape_roots(w.shapes@[n - 1], ray), n - 1)
    }
}

/// Insertion after every element that is not strictly farther: a
/// stable insertion.
pub open spec fn insert_sorted(s: Seq<Intersection>, x: Intersection) -> Seq<Intersection>
    decreases s.len(),
{
    if s.len() == 0 {
        seq![x]
    } else if x.distance@ < s[0].distance@ {
        seq![x] + s
    } else {
        seq![s[0]] + insert_sorted(s.subrange(1, s.len() as int), x)
    }
}

/// Stable insertion sort by distance.
pub open spec fn isort(s: Seq<Intersection>) -> Seq<Intersection>
    decreases s.len(),
{
    if s.len() == 0 {
        Seq::empty()
    } else {
        insert_sorted(isort(s.drop_last()), s.last())
    }
}

/// Non-decreasing by distance.
pub open spec fn sorted_by_dist(s: Seq<Intersection>) -> bool {
    forall|i: int, j: int| 0 <= i < j < s.len() ==> s[i].distance@ <= s[j].distance@
}

/// What a ray meets in the world, nearest first.
pub open spec fn world_hits(w: World, ray: Ray) -> Seq<Intersection> {
    if ray_ok(ray) {
        isort(all_hits(w, ray, w.shapes@.len() as int))
    } else {
        Seq::empty()
    }
}

/// A stable insertion into a sorted sequence keeps it sorted, adds
/// exactly the new element, and invents nothing.
pub proof fn lemma_insert_sorted_props(s: Seq<Intersection>, x: Intersection)
    requires
        sorted_by_dist(s),
    ensures
        sorted_by_dist(insert_sorted(s, x)),
        insert_sorted(s, x).to_multiset() == s.to_multiset().insert(x),
        insert_sorted(s, x).len() == s.len() + 1,
        forall|k: int| 0 <= k < insert_sorted(s, x).len()
            ==> insert_sorted(s, x)[k] == x || s.contains(#[trigger] insert_sorted(s, x)[k]),
    decreases s.len(),
{
    s.to_multiset_ensures();
    insert_sorted(s, x).to_multiset_ensures();
    if s.len() == 0 {
        assert(insert_sorted(s, x) =~= seq![x]);
        assert(seq![x].to_multiset() =~= s.to_multiset().insert(x)) by {
            seq![x].to_multiset_ensures();
            assert(seq![x] =~= Seq::empty().push(x));
            Seq::<Intersection>::empty().to_multiset_ensures();
            assert(s =~= Seq::<Intersection>::empty());
        }
    } else if x.distance@ < s[0].distance@ {
        let r = seq![x] + s;
        assert(insert_sorted(s, x) == r);
        assert(r =~= s.insert(0, x));
        vstd::seq_lib::lemma_multiset_commutative(seq![x], s);
        seq![x].to_multiset_ensures();
        assert(seq![x] =~= Seq::empty().push(x));
        Seq::<Intersection>::empty().to_multiset_ensures();
        assert(r.to_multiset() =~= s.to_multiset().insert(x));
        assert forall|k: int| 0 <= k < r.len() implies r[k] == x || s.contains(#[trigger] r[k]) by {
            if k > 0 {
                assert(r[k] == s[k - 1]);
            }
        }
    } else {
        let tail = s.subrange(1, s.len() as int);
        assert(sorted_by_dist(tail));
        lemma_insert_sorted_props(tail, x);
        let rt = insert_sorted(tail, x);
        let r = seq![s[0]] + rt;
        assert(insert_sorted(s, x) == r);
        tail.to_multiset_ensures();
        rt.to_multiset_ensures();
        vstd::seq_lib::lemma_multiset_commutative(seq![s[0]], rt);
        vstd::seq_lib::lemma_multiset_commutative(seq![s[0]], tail);
        assert(s =~= seq![s[0]] + tail);
        seq![s[0]].to_multiset_ensures();
        assert(seq![s[0]] =~= Seq::empty().push(s[0]));
        Seq::<Intersection>::empty().to_multiset_ensures();
        assert(r.to_multiset() =~= s.to_multiset().insert(x)) by {
            assert(r.to_multiset() == seq![s[0]].to_multiset().add(rt.to_multiset()));
            assert(rt.to_multiset() == tail.to_multiset().insert(x));
            assert(s.to_multiset() == seq![s[0]].to_multiset().add(tail.to_multiset()));
            assert(seq![s[0]].to_multiset().add(tail.to_multiset().insert(x))
                =~= seq![s[0]].to_multiset().add(tail.to_multiset()).insert(x));
        }
        // Sortedness: the head is no farther than x and than every tail
        // element, and the recursive result starts at least at the head.
        assert forall|i: int, j: int| 0 <= i < j < r.len()
            implies r[i].distance@ <= r[j].distance@ by {
            if i == 0 {
                assert(r[j] == rt[j - 1]);
                assert(rt[j - 1] == x || tail.contains(rt[j - 1]));
                if rt[j - 1] == x {
                    assert(s[0].distance@ <= x.distance@);
                } else {
                    let w0 = choose|w0: int| 0 <= w0 < tail.len() && tail[w0] == rt[j - 1];
                    assert(s[w0 + 1] == tail[w0]);
                    assert(s[0].distance@ <= s[w0 + 1].distance@);
                }
            } else {
                assert(r[i] == rt[i - 1] && r[j] == rt[j - 1]);
            }
        }
        assert forall|k: int| 0 <= k < r.len() implies r[k] == x || s.contains(#[trigger] r[k]) by {
            if k == 0 {
                assert(s.contains(s[0])) by {
                    assert(s[0] == s[0]);
                }
            } else {
                assert(r[k] == rt[k - 1]);
                if rt[k - 1] != x {
                    let w0 = choose|w0: int| 0 <= w0 < tail.len() && tail[w0] == rt[k - 1];
                    assert(s[w0 + 1] == tail[w0]);
                    assert(s.contains(s[w0 + 1]));
                }
            }
        }
    }
}

/// Insertion sort yields a sorted permutation: no hit is lost,
/// invented, or reordered against its distance.
pub proof fn lemma_isort_props(s: Seq<Intersection>)
    ensures
        sorted_by_dist(isort(s)),
        isort(s).to_multiset() == s.to_multiset(),
        isort(s).len() == s.len(),
        forall|k: int| 0 <= k < isort(s).len() ==> s.contains(#[trigger] isort(s)[k]),
    decreases s.len(),
{
    s.to_multiset_ensures();
    isort(s).to_multiset_ensures();
    if s.len() == 0 {
        assert(isort(s) =~= Seq::empty());
        assert(isort(s).to_multiset() =~= s.to_multiset());
    } else {
        let head = s.drop_last();
        lemma_isort_props(head);
        head.to_multiset_ensures();
        lemma_insert_sorted_props(isort(head), s.last());
        assert(s =~= head.push(s.last()));
        assert(s.to_multiset() == head.to_multiset().insert(s.last()));
        assert forall|k: int| 0 <= k < isort(s).len() implies s.contains(#[trigger] isort(s)[k]) by {
            let e = isort(s)[k];
            assert(e == s.last() || isort(head).contains(e));
            if e == s.last() {
                assert(s[s.len() - 1] == e);
            } else {
                let w0 = choose|w0: int| 0 <= w0 < isort(head).len() && isort(head)[w0] == e;
                assert(head.contains(isort(head)[w0]));
                let w1 = choose|w1: int| 0 <= w1 < head.len() && head[w1] == e;
                assert(s[w1] == e);
            }
        }
    }
}

/// Stable insertion at the first position whose element is strictly
/// farther equals the scan the executable code performs.
proof fn lemma_insert_sorted_at(s: Seq<Intersection>, x: Intersection, idx: int)
    requires
        0 <= idx <= s.len(),
        forall|k: int| 0 <= k < idx ==> s[k].distance@ <= x.distance@,
        idx < s.len() ==> x.distance@ < s[idx].distance@,
    ensures
        insert_sorted(s, x) == s.insert(idx, x),
    decreases idx,
{
    if idx == 0 {
        if s.len() == 0 {
            assert(insert_sorted(s, x) =~= s.insert(0, x));
        } else {
            assert(x.distance@ < s[0].distance@);
            assert(seq![x] + s =~= s.insert(0, x));
        }
    } else {
        let tail = s.subrange(1, s.len() as int);
        lemma_insert_sorted_at(tail, x, idx - 1);
        assert(seq![s[0]] + insert_sorted(tail, x) =~= s.insert(idx, x)) by {
            assert(seq![s[0]] + tail.insert(idx - 1, x) =~= s.insert(idx, x));
        }
    }
}

/// Inserts an intersection behind every one that is not strictly
/// farther, keeping the vector sorted and stable.
fn push_sorted(v: &mut Vec<Intersection>, x: Intersection)
    ensures
        final(v)@ == insert_sorted(old(v)@, x),
{
    let mut idx: usize = 0;
    while idx < v.len() && v[idx].distance.raw <= x.distance.raw
        invariant
            idx <= v@.len(),
            forall|k: int| 0 <= k < idx ==> v@[k].distance@ <= x.distance@,
            v@ == old(v)@,
        decreases v@.len() - idx,
    {
        idx = idx + 1;
    }
    proof {
        lemma_insert_sorted_at(v@, x, idx as int);
    }
    v.insert(idx, x);
}

impl World {
    /// A world lit by one light, with no shapes yet.
    pub fn new(light: PointLight) -> (r: World)
        requires
            col_wf(light.intensity),
            vec_wf(light.position.v),
        ensures
            r.light == light,
            r.shapes@.len() == 0,
            world_wf(r),
    {
        World { light, shapes: Vec::new() }
    }

    /// Adds a shape and returns its index, the identity of the shape
    /// in every intersection.
    pub fn add_shape(&mut self, shape: Shape) -> (r: usize)
        requires
            world_wf(*old(self)),
            shape_wf(shape),
            old(self).shapes@.len() < 0x1000_0000,
        ensures
            world_wf(*final(self)),
            final(self).shapes@ == old(self).shapes@.push(shape),
            final(self).light == old(self).light,
            r == old(self).shapes@.len(),
    {
        let r = self.shapes.len();
        self.shapes.push(shape);
        r
    }

    /// Every non-negative intersection of the ray with the scene,
    /// sorted by distance; ties keep the order shapes were added in.
    /// A ray outside the working range meets nothing.
    pub fn intersect_with(&self, ray: &Ray) -> (r: Vec<Intersection>)
        requires
            world_wf(*self),
        ensures
            r@ == world_hits(*self, *ray),
            sorted_by_dist(r@),
            forall|k: int| 0 <= k < r@.len()
                ==> (#[trigger] r@[k]).shape_index < self.shapes@.len()
                    && 0 <= r@[k].distance@ <= DIST_LIM,
    {
        let o = ray.origin.as_vector();
        let d = ray.direction;
        let ok = o.x.raw <= VEC_LIM && o.x.raw >= -VEC_LIM
            && o.y.raw <= VEC_LIM && o.y.raw >= -VEC_LIM
            && o.z.raw <= VEC_LIM && o.z.raw >= -VEC_LIM
            && d.x.raw <= VEC_LIM && d.x.raw >= -VEC_LIM
            && d.y.raw <= VEC_LIM && d.y.raw >= -VEC_LIM
            && d.z.raw <= VEC_LIM && d.z.raw >= -VEC_LIM;
        if !ok {
            let out: Vec<Intersection> = Vec::new();
            proof {
                assert(out@ =~= world_hits(*self, *ray));
            }
            return out;
        }
        let n = self.shapes.len();
        let mut hits: Vec<Intersection> = Vec::new();
        let mut i: usize = 0;
        while i < n
            invariant
                i <= n,
                n == self.shapes@.len(),
                world_wf(*self),
                ray_ok(*ray),
                hits@ == all_hits(*self, *ray, i as int),
                forall|k: int| 0 <= k < hits@.len()
                    ==> (#[trigger] hits@[k]).shape_index < n
                        && 0 <= hits@[k].distance@ <= DIST_LIM,
            decreases n - i,
        {
            let roots = self.shapes[i].intersect_with(ray);
            let m = roots.len();
            let mut j: usize = 0;
            while j < m
                invariant
                    j <= m,
                    i < n,
                    n == self.shapes@.len(),
                    m == roots@.len(),
                    roots@ == shape_roots(self.shapes@[i as int], *ray),
                    forall|k: int| 0 <= k < roots@.len() ==> iabs((#[trigger] roots@[k])@) <= DIST_LIM,
                    hits@ == all_hits(*self, *ray, i as int)
                        + nonneg_tagged(roots@.subrange(0, j as int), i as int),
                    forall|k: int| 0 <= k < hits@.len()
                        ==> (#[trigger] hits@[k]).shape_index < n
                            && 0 <= hits@[k].distance@ <= DIST_LIM,
                decreases m - j,
            {
                let t = roots[j];
                if t.raw >= 0 {
                    hits.push(Intersection { shape_index: i, distance: t });
                }
                proof {
                    lemma_nonneg_tagged_snoc(roots@, j as int, i as int);
                }
                j = j + 1;
            }
            proof {
                assert(roots@.subrange(0, m as int) =~= roots@);
            }
            i = i + 1;
        }
        let mut sorted: Vec<Intersection> = Vec::new();
        let mut k: usize = 0;
        let total = hits.len();
        proof {
            assert(sorted@ =~= isort(hits@.subrange(0, 0)));
        }
        while k < total
            invariant
                k <= total,
                total == hits@.len(),
                sorted@ == isort(hits@.subrange(0, k as int)),
                forall|q: int| 0 <= q < hits@.len()
                    ==> (#[trigger] hits@[q]).shape_index < self.shapes@.len()
                        && 0 <= hits@[q].distance@ <= DIST_LIM,
            decreases total - k,
        {
            let x = hits[k];
            proof {
                assert(hits@.subrange(0, (k + 1) as int).drop_last() =~= hits@.subrange(0, k as int));
                assert(hits@.subrange(0, (k + 1) as int).last() == hits@[k as int]);
            }
            push_sorted(&mut sorted, x);
            k = k + 1;
        }
        proof {
            assert(hits@.subrange(0, total as int) =~= hits@);
            lemma_isort_props(hits@);
            assert forall|q: int| 0 <= q < sorted@.len()
                implies (#[trigger] sorted@[q]).shape_index < self.shapes@.len()
                    && 0 <= sorted@[q].distance@ <= DIST_LIM by {
                assert(hits@.contains(sorted@[q]));
                let w0 = choose|w0: int| 0 <= w0 < hits@.len() && hits@[w0] == sorted@[q];
            }
        }
        sorted
    }
}

/// A hit point within the range the shading pipeline accepts.
pub open spec fn hit_point_ok(p: Point) -> bool {
    iabs(p.v.x@) <= HIT_LIM && iabs(p.v.y@) <= HIT_LIM && iabs(p.v.z@) <= HIT_LIM
}

/// The nearest intersection, if any.
pub open spec fn spec_first(w: World, ray: Ray) -> Option<Intersection> {
    let hs = world_hits(w, ray);
    if hs.len() == 0 { Option::None } else { Option::Some(hs[0]) }
}

/// Whether something stands between a point and the light: a shadow
/// ray toward the light meets a shape strictly nearer than the light.
/// A point within the minimal distance of the light is lit.
pub open spec fn spec_is_shadowed(w: World, p: Point) -> bool {
    let d = vsub(w.light.position.v, p.v);
    if vmsq(d) < MIN_NORM_MSQ {
        false
    } else {
        let sray = Ray { origin: p, direction: vnormed(d) };
        let hs = world_hits(w, sray);
        hs.len() > 0 && hs[0].distance@ < vmag(d)
    }
}

/// The full resolution of a ray: the nearest hit with its shading
/// data. The normal is flipped when the ray starts inside the shape,
/// and the shadow test starts from the biased point. A hit beyond the
/// working range counts as a miss.
pub open spec fn spec_hit(w: World, ray: Ray) -> Option<RayHit> {
    let hs = world_hits(w, ray);
    if hs.len() == 0 {
        Option::None
    } else {
        let first = hs[0];
        let point = ray_at(ray, first.distance@);
        if !hit_point_ok(point) {
            Option::None
        } else {
            let n0 = shape_normal(w.shapes@[first.shape_index as int], point);
            let eye = crate::coords::vflip(ray.direction);
            let n = if vdot(n0.u.v, eye) < 0 { crate::normal::nflip(n0) } else { n0 };
            let shadowed = spec_is_shadowed(w, over_point_of(n, point));
            Option::Some(RayHit {
                shape_index: first.shape_index,
                is_shadowed: shadowed,
                point,
                eye_direction: UnitVector { v: eye },
                normal: n,
            })
        }
    }
}

/// The color a ray produces: the Phong shading of the nearest hit, or
/// nothing for a miss. A light within the minimal distance of the hit
/// point cannot be shaded and yields nothing by policy.
pub open spec fn spec_get_color(w: World, ray: Ray) -> Option<Color> {
    match spec_hit(w, ray) {
        Option::None => Option::None,
        Option::Some(h) => {
            if vmsq(vsub(w.light.position.v, h.point.v)) < MIN_NORM_MSQ {
                Option::None
            } else {
                Option::Some(lighting_of(
                    shape_material(w.shapes@[h.shape_index as int]),
                    w.light,
                    h.point,
                    h.eye_direction.v,
                    h.normal,
                    h.is_shadowed,
                ))
            }
        },
    }
}

impl RayHit {
    /// The Phong shading of this hit under a light.
    pub fn lightning(&self, light: &PointLight, material: &crate::material::Material) -> (r: Color)
        requires
            crate::material::material_wf(*material),
            col_wf(light.intensity),
            vec_wf(light.position.v),
            vec_wf(self.point.v),
            vmsq(vsub(light.position.v, self.point.v)) >= MIN_NORM_MSQ,
            uv_wf(self.eye_direction),
            uv_wf(self.normal.u),
        ensures
            r == lighting_of(*material, *light, self.point, self.eye_direction.v, self.normal,
                self.is_shadowed),
    {
        proof {
            lemma_uv_comp_bound(self.eye_direction);
        }
        material.lighting(light, &self.point, &self.eye_direction.v(), &self.normal,
            self.is_shadowed)
    }
}

impl World {
    /// The nearest intersection of the ray with the scene: no other
    /// intersection lies closer.
    pub fn first_intersection_with(&self, ray: &Ray) -> (r: Option<Intersection>)
        requires
            world_wf(*self),
        ensures
            r == spec_first(*self, *ray),
            r matches Some(h) ==> h.shape_index < self.shapes@.len()
                && 0 <= h.distance@ <= DIST_LIM
                && forall|k: int| 0 <= k < world_hits(*self, *ray).len()
                    ==> h.distance@ <= (#[trigger] world_hits(*self, *ray)[k]).distance@,
    {
        let v = self.intersect_with(ray);
        if v.len() == 0 {
            None
        } else {
            Some(v[0])
        }
    }

    /// Whether a point lies in the shadow of some shape.
    pub fn is_shadowed(&self, point: &Point) -> (r: bool)
        requires
            world_wf(*self),
            vec_wf(point.v),
        ensures
            r == spec_is_shadowed(*self, *point),
    {
        let d = self.light.position.sub_point(*point);
        if !d.can_normalize() {
            return false;
        }
        let distance_to_light = self.light.distance_from(point);
        let direction_to_light = self.light.direction_from(point);
        let shadow_ray = Ray::new(*point, direction_to_light);
        match self.first_intersection_with(&shadow_ray) {
            None => false,
            Some(inter) => inter.distance.raw < distance_to_light.raw,
        }
    }

    /// Resolves a ray to its nearest hit with all shading data.
    pub fn hit_with_ray(&self, ray: &Ray) -> (r: Option<RayHit>)
        requires
            world_wf(*self),
            ray_ok(*ray),
            vuwf(ray.direction),
        ensures
            r == spec_hit(*self, *ray),
            r matches Some(h) ==> h.shape_index < self.shapes@.len()
                && hit_point_ok(h.point) && uv_wf(h.eye_direction) && uv_wf(h.normal.u),
    {
        let first = self.first_intersection_with(ray);
        match first {
            None => None,
            Some(inter) => {
                let point = ray.position(inter.distance);
                let pv = point.as_vector();
                let p_ok = pv.x.raw <= HIT_LIM && pv.x.raw >= -HIT_LIM
                    && pv.y.raw <= HIT_LIM && pv.y.raw >= -HIT_LIM
                    && pv.z.raw <= HIT_LIM && pv.z.raw >= -HIT_LIM;
                if !p_ok {
                    return None;
                }
                let shape = &self.shapes[inter.shape_index];
                let mut normal = shape.normal_at(&point);
                let eye = ray.direction.flip();
                proof {
                    assert(vmsq(eye) == vmsq(ray.direction)) by (nonlinear_arith)
                        requires
                            eye.x@ == -ray.direction.x@,
                            eye.y@ == -ray.direction.y@,
                            eye.z@ == -ray.direction.z@,
                    ;
                    assert(eye == crate::coords::vflip(ray.direction));
                    lemma_uv_comp_bound(UnitVector { v: eye });
                }
                let eye_u = UnitVector { v: eye };
                let is_inside = normal.dot(&eye).raw < 0;
                if is_inside {
                    normal = normal.flip();
                    proof {
                        assert(normal == crate::normal::nflip(shape_normal(
                            self.shapes@[inter.shape_index as int], point)));
                    }
                }
                let over = normal.over_point(&point);
                let is_shadowed = self.is_shadowed(&over);
                Some(RayHit {
                    shape_index: inter.shape_index,
                    is_shadowed,
                    point,
                    eye_direction: eye_u,
                    normal,
                })
            },
        }
    }

    /// The color of whatever the ray meets first, or nothing.
    pub fn get_color(&self, ray: &Ray) -> (r: Option<Color>)
        requires
            world_wf(*self),
            ray_ok(*ray),
            vuwf(ray.direction),
        ensures
            r == spec_get_color(*self, *ray),
    {
        match self.hit_with_ray(ray) {
            None => None,
            Some(hit) => {
                let d = self.light.position.sub_point(hit.point);
                if !d.can_normalize() {
                    return None;
                }
                let material = self.shapes[hit.shape_index].material();
                Some(hit.lightning(&self.light, material))
            },
        }
    }
}

/// The row-major position of a pixel in the buffer.
pub open spec fn pixel_index(py: int, w: int, px: int) -> int {
    py * w + px
}

/// The color one pixel of a rendering shows: the shaded nearest hit of
/// the pixel's ray, or black for the background.
pub open spec fn spec_render_pixel(w: World, c: crate::camera::Camera, px: int, py: int) -> Color {
    match spec_get_color(w, crate::camera::spec_cast_ray(c, px, py)) {
        Option::None => Color { r: Fx { raw: 0 }, g: Fx { raw: 0 }, b: Fx { raw: 0 } },
        Option::Some(col) => col,
    }
}

impl World {
    /// Renders the scene through a camera: one ray per pixel, row by
    /// row, background pixels black.
    pub fn render(&self, camera: &crate::camera::Camera) -> (r: crate::canvas::Canvas)
        requires
            world_wf(*self),
            crate::camera::camera_wf(*camera),
            camera.h_size * camera.v_size <= 0x1000_0000,
        ensures
            r.width == camera.h_size,
            r.height == camera.v_size,
            crate::canvas::canvas_wf(r),
            forall|px: int, py: int| 0 <= px < camera.h_size && 0 <= py < camera.v_size
                ==> r.pixels@[#[trigger] pixel_index(py, camera.h_size as int, px)]
                    == spec_render_pixel(*self, *camera, px, py),
    {
        let w = camera.h_size();
        let h = camera.v_size();
        let mut canvas = crate::canvas::Canvas::new(w, h);
        let mut y: usize = 0;
        while y < h
            invariant
                y <= h,
                w == camera.h_size,
                h == camera.v_size,
                world_wf(*self),
                crate::camera::camera_wf(*camera),
                camera.h_size * camera.v_size <= 0x1000_0000,
                canvas.width == w,
                canvas.height == h,
                crate::canvas::canvas_wf(canvas),
                forall|px: int, py: int| 0 <= px < w && 0 <= py < y
                    ==> canvas.pixels@[#[trigger] pixel_index(py, w as int, px)]
                        == spec_render_pixel(*self, *camera, px, py),
            decreases h - y,
        {
            let mut x: usize = 0;
            while x < w
                invariant
                    x <= w,
                    y < h,
                    w == camera.h_size,
                    h == camera.v_size,
                    world_wf(*self),
                    crate::camera::camera_wf(*camera),
                    camera.h_size * camera.v_size <= 0x1000_0000,
                    canvas.width == w,
                    canvas.height == h,
                    crate::canvas::canvas_wf(canvas),
                    forall|px: int, py: int| 0 <= px < w && 0 <= py < y
                        ==> canvas.pixels@[#[trigger] pixel_index(py, w as int, px)]
                            == spec_render_pixel(*self, *camera, px, py),
                    forall|px: int| 0 <= px < x
                        ==> canvas.pixels@[#[trigger] pixel_index(y as int, w as int, px)]
                            == spec_render_pixel(*self, *camera, px, y as int),
                decreases w - x,
            {
                let ray = camera.cast_ray_at(x, y);
                let color = match self.get_color(&ray) {
                    Some(c) => c,
                    None => Color::black(),
                };
                proof {
                    lemma_row_major(w as int, y as int, x as int, h as int);
                }
                canvas.write_pixel(x, y, &color);
                x = x + 1;
            }
            y = y + 1;
        }
        canvas
    }
}

/// Earlier pixels in row-major order have strictly smaller indices, so
/// writing one pixel leaves them unchanged.
proof fn lemma_row_major(w: int, y: int, x: int, h: int)
    requires
        1 <= w,
        0 <= x < w,
        0 <= y < h,
    ensures
        forall|px: int, py: int| 0 <= px < w && 0 <= py < h && (py < y || (py == y && px < x))
            ==> #[trigger] pixel_index(py, w, px) < pixel_index(y, w, x),
        forall|px: int, py: int| 0 <= px < w && 0 <= py < h
            ==> 0 <= #[trigger] pixel_index(py, w, px) < w * h,
        0 <= pixel_index(y, w, x) < w * h,
{
    assert forall|px: int, py: int| 0 <= px < w && 0 <= py < h && (py < y || (py == y && px < x))
        implies #[trigger] pixel_index(py, w, px) < pixel_index(y, w, x) by {
        if py < y {
            assert(py * w + px < y * w + x) by (nonlinear_arith)
                requires
                    0 <= px < w,
                    0 <= py < y,
                    0 <= x,
            {
                assert(py * w <= (y - 1) * w);
                assert((y - 1) * w + w == y * w);
            }
        }
    }
    assert forall|px: int, py: int| 0 <= px < w && 0 <= py < h
        implies 0 <= #[trigger] pixel_index(py, w, px) < w * h by {
        assert(0 <= py * w + px < w * h) by (nonlinear_arith)
            requires
                0 <= px < w,
                0 <= py < h,
        {
            assert(py * w <= (h - 1) * w);
            assert((h - 1) * w + w == h * w);
            assert(h * w == w * h);
        }
    }
}

/// One more root extends the tagged non-negative hits by at most one
/// entry at the end.
proof fn lemma_nonneg_tagged_snoc(roots: Seq<Fx>, j: int, i: int)
    requires
        0 <= j < roots.len(),
    ensures
        nonneg_tagged(roots.subrange(0, j + 1), i) == if roots[j]@ >= 0 {
            nonneg_tagged(roots.subrange(0, j), i)
                + seq![Intersection { shape_index: i as usize, distance: roots[j] }]
        } else {
            nonneg_tagged(roots.subrange(0, j), i)
        },
    decreases j,
{
    let a = roots.subrange(0, j + 1);
    let b = roots.subrange(0, j);
    if j == 0 {
        assert(a =~= seq![roots[0]]);
        assert(b =~= Seq::empty());
        assert(a.subrange(1, a.len() as int) =~= Seq::<Fx>::empty());
        if roots[0]@ >= 0 {
            assert(nonneg_tagged(a, i)
                =~= nonneg_tagged(b, i) + seq![Intersection { shape_index: i as usize, distance: roots[0] }]);
        }
    } else {
        let rt = roots.subrange(1, roots.len() as int);
        lemma_nonneg_tagged_snoc(rt, j - 1, i);
        assert(a.subrange(1, a.len() as int) =~= rt.subrange(0, j));
        assert(b.subrange(1, b.len() as int) =~= rt.subrange(0, j - 1));
        assert(a[0] == roots[0] && b[0] == roots[0]);
        assert(rt[j - 1] == roots[j]);
        if roots[0]@ >= 0 {
            assert(nonneg_tagged(a, i) == seq![Intersection { shape_index: i as usize, distance: roots[0] }]
                + nonneg_tagged(rt.subrange(0, j), i));
            if roots[j]@ >= 0 {
                assert(nonneg_tagged(a, i) =~= nonneg_tagged(b, i)
                    + seq![Intersection { shape_index: i as usize, distance: roots[j] }]);
            } else {
                assert(nonneg_tagged(a, i) =~= nonneg_tagged(b, i));
            }
        } else {
            if roots[j]@ >= 0 {
                assert(nonneg_tagged(a, i) =~= nonneg_tagged(b, i)
                    + seq![Intersection { shape_index: i as usize, distance: roots[j] }]);
            } else {
                assert(nonneg_tagged(a, i) =~= nonneg_tagged(b, i));
            }
        }
    }
}

} // verus!
