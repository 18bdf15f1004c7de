//! The scene and the recursive shader: intersection collection, shadow
//! testing, shading state, Schlick reflectance, and depth-bounded
//! recursive color resolution.

use vstd::prelude::*;
use crate::scalar::{
    Scalar, SCALE, EPSILON, fadd, fsub, fneg, fmul, fdiv, fsqrt, fpow,
};
use crate::colors::{Color, spec_black, spec_color_add, spec_color_scale};
use crate::tuples::{
    Tuple4, spec_add, spec_sub, spec_neg, spec_scale, spec_dot, spec_magnitude, spec_normalize,
    spec_reflect,
};
use crate::matrices::det_spec;
use crate::rays::{Ray, position_spec};
use crate::shapes::{Shape, ShapeKind, intersect_spec, normal_at_spec, sphere};
use crate::materials::Material;
use crate::lighting::{PointLight, point_light, lighting, spec_lighting};
use crate::intersections::{
    Intersection, hit, hit_spec, sort_by_t, sort_spec, sorted_by_t, lemma_sort_spec_properties,
};
use crate::transformations::{scaling, scaling_spec};
use crate::scalar::{lemma_fmul_zero, lemma_fdiv_zero, lemma_fmul_one};

verus! {

/// A scene: its shapes and at most one point light.
#[derive(Debug, Clone, PartialEq, Eq)]
pub struct World {
    pub objects: Vec<Shape>,
    pub light: Option<PointLight>,
}

/// The shading state derived once per shaded intersection.
#[derive(Debug, Clone, Copy, PartialEq, Eq, Structural)]
pub struct Computations {
    pub t: Scalar,
    pub object: usize,
    pub point: Tuple4,
    pub eyev: Tuple4,
    pub normalv: Tuple4,
    pub inside: bool,
    pub over_point: Tuple4,
    pub under_point: Tuple4,
    pub reflectv: Tuple4,
    pub n1: Scalar,
    pub n2: Scalar,
}

/// A well-formed ray: a point origin and a vector direction.
pub open spec fn ray_wf(r: Ray) -> bool {
    &&& r.origin.w@ == SCALE
    &&& r.direction.w@ == 0
}

impl World {
    /// A well-formed scene: every shape well formed, and the light, if
    /// set, at a point.
    pub open spec fn wf(&self) -> bool {
        &&& forall|i: int| 0 <= i < self.objects@.len() ==> (#[trigger] self.objects@[i]).wf()
        &&& match self.light {
            Some(l) => l.position.w@ == SCALE,
            None => true,
        }
    }

    /// An empty scene without a light.
    pub fn new() -> (r: World)
        ensures
            r.objects@.len() == 0,
            r.light is None,
            r.wf(),
    {
        World { objects: Vec::new(), light: None }
    }

    /// An empty scene with the given light.
    pub fn with_light(light: PointLight) -> (r: World)
        requires
            light.position.w@ == SCALE,
        ensures
            r.objects@.len() == 0,
            r.light == Some(light),
            r.wf(),
    {
        World { objects: Vec::new(), light: Some(light) }
    }
}

/// The roots of one shape against a ray, tagged with the shape's index.
pub open spec fn shape_hits(s: Shape, idx: int, r: Ray) -> Seq<Intersection> {
    Seq::new(
        intersect_spec(s, r).len(),
        |k: int| Intersection { t: Scalar { raw: intersect_spec(s, r)[k] as i64 }, object: idx as usize },
    )
}

/// The roots of the first `n` shapes against a ray, in shape order.
pub open spec fn world_hits(objects: Seq<Shape>, r: Ray, n: nat) -> Seq<Intersection>
    decreases n,
{
    if n == 0 {
        Seq::<Intersection>::empty()
    } else {
        world_hits(objects, r, (n - 1) as nat) + shape_hits(objects[n - 1], n - 1, r)
    }
}

/// Every root of every shape, sorted ascending by `t`.
pub open spec fn spec_world_intersect(w: World, r: Ray) -> Seq<Intersection> {
    sort_spec(world_hits(w.objects@, r, w.objects@.len()))
}

/// Whether every intersection names a shape of the scene.
pub open spec fn valid_indices(xs: Seq<Intersection>, n: int) -> bool {
    forall|k: int| 0 <= k < xs.len() ==> (#[trigger] xs[k]).object < n
}

/// The collected roots name only shapes of the scene.
pub proof fn lemma_world_hits_valid(objects: Seq<Shape>, r: Ray, n: nat)
    requires
        n <= objects.len(),
    ensures
        valid_indices(world_hits(objects, r, n), objects.len() as int),
    decreases n,
{
    if n > 0 {
        lemma_world_hits_valid(objects, r, (n - 1) as nat);
    }
}

/// Sorting keeps every element, so validity of indices survives it.
pub proof fn lemma_sorted_valid(xs: Seq<Intersection>, n: int)
    requires
        valid_indices(xs, n),
    ensures
        valid_indices(sort_spec(xs), n),
{
    broadcast use vstd::seq_lib::group_to_multiset_ensures;

    lemma_sort_spec_properties(xs);
    let s = sort_spec(xs);
    assert forall|k: int| 0 <= k < s.len() implies (#[trigger] s[k]).object < n by {
        assert(s.contains(s[k]));
        assert(s.to_multiset().count(s[k]) > 0);
        assert(xs.to_multiset().count(s[k]) > 0);
        assert(xs.contains(s[k]));
        let j = choose|j: int| 0 <= j < xs.len() && xs[j] == s[k];
        assert(xs[j].object < n);
    }
}

impl World {
    /// Every intersection of the ray with the scene, ascending by `t`.
    pub fn intersect(&self, r: &Ray) -> (out: Vec<Intersection>)
        requires
            self.wf(),
        ensures
            out@ == spec_world_intersect(*self, *r),
            sorted_by_t(out@),
            valid_indices(out@, self.objects@.len() as int),
    {
        let n = self.objects.len();
        let mut acc: Vec<Intersection> = Vec::new();
        let mut i: usize = 0;
        while i < n
            invariant
                self.wf(),
                n == self.objects@.len(),
                i <= n,
                acc@ == world_hits(self.objects@, *r, i as nat),
            decreases n - i,
        {
            let ts = self.objects[i].intersect(r);
            let mut j: usize = 0;
            while j < ts.len()
                invariant
                    i < n,
                    n == self.objects@.len(),
                    ts@.map_values(|s: Scalar| s@) == intersect_spec(self.objects@[i as int], *r),
                    j <= ts@.len(),
                    acc@ == world_hits(self.objects@, *r, i as nat) + shape_hits(
                        self.objects@[i as int],
                        i as int,
                        *r,
                    ).subrange(0, j as int),
                decreases ts@.len() - j,
            {
                acc.push(Intersection { t: ts[j], object: i });
                proof {
                    assert(acc@ =~= world_hits(self.objects@, *r, i as nat) + shape_hits(
                        self.objects@[i as int],
                        i as int,
                        *r,
                    ).subrange(0, j + 1));
                }
                j = j + 1;
            }
            proof {
                let sh = shape_hits(self.objects@[i as int], i as int, *r);
                assert(sh.subrange(0, sh.len() as int) =~= sh);
                assert(acc@ =~= world_hits(self.objects@, *r, (i + 1) as nat));
            }
            i = i + 1;
        }
        let out = sort_by_t(&acc);
        proof {
            lemma_world_hits_valid(self.objects@, *r, n as nat);
            lemma_sorted_valid(acc@, self.objects@.len() as int);
        }
        out
    }
}

/// The first position of `v` in the list, or minus one.
pub open spec fn first_index_of(s: Seq<usize>, v: usize) -> int
    decreases s.len(),
{
    if s.len() == 0 {
        -1
    } else if s[0] == v {
        0
    } else {
        let r = first_index_of(s.drop_first(), v);
        if r == -1 {
            -1
        } else {
            r + 1
        }
    }
}

/// What the first position means: the element is there and nowhere
/// earlier, or it is nowhere at all.
pub proof fn lemma_first_index_of(s: Seq<usize>, v: usize)
    ensures
        first_index_of(s, v) == -1 ==> forall|k: int| 0 <= k < s.len() ==> s[k] != v,
        first_index_of(s, v) != -1 ==> {
            &&& 0 <= first_index_of(s, v) < s.len()
            &&& s[first_index_of(s, v)] == v
            &&& forall|k: int| 0 <= k < first_index_of(s, v) ==> s[k] != v
        },
    decreases s.len(),
{
    if s.len() > 0 && s[0] != v {
        lemma_first_index_of(s.drop_first(), v);
        let d = s.drop_first();
        let r = first_index_of(d, v);
        if r == -1 {
            assert forall|k: int| 0 <= k < s.len() implies s[k] != v by {
                if k > 0 {
                    assert(d[k - 1] == s[k]);
                }
            }
        } else {
            assert(first_index_of(s, v) == r + 1);
            assert(s[r + 1] == d[r]);
            assert forall|k: int| 0 <= k < r + 1 implies s[k] != v by {
                if k > 0 {
                    assert(d[k - 1] == s[k]);
                }
            }
        }
    }
}

/// One step of the container walk: entering pushes the shape, leaving
/// removes its first occurrence.
pub open spec fn toggle_spec(c: Seq<usize>, obj: usize) -> Seq<usize> {
    let k = first_index_of(c, obj);
    if k == -1 {
        c.push(obj)
    } else {
        c.remove(k)
    }
}

/// The containers after walking the first `upto` intersections.
pub open spec fn containers_spec(xs: Seq<Intersection>, upto: nat) -> Seq<usize>
    decreases upto,
{
    if upto == 0 {
        Seq::<usize>::empty()
    } else {
        toggle_spec(containers_spec(xs, (upto - 1) as nat), xs[upto - 1].object)
    }
}

/// The first position in the list whose root equals `t`, or minus one.
pub open spec fn first_t_match(xs: Seq<Intersection>, t: int) -> int
    decreases xs.len(),
{
    if xs.len() == 0 {
        -1
    } else if xs[0].t@ == t {
        0
    } else {
        let r = first_t_match(xs.drop_first(), t);
        if r == -1 {
            -1
        } else {
            r + 1
        }
    }
}

/// What the first matching position means.
pub proof fn lemma_first_t_match(xs: Seq<Intersection>, t: int)
    ensures
        first_t_match(xs, t) == -1 ==> forall|k: int| 0 <= k < xs.len() ==> xs[k].t@ != t,
        first_t_match(xs, t) != -1 ==> {
            &&& 0 <= first_t_match(xs, t) < xs.len()
            &&& xs[first_t_match(xs, t)].t@ == t
            &&& forall|k: int| 0 <= k < first_t_match(xs, t) ==> xs[k].t@ != t
        },
    decreases xs.len(),
{
    if xs.len() > 0 && xs[0].t@ != t {
        lemma_first_t_match(xs.drop_first(), t);
        let d = xs.drop_first();
        let r = first_t_match(d, t);
        if r == -1 {
            assert forall|k: int| 0 <= k < xs.len() implies xs[k].t@ != t by {
                if k > 0 {
                    assert(d[k - 1] == xs[k]);
                }
            }
        } else {
            assert(first_t_match(xs, t) == r + 1);
            assert(xs[r + 1] == d[r]);
            assert forall|k: int| 0 <= k < r + 1 implies xs[k].t@ != t by {
                if k > 0 {
                    assert(d[k - 1] == xs[k]);
                }
            }
        }
    }
}

/// The refractive index of the innermost container, or of vacuum when
/// there is none.
pub open spec fn refr_of(c: Seq<usize>, objects: Seq<Shape>) -> int {
    if c.len() == 0 {
        SCALE as int
    } else {
        objects[c.last() as int].material.refractive_index@
    }
}

/// The refractive index on the side the ray comes from.
pub open spec fn n1_spec(i: Intersection, xs: Seq<Intersection>, objects: Seq<Shape>) -> int {
    let k = first_t_match(xs, i.t@);
    if k == -1 {
        SCALE as int
    } else {
        refr_of(containers_spec(xs, k as nat), objects)
    }
}

/// The refractive index on the side the ray passes into.
pub open spec fn n2_spec(i: Intersection, xs: Seq<Intersection>, objects: Seq<Shape>) -> int {
    let k = first_t_match(xs, i.t@);
    if k == -1 {
        SCALE as int
    } else {
        refr_of(containers_spec(xs, (k + 1) as nat), objects)
    }
}

/// Every container names a shape of the scene.
pub proof fn lemma_containers_valid(xs: Seq<Intersection>, upto: nat, n: int)
    requires
        valid_indices(xs, n),
        upto <= xs.len(),
    ensures
        forall|j: int|
            0 <= j < containers_spec(xs, upto).len() ==> (#[trigger] containers_spec(xs, upto)[j])
                < n,
    decreases upto,
{
    if upto > 0 {
        lemma_containers_valid(xs, (upto - 1) as nat, n);
        let c = containers_spec(xs, (upto - 1) as nat);
        let obj = xs[upto - 1].object;
        lemma_first_index_of(c, obj);
        let k = first_index_of(c, obj);
        if k == -1 {
            assert(forall|j: int|
                0 <= j < c.push(obj).len() ==> (#[trigger] c.push(obj)[j]) < n);
        } else {
            assert(forall|j: int|
                0 <= j < c.remove(k).len() ==> (#[trigger] c.remove(k)[j]) < n);
        }
    }
}

/// The shading state of an intersection: hit point, eye and normal
/// vectors, the inside flag, the offset points, the reflection vector,
/// and the refractive pair from the container walk.
pub open spec fn spec_prepare_computations(
    i: Intersection,
    ray: Ray,
    xs: Seq<Intersection>,
    objects: Seq<Shape>,
) -> Computations {
    let point = position_spec(ray, i.t@);
    let eyev = spec_neg(ray.direction);
    let n0 = normal_at_spec(objects[i.object as int], point);
    let inside = spec_dot(n0, eyev) < 0;
    let normalv = if inside {
        spec_neg(n0)
    } else {
        n0
    };
    Computations {
        t: i.t,
        object: i.object,
        point,
        eyev,
        normalv,
        inside,
        over_point: spec_add(point, spec_scale(normalv, EPSILON as int)),
        under_point: spec_sub(point, spec_scale(normalv, EPSILON as int)),
        reflectv: spec_reflect(ray.direction, normalv),
        n1: Scalar { raw: n1_spec(i, xs, objects) as i64 },
        n2: Scalar { raw: n2_spec(i, xs, objects) as i64 },
    }
}

/// What shading relies on in a derived state.
pub open spec fn comps_wf(c: Computations, w: World) -> bool {
    &&& (c.object as int) < w.objects@.len()
    &&& c.n1@ > 0
    &&& c.n2@ > 0
    &&& c.eyev.w@ == 0
    &&& c.normalv.w@ == 0
    &&& c.reflectv.w@ == 0
    &&& c.over_point.w@ == SCALE
    &&& c.under_point.w@ == SCALE
}

/// The first position of `v`, as the scan finds it.
fn find_first(s: &Vec<usize>, v: usize) -> (r: Option<usize>)
    ensures
        match r {
            Some(k) => k as int == first_index_of(s@, v),
            None => first_index_of(s@, v) == -1,
        },
{
    let mut k: usize = 0;
    while k < s.len()
        invariant
            k <= s@.len(),
            forall|q: int| 0 <= q < k ==> s@[q] != v,
        decreases s@.len() - k,
    {
        if s[k] == v {
            proof {
                lemma_first_index_of(s@, v);
            }
            return Some(k);
        }
        k = k + 1;
    }
    proof {
        lemma_first_index_of(s@, v);
    }
    None
}

/// The first position whose root equals `t`, as the scan finds it.
fn find_t_match(xs: &Vec<Intersection>, t: Scalar) -> (r: Option<usize>)
    ensures
        match r {
            Some(k) => k as int == first_t_match(xs@, t@),
            None => first_t_match(xs@, t@) == -1,
        },
{
    let mut k: usize = 0;
    while k < xs.len()
        invariant
            k <= xs@.len(),
            forall|q: int| 0 <= q < k ==> xs@[q].t@ != t@,
        decreases xs@.len() - k,
    {
        if xs[k].t == t {
            proof {
                lemma_first_t_match(xs@, t@);
            }
            return Some(k);
        }
        k = k + 1;
    }
    proof {
        lemma_first_t_match(xs@, t@);
    }
    None
}

/// The refractive index of the innermost container.
fn refr_exec(containers: &Vec<usize>, objects: &Vec<Shape>) -> (r: Scalar)
    requires
        forall|j: int| 0 <= j < containers@.len() ==> (#[trigger] containers@[j]) < objects@.len(),
    ensures
        r@ == refr_of(containers@, objects@),
{
    if containers.len() == 0 {
        Scalar::one()
    } else {
        let idx = containers[containers.len() - 1];
        objects[idx].material.refractive_index
    }
}

/// The first occurrence of `obj` removed, or `obj` appended.
fn toggle(containers: &mut Vec<usize>, obj: usize)
    ensures
        final(containers)@ == toggle_spec(old(containers)@, obj),
{
    proof {
        lemma_first_index_of(containers@, obj);
    }
    let found = find_first(containers, obj);
    match found {
        Some(k) => {
            containers.remove(k);
        },
        None => {
            containers.push(obj);
        },
    }
}

impl Intersection {
    /// The shading state for this intersection of the ray, including
    /// the walk of the full intersection list that yields the
    /// refractive indices on both sides of the boundary.
    #[verifier::rlimit(60)]
    pub fn prepare_computations(
        &self,
        ray: &Ray,
        xs: Option<&Vec<Intersection>>,
        objects: &Vec<Shape>,
    ) -> (c: Computations)
        requires
            ray_wf(*ray),
            (self.object as int) < objects@.len(),
            forall|i: int| 0 <= i < objects@.len() ==> (#[trigger] objects@[i]).wf(),
            match xs {
                Some(v) => valid_indices(v@, objects@.len() as int),
                None => true,
            },
        ensures
            c == spec_prepare_computations(
                *self,
                *ray,
                match xs {
                    Some(v) => v@,
                    None => Seq::<Intersection>::empty(),
                },
                objects@,
            ),
            comps_wf(
                c,
                World { objects: *objects, light: None },
            ),
    {
        let point = ray.position(self.t);
        let eyev = ray.direction.neg();
        let n0 = objects[self.object].normal_at(&point);
        let inside = n0.dot(eyev).lt(Scalar::zero());
        let normalv = if inside {
            n0.neg()
        } else {
            n0
        };
        proof {
            lemma_fmul_zero(EPSILON as int);
            lemma_fmul_zero(self.t@);
        }
        let eps = Scalar::from_raw(EPSILON);
        let over_point = point.add(normalv.mul(eps));
        let under_point = point.sub(normalv.mul(eps));
        let reflectv = ray.direction.reflect(normalv);

        let empty_xs: Vec<Intersection> = Vec::new();
        let xsv: &Vec<Intersection> = match xs {
            Some(v) => v,
            None => &empty_xs,
        };
        let ghost xsq = xsv@;
        proof {
            lemma_first_t_match(xsq, self.t@);
        }
        let found = find_t_match(xsv, self.t);
        let (n1, n2) = match found {
            None => (Scalar::one(), Scalar::one()),
            Some(m) => {
                let mut containers: Vec<usize> = Vec::new();
                let mut k: usize = 0;
                while k < m
                    invariant
                        (m as int) == first_t_match(xsq, self.t@),
                        m < xsq.len(),
                        xsq == xsv@,
                        k <= m,
                        valid_indices(xsq, objects@.len() as int),
                        containers@ == containers_spec(xsq, k as nat),
                    decreases m - k,
                {
                    toggle(&mut containers, xsv[k].object);
                    k = k + 1;
                }
                proof {
                    lemma_containers_valid(xsq, m as nat, objects@.len() as int);
                }
                let n1 = refr_exec(&containers, objects);
                toggle(&mut containers, xsv[m].object);
                proof {
                    assert(containers@ == containers_spec(xsq, (m + 1) as nat));
                    lemma_containers_valid(xsq, (m + 1) as nat, objects@.len() as int);
                }
                let n2 = refr_exec(&containers, objects);
                (n1, n2)
            },
        };
        proof {
            lemma_fdiv_zero_for_normal(objects@[self.object as int], point);
        }
        Computations {
            t: self.t,
            object: self.object,
            point,
            eyev,
            normalv,
            inside,
            over_point,
            under_point,
            reflectv,
            n1,
            n2,
        }
    }
}

/// The maximum depth of the reflection and refraction recursion.
pub const MAX_RECURSION_DEPTH: u32 = 5;

/// The material of the shape an intersection lies on.
pub open spec fn object_material(w: World, c: Computations) -> Material {
    w.objects@[c.object as int].material
}

/// Whether something of the scene stands between a point and the
/// light: the nearest hit toward the light lies closer than the light.
/// A point on the light itself is unshadowed.
pub open spec fn spec_is_shadowed(w: World, p: Tuple4) -> bool {
    match w.light {
        None => false,
        Some(light) => {
            let v = spec_sub(light.position, p);
            let d = spec_magnitude(v);
            if d == 0 {
                false
            } else {
                let r = Ray { origin: p, direction: spec_normalize(v) };
                match hit_spec(spec_world_intersect(w, r)) {
                    Some(h) => h.t@ < d,
                    None => false,
                }
            }
        },
    }
}

/// The Schlick reflectance given the effective cosine.
pub open spec fn schlick_from_cos(c: Computations, cos: int) -> int {
    let q = fdiv(fsub(c.n1@, c.n2@), fadd(c.n1@, c.n2@));
    let r0 = fmul(q, q);
    fadd(r0, fmul(fsub(SCALE as int, r0), fpow(fsub(SCALE as int, cos), 5)))
}

/// The Schlick approximation of the Fresnel reflectance: full
/// reflectance under total internal reflection, else a fifth-power
/// blend from the cosine of the steeper angle.
pub open spec fn spec_schlick(c: Computations) -> int {
    let cos0 = spec_dot(c.eyev, c.normalv);
    if c.n1@ > c.n2@ {
        let n_ratio = fdiv(c.n1@, c.n2@);
        let sin2_t = fmul(fmul(n_ratio, n_ratio), fsub(SCALE as int, fmul(cos0, cos0)));
        if sin2_t > SCALE as int {
            SCALE as int
        } else {
            schlick_from_cos(c, fsqrt(fsub(SCALE as int, sin2_t)))
        }
    } else {
        schlick_from_cos(c, cos0)
    }
}

/// Under total internal reflection the Schlick reflectance is exactly
/// one.
pub proof fn lemma_schlick_total_internal_reflection(c: Computations)
    requires
        c.n1@ > c.n2@,
        ({
            let cos0 = spec_dot(c.eyev, c.normalv);
            let n_ratio = fdiv(c.n1@, c.n2@);
            fmul(fmul(n_ratio, n_ratio), fsub(SCALE as int, fmul(cos0, cos0))) > SCALE as int
        }),
    ensures
        spec_schlick(c) == SCALE as int,
{
}

/// The Schlick approximation of the Fresnel reflectance.
pub fn schlick(comps: &Computations) -> (r: Scalar)
    requires
        comps.n1@ > 0,
        comps.n2@ > 0,
    ensures
        r@ == spec_schlick(*comps),
{
    let one = Scalar::one();
    let cos0 = comps.eyev.dot(comps.normalv);
    let cos = if comps.n1.gt(comps.n2) {
        let n_ratio = comps.n1.div(comps.n2);
        let sin2_t = n_ratio.mul(n_ratio).mul(one.sub(cos0.mul(cos0)));
        if sin2_t.gt(one) {
            return one;
        }
        one.sub(sin2_t).sqrt_val()
    } else {
        cos0
    };
    let q = comps.n1.sub(comps.n2).div(comps.n1.add(comps.n2));
    let r0 = q.mul(q);
    r0.add(one.sub(r0).mul(one.sub(cos).powi(5)))
}

/// The color reached by bouncing off a reflective surface: black when
/// the depth is spent or the surface hardly reflects, else the
/// recursive color along the reflection ray, dimmed by the
/// reflectivity.
pub open spec fn spec_reflected_color(w: World, c: Computations, remaining: nat) -> Color
    decreases remaining, 1nat,
{
    if remaining == 0 {
        spec_black()
    } else if object_material(w, c).reflective@ < EPSILON {
        spec_black()
    } else {
        let r = Ray { origin: c.over_point, direction: c.reflectv };
        spec_color_scale(
            spec_color_at(w, r, (remaining - 1) as nat),
            object_material(w, c).reflective@,
        )
    }
}

/// The color carried through a transparent surface by Snell's law:
/// black when the depth is spent, the surface is opaque, or the light
/// is totally internally reflected; else the recursive color along the
/// refracted ray, dimmed by the transparency.
pub open spec fn spec_refracted_color(w: World, c: Computations, remaining: nat) -> Color
    decreases remaining, 1nat,
{
    if remaining == 0 {
        spec_black()
    } else if object_material(w, c).transparency@ == 0 {
        spec_black()
    } else {
        let n_ratio = fdiv(c.n1@, c.n2@);
        let cos_i = spec_dot(c.eyev, c.normalv);
        let sin2_t = fmul(fmul(n_ratio, n_ratio), fsub(SCALE as int, fmul(cos_i, cos_i)));
        if sin2_t > SCALE as int {
            spec_black()
        } else {
            let cos_t = fsqrt(fsub(SCALE as int, sin2_t));
            let direction = spec_sub(
                spec_scale(c.normalv, fsub(fmul(n_ratio, cos_i), cos_t)),
                spec_scale(c.eyev, n_ratio),
            );
            let r = Ray { origin: c.under_point, direction };
            spec_color_scale(
                spec_color_at(w, r, (remaining - 1) as nat),
                object_material(w, c).transparency@,
            )
        }
    }
}

/// The full shade of an intersection: the Phong surface color with the
/// shadow test, plus the reflected and refracted contributions, blended
/// by the Schlick reflectance when the surface both reflects and
/// transmits.
pub open spec fn spec_shade_hit(w: World, c: Computations, remaining: nat) -> Color
    decreases remaining, 2nat,
{
    match w.light {
        None => spec_black(),
        Some(light) => {
            let shadowed = spec_is_shadowed(w, c.over_point);
            let surface = spec_lighting(
                object_material(w, c),
                w.objects@[c.object as int],
                light,
                c.over_point,
                c.eyev,
                c.normalv,
                shadowed,
            );
            let reflected = spec_reflected_color(w, c, remaining);
            let refracted = spec_refracted_color(w, c, remaining);
            let m = object_material(w, c);
            if m.reflective@ > 0 && m.transparency@ > 0 {
                let reflectance = spec_schlick(c);
                spec_color_add(
                    spec_color_add(surface, spec_color_scale(reflected, reflectance)),
                    spec_color_scale(refracted, fsub(SCALE as int, reflectance)),
                )
            } else {
                spec_color_add(spec_color_add(surface, reflected), refracted)
            }
        },
    }
}

/// The color seen along a ray: black once the recursion depth is
/// spent or when nothing is hit, else the shade of the nearest hit.
pub open spec fn spec_color_at(w: World, r: Ray, remaining: nat) -> Color
    decreases remaining, 3nat,
{
    if remaining == 0 {
        spec_black()
    } else {
        let xs = spec_world_intersect(w, r);
        match hit_spec(xs) {
            None => spec_black(),
            Some(i) => spec_shade_hit(
                w,
                spec_prepare_computations(i, r, xs, w.objects@),
                remaining,
            ),
        }
    }
}

impl World {
    /// Whether the point lies in shadow.
    pub fn is_shadowed(&self, point: Tuple4) -> (r: bool)
        requires
            self.wf(),
            self.light is Some,
            point.w@ == SCALE,
        ensures
            r == spec_is_shadowed(*self, point),
    {
        let light = self.light.unwrap();
        let v = light.position.sub(point);
        let distance = v.magnitude();
        if distance.is_zero() {
            return false;
        }
        let direction = v.normalize();
        let r = Ray::new(point, direction);
        let intersections = self.intersect(&r);
        let h = hit(&intersections);
        match h {
            Some(hh) => hh.t.lt(distance),
            None => false,
        }
    }

    /// The reflected contribution of an intersection.
    pub fn reflected_color(&self, comps: &Computations, remaining: u32) -> (r: Color)
        requires
            self.wf(),
            self.light is Some,
            comps_wf(*comps, *self),
        ensures
            r == spec_reflected_color(*self, *comps, remaining as nat),
        decreases remaining, 1nat,
    {
        if remaining == 0 {
            return Color::black();
        }
        let reflective = self.objects[comps.object].material.reflective;
        if reflective.lt(Scalar::from_raw(EPSILON)) {
            return Color::black();
        }
        let reflect_ray = Ray::new(comps.over_point, comps.reflectv);
        let color = self.color_at_depth(&reflect_ray, remaining - 1);
        color.scale(reflective)
    }

    /// The refracted contribution of an intersection.
    pub fn refracted_color(&self, comps: &Computations, remaining: u32) -> (r: Color)
        requires
            self.wf(),
            self.light is Some,
            comps_wf(*comps, *self),
        ensures
            r == spec_refracted_color(*self, *comps, remaining as nat),
        decreases remaining, 1nat,
    {
        if remaining == 0 {
            return Color::black();
        }
        let transparency = self.objects[comps.object].material.transparency;
        if transparency.is_zero() {
            return Color::black();
        }
        let one = Scalar::one();
        let n_ratio = comps.n1.div(comps.n2);
        let cos_i = comps.eyev.dot(comps.normalv);
        let sin2_t = n_ratio.mul(n_ratio).mul(one.sub(cos_i.mul(cos_i)));
        if sin2_t.gt(one) {
            return Color::black();
        }
        let cos_t = one.sub(sin2_t).sqrt_val();
        proof {
            lemma_fmul_zero(fsub(fmul(n_ratio@, cos_i@), cos_t@));
            lemma_fmul_zero(n_ratio@);
        }
        let direction = comps.normalv.mul(n_ratio.mul(cos_i).sub(cos_t)).sub(
            comps.eyev.mul(n_ratio),
        );
        let refract_ray = Ray::new(comps.under_point, direction);
        let color = self.color_at_depth(&refract_ray, remaining - 1);
        color.scale(transparency)
    }

    /// The full shade of an intersection's derived state.
    pub fn shade_hit(&self, comps: Computations, remaining: u32) -> (r: Color)
        requires
            self.wf(),
            self.light is Some,
            comps_wf(comps, *self),
        ensures
            r == spec_shade_hit(*self, comps, remaining as nat),
        decreases remaining, 2nat,
    {
        let light = self.light.unwrap();
        let in_shadow = self.is_shadowed(comps.over_point);
        let surface = lighting(
            &self.objects[comps.object].material,
            &self.objects[comps.object],
            &light,
            comps.over_point,
            comps.eyev,
            comps.normalv,
            in_shadow,
        );
        let reflected = self.reflected_color(&comps, remaining);
        let refracted = self.refracted_color(&comps, remaining);
        let reflective = self.objects[comps.object].material.reflective;
        let transparency = self.objects[comps.object].material.transparency;
        if reflective.gt(Scalar::zero()) && transparency.gt(Scalar::zero()) {
            let reflectance = schlick(&comps);
            surface.add(reflected.scale(reflectance)).add(
                refracted.scale(Scalar::one().sub(reflectance)),
            )
        } else {
            surface.add(reflected).add(refracted)
        }
    }

    /// The color seen along a ray with the given recursion allowance.
    pub fn color_at_depth(&self, r: &Ray, remaining: u32) -> (c: Color)
        requires
            self.wf(),
            self.light is Some,
            ray_wf(*r),
        ensures
            c == spec_color_at(*self, *r, remaining as nat),
        decreases remaining, 3nat,
    {
        if remaining == 0 {
            return Color::black();
        }
        let xs = self.intersect(r);
        let h = hit(&xs);
        match h {
            None => Color::black(),
            Some(i) => {
                proof {
                    crate::intersections::lemma_hit_properties(xs@);
                    let k = choose|k: int| 0 <= k < xs@.len() && xs@[k] == i;
                    assert(xs@[k].object < self.objects@.len());
                }
                let comps = i.prepare_computations(r, Some(&xs), &self.objects);
                proof {
                    assert(comps_wf(comps, *self));
                }
                self.shade_hit(comps, remaining)
            },
        }
    }

    /// The color seen along a primary ray, with the full recursion
    /// allowance.
    pub fn color_at(&self, r: &Ray) -> (c: Color)
        requires
            self.wf(),
            self.light is Some,
            ray_wf(*r),
        ensures
            c == spec_color_at(*self, *r, MAX_RECURSION_DEPTH as nat),
    {
        self.color_at_depth(r, MAX_RECURSION_DEPTH)
    }
}

/// The determinant of the uniform scaling by one half is one eighth.
pub proof fn lemma_half_scaling_det()
    ensures
        det_spec(scaling_spec(500_000_000, 500_000_000, 500_000_000)) == 125_000_000,
{
    let s = SCALE as int;
    let h = 500_000_000int;
    lemma_fmul_one(s);
    lemma_fmul_one(h);
    let m = scaling_spec(h, h, h);
    let n3 = seq![seq![h, 0int, 0int], seq![0int, h, 0int], seq![0int, 0int, s]];
    let n2 = seq![seq![h, 0int], seq![0int, s]];
    let n1 = seq![seq![s]];
    assert(crate::matrices::det_spec(n1) == s);
    assert(crate::matrices::submatrix_spec(n2, 0, 0) =~~= n1);
    assert(crate::matrices::cof_spec(n2, 0, 0) == s);
    lemma_fmul_zero(crate::matrices::cof_spec(n2, 0, 1));
    assert(crate::matrices::det_acc(n2, 0) == 0);
    assert(crate::matrices::det_acc(n2, 1) == fadd(0, fmul(h, s)));
    assert(crate::matrices::det_acc(n2, 2) == fadd(h, fmul(0, crate::matrices::cof_spec(n2, 0, 1))));
    assert(crate::matrices::det_spec(n2) == h);
    assert(crate::matrices::submatrix_spec(n3, 0, 0) =~~= n2);
    assert(crate::matrices::cof_spec(n3, 0, 0) == h);
    lemma_fmul_zero(crate::matrices::cof_spec(n3, 0, 1));
    lemma_fmul_zero(crate::matrices::cof_spec(n3, 0, 2));
    assert(fmul(h, h) == 250_000_000);
    assert(crate::matrices::det_acc(n3, 0) == 0);
    assert(crate::matrices::det_acc(n3, 1) == fadd(0, fmul(h, h)));
    assert(crate::matrices::det_acc(n3, 2) == fadd(250_000_000, fmul(0, crate::matrices::cof_spec(n3, 0, 1))));
    assert(crate::matrices::det_acc(n3, 3) == fadd(250_000_000, fmul(0, crate::matrices::cof_spec(n3, 0, 2))));
    assert(crate::matrices::det_spec(n3) == 250_000_000);
    assert(crate::matrices::submatrix_spec(m, 0, 0) =~~= n3);
    assert(crate::matrices::cof_spec(m, 0, 0) == 250_000_000);
    lemma_fmul_zero(crate::matrices::cof_spec(m, 0, 1));
    lemma_fmul_zero(crate::matrices::cof_spec(m, 0, 2));
    lemma_fmul_zero(crate::matrices::cof_spec(m, 0, 3));
    assert(fmul(h, 250_000_000) == 125_000_000);
    assert(crate::matrices::det_acc(m, 0) == 0);
    assert(crate::matrices::det_acc(m, 1) == fadd(0, fmul(h, 250_000_000)));
    assert(crate::matrices::det_acc(m, 2) == fadd(125_000_000, fmul(0, crate::matrices::cof_spec(m, 0, 1))));
    assert(crate::matrices::det_acc(m, 3) == fadd(125_000_000, fmul(0, crate::matrices::cof_spec(m, 0, 2))));
    assert(crate::matrices::det_acc(m, 4) == fadd(125_000_000, fmul(0, crate::matrices::cof_spec(m, 0, 3))));
    assert(crate::matrices::det_spec(m) == 125_000_000);
}

/// The book's default scene: two spheres, the outer colored and the
/// inner shrunk by half, lit from the upper left.
pub fn default_world() -> (w: World)
    ensures
        w.wf(),
        w.light is Some,
        w.objects@.len() == 2,
        w.objects@[0].kind == ShapeKind::Sphere,
        w.objects@[1].kind == ShapeKind::Sphere,
        w.objects@[0].material == (Material {
            color: Color {
                red: Scalar { raw: 800_000_000 },
                green: Scalar { raw: 1_000_000_000 },
                blue: Scalar { raw: 600_000_000 },
            },
            diffuse: Scalar { raw: 700_000_000 },
            specular: Scalar { raw: 200_000_000 },
            ..crate::materials::default_material_spec()
        }),
        w.objects@[0].material.color.red@ == 800_000_000,
        w.objects@[0].material.color.green@ == SCALE,
        w.objects@[0].material.color.blue@ == 600_000_000,
        w.objects@[0].material.diffuse@ == 700_000_000,
        w.objects@[0].material.specular@ == 200_000_000,
        w.objects@[0].transform@ == crate::matrices::identity_spec(4),
        w.objects@[1].transform@ == scaling_spec(500_000_000, 500_000_000, 500_000_000),
        w.objects@[1].material == crate::materials::default_material_spec(),
        w.light.unwrap().position.x@ == -10 * SCALE,
        w.light.unwrap().position.y@ == 10 * SCALE,
        w.light.unwrap().position.z@ == -10 * SCALE,
        w.light.unwrap().intensity.red@ == SCALE,
        w.light.unwrap().intensity.green@ == SCALE,
        w.light.unwrap().intensity.blue@ == SCALE,
{
    let light = point_light(
        crate::tuples::point(
            Scalar::from_int(-10),
            Scalar::from_int(10),
            Scalar::from_int(-10),
        ),
        Color::white(),
    );
    let mut s1 = sphere();
    s1.material.color = Color::new(
        Scalar::from_raw(800_000_000),
        Scalar::one(),
        Scalar::from_raw(600_000_000),
    );
    s1.material.diffuse = Scalar::from_raw(700_000_000);
    s1.material.specular = Scalar::from_raw(200_000_000);
    let half = Scalar::from_raw(500_000_000);
    let m = scaling(half, half, half);
    proof {
        lemma_half_scaling_det();
    }
    let s2 = Shape::with_transform(ShapeKind::Sphere, m);
    World { objects: vec![s1, s2], light: Some(light) }
}

/// The recursion floor: once the depth allowance is spent, every
/// recursive contribution is black, whatever the scene holds — two
/// mutually reflective surfaces cannot recurse without bound.
pub proof fn lemma_recursion_floor(w: World, c: Computations, r: Ray)
    ensures
        spec_color_at(w, r, 0) == spec_black(),
        spec_reflected_color(w, c, 0) == spec_black(),
        spec_refracted_color(w, c, 0) == spec_black(),
{
}

/// The world normal has a vanishing `w`, normalized or not.
pub proof fn lemma_fdiv_zero_for_normal(s: Shape, p: Tuple4)
    ensures
        normal_at_spec(s, p).w@ == 0,
{
    let ti = crate::matrices::inverse_spec(s.transform@);
    let local_point = crate::rays::spec_mul_tuple(ti, p);
    let local_normal = crate::shapes::local_normal_spec(s.kind, local_point);
    let wn = crate::rays::spec_mul_tuple(crate::matrices::transpose_spec(ti), local_normal);
    let v = crate::tuples::t4(wn.x@, wn.y@, wn.z@, 0);
    if spec_magnitude(v) != 0 {
        lemma_fdiv_zero(spec_magnitude(v));
    }
}

} // verus!
