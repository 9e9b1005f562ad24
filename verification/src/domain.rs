//! Declared input envelopes of the realization engine, and the checks that
//! accept or refuse them before any interval arithmetic runs.
//!
//! Every envelope is an [`EnvelopeBits`], the bit patterns of its two `f64`
//! endpoints.  An evaluation domain binds one envelope per input of a
//! mirrored graph, in the graph's declaration order, under the input's label
//! (`"origin.x"`).
use vstd::prelude::*;

use crate::realization::{
    plane_distance_graph_nodes, ray_plane_graph_nodes, slab_graph_nodes, DomainError,
    DomainErrorView, EnvelopeBits, OpKind,
};
use crate::text::owned;

verus! {

/// The name of axis `i`, in the order the artifact processes them.
pub open spec fn axis_name(i: int) -> Seq<char> {
    if i == 0 {
        "x"@
    } else if i == 1 {
        "y"@
    } else {
        "z"@
    }
}

/// The label of component `i` of a three-axis input: `prefix.axis`.
pub open spec fn axis_label(prefix: Seq<char>, i: int) -> Seq<char> {
    prefix + "."@ + axis_name(i)
}

/// The three components of a three-axis input, each under its label.
pub open spec fn labeled(prefix: Seq<char>, arr: Seq<EnvelopeBits>) -> Seq<(Seq<char>, EnvelopeBits)> {
    seq![
        (axis_label(prefix, 0), arr[0]),
        (axis_label(prefix, 1), arr[1]),
        (axis_label(prefix, 2), arr[2]),
    ]
}

/// Labeled envelopes, with each label taken by its characters.
pub open spec fn labeled_view(v: Seq<(String, EnvelopeBits)>) -> Seq<(Seq<char>, EnvelopeBits)> {
    v.map_values(|p: (String, EnvelopeBits)| (p.0@, p.1))
}

/// The label of the first input whose envelope is not finite.
pub open spec fn first_unbounded(inputs: Seq<(Seq<char>, EnvelopeBits)>) -> Option<Seq<char>>
    decreases inputs.len(),
{
    if inputs.len() == 0 {
        None
    } else if !inputs[0].1.finite() {
        Some(inputs[0].0)
    } else {
        first_unbounded(inputs.drop_first())
    }
}

/// The refusal for the first input whose envelope is not finite.
pub open spec fn unbounded_refusal(inputs: Seq<(Seq<char>, EnvelopeBits)>) -> Option<DomainErrorView> {
    match first_unbounded(inputs) {
        Some(name) => Some(DomainErrorView::NotFinite(name)),
        None => None,
    }
}

/// The first of two refusals, checked in order.
pub open spec fn either(a: Option<DomainErrorView>, b: Option<DomainErrorView>) -> Option<
    DomainErrorView,
> {
    if a is Some {
        a
    } else {
        b
    }
}

/// A check's outcome is the refusal `v`: `Ok` when there is none, else an
/// error whose view is `v`.
pub open spec fn refused_as(r: Result<(), DomainError>, v: Option<DomainErrorView>) -> bool {
    match v {
        None => r is Ok,
        Some(view) => r matches Err(e) && e@ == view,
    }
}

/// Building a domain from `inputs` gives the domain itself when every
/// envelope is finite, else the refusal naming the first input that is not.
pub open spec fn admitted(inputs: Seq<(Seq<char>, EnvelopeBits)>, r: Result<EvalDomain, DomainError>) -> bool {
    match first_unbounded(inputs) {
        None => r matches Ok(d) && d@ == inputs,
        Some(name) => r matches Err(e) && e@ == DomainErrorView::NotFinite(name),
    }
}

/// The envelope bound to `name`: that of the first input with that label.
pub open spec fn bound_to(inputs: Seq<(Seq<char>, EnvelopeBits)>, name: Seq<char>) -> Option<
    EnvelopeBits,
>
    decreases inputs.len(),
{
    if inputs.len() == 0 {
        None
    } else if inputs[0].0 == name {
        Some(inputs[0].1)
    } else {
        bound_to(inputs.drop_first(), name)
    }
}

/// The first unbounded input of a concatenation is that of its first part,
/// if it has one, else that of its second.
proof fn lemma_unbounded_concat(a: Seq<(Seq<char>, EnvelopeBits)>, b: Seq<(Seq<char>, EnvelopeBits)>)
    ensures
        unbounded_refusal(a + b) == either(unbounded_refusal(a), unbounded_refusal(b)),
    decreases a.len(),
{
    if a.len() == 0 {
        assert(a + b =~= b);
    } else {
        assert((a + b)[0] == a[0]);
        assert((a + b).drop_first() =~= a.drop_first() + b);
        lemma_unbounded_concat(a.drop_first(), b);
    }
}

/// The first unbounded component of a three-axis input.
proof fn lemma_unbounded_labeled(prefix: Seq<char>, arr: Seq<EnvelopeBits>)
    ensures
        first_unbounded(labeled(prefix, arr)) == (if !arr[0].finite() {
            Some(axis_label(prefix, 0))
        } else if !arr[1].finite() {
            Some(axis_label(prefix, 1))
        } else if !arr[2].finite() {
            Some(axis_label(prefix, 2))
        } else {
            None
        }),
{
    let s = labeled(prefix, arr);
    let s1 = s.drop_first();
    let s2 = s1.drop_first();
    let s3 = s2.drop_first();
    assert(s1 =~= seq![(axis_label(prefix, 1), arr[1]), (axis_label(prefix, 2), arr[2])]);
    assert(s2 =~= seq![(axis_label(prefix, 2), arr[2])]);
    assert(s3 =~= Seq::<(Seq<char>, EnvelopeBits)>::empty());
    assert(first_unbounded(s3) == None::<Seq<char>>);
    assert(first_unbounded(s2) == (if !arr[2].finite() {
        Some(axis_label(prefix, 2))
    } else {
        None
    }));
    assert(first_unbounded(s1) == (if !arr[1].finite() {
        Some(axis_label(prefix, 1))
    } else if !arr[2].finite() {
        Some(axis_label(prefix, 2))
    } else {
        None
    }));
}

/// Skipping one more input past one that is finite and differently labeled
/// changes neither scan.
proof fn lemma_skip_step(s: Seq<(Seq<char>, EnvelopeBits)>, i: int)
    requires
        0 <= i < s.len(),
    ensures
        s.skip(i).len() > 0,
        s.skip(i)[0] == s[i],
        s.skip(i).drop_first() =~= s.skip(i + 1),
{
}

fn axis_str(i: usize) -> (r: &'static str)
    requires
        i < 3,
    ensures
        r@ == axis_name(i as int),
{
    if i == 0 {
        "x"
    } else if i == 1 {
        "y"
    } else {
        "z"
    }
}

fn label_of(prefix: &str, i: usize) -> (r: String)
    requires
        i < 3,
    ensures
        r@ == axis_label(prefix@, i as int),
{
    let mut s = owned(prefix);
    s.append(".");
    s.append(axis_str(i));
    s
}

/// Refuses the first component of a three-axis input that is not finite.
fn check_axes(prefix: &str, arr: &[EnvelopeBits; 3]) -> (r: Result<(), DomainError>)
    ensures
        refused_as(r, unbounded_refusal(labeled(prefix@, arr@))),
{
    proof {
        lemma_unbounded_labeled(prefix@, arr@);
    }
    let mut i: usize = 0;
    while i < 3
        invariant
            i <= 3,
            forall|k: int| 0 <= k < i ==> (#[trigger] arr@[k]).finite(),
        decreases 3 - i,
    {
        let e = arr[i];
        assert(e == arr@[i as int]);
        if !e.is_finite() {
            let name = label_of(prefix, i);
            proof {
                lemma_unbounded_labeled(prefix@, arr@);
                if i >= 1 {
                    assert(arr@[0].finite());
                }
                if i == 2 {
                    assert(arr@[1].finite());
                }
            }
            return Err(DomainError::NotFinite(name));
        }
        i += 1;
    }
    Ok(())
}

/// Appends the labeled components of a three-axis input.
fn push_axes(inputs: &mut Vec<(String, EnvelopeBits)>, prefix: &str, arr: &[EnvelopeBits; 3])
    ensures
        labeled_view(final(inputs)@) == labeled_view(old(inputs)@) + labeled(prefix@, arr@),
{
    let ghost start = labeled_view(inputs@);
    let mut i: usize = 0;
    while i < 3
        invariant
            i <= 3,
            labeled_view(inputs@) == start + labeled(prefix@, arr@).take(i as int),
        decreases 3 - i,
    {
        let ghost before = inputs@;
        inputs.push((label_of(prefix, i), arr[i]));
        proof {
            assert(labeled_view(inputs@) =~= labeled_view(before).push(
                (axis_label(prefix@, i as int), arr@[i as int]),
            ));
            assert(labeled(prefix@, arr@).take(i + 1) =~= labeled(prefix@, arr@).take(
                i as int,
            ).push((axis_label(prefix@, i as int), arr@[i as int])));
        }
        i += 1;
    }
    assert(labeled(prefix@, arr@).take(3) =~= labeled(prefix@, arr@));
}

/// The declared input envelope for a graph evaluation: one envelope per
/// input slot, in declaration order.
#[derive(Clone, Debug, PartialEq)]
pub struct EvalDomain {
    /// Each input's label and envelope.
    pub inputs: Vec<(String, EnvelopeBits)>,
}

impl View for EvalDomain {
    type V = Seq<(Seq<char>, EnvelopeBits)>;

    open spec fn view(&self) -> Seq<(Seq<char>, EnvelopeBits)> {
        labeled_view(self.inputs@)
    }
}

impl EvalDomain {
    /// Builds a domain, refusing the first input whose envelope is not
    /// finite.
    pub fn new(inputs: Vec<(String, EnvelopeBits)>) -> (r: Result<Self, DomainError>)
        ensures
            admitted(labeled_view(inputs@), r),
    {
        let ghost all = labeled_view(inputs@);
        assert(all.skip(0) =~= all);
        let mut i: usize = 0;
        while i < inputs.len()
            invariant
                i <= inputs.len(),
                all == labeled_view(inputs@),
                first_unbounded(all) == first_unbounded(all.skip(i as int)),
            decreases inputs.len() - i,
        {
            proof {
                lemma_skip_step(all, i as int);
            }
            if !inputs[i].1.is_finite() {
                return Err(DomainError::NotFinite(inputs[i].0.clone()));
            }
            i += 1;
        }
        assert(all.skip(i as int) =~= Seq::<(Seq<char>, EnvelopeBits)>::empty());
        Ok(EvalDomain { inputs })
    }

    /// The envelope bound to `name`, if any input carries that label.
    pub fn get(&self, name: &str) -> (r: Option<EnvelopeBits>)
        ensures
            r == bound_to(self@, name@),
    {
        let ghost all = self@;
        assert(all.skip(0) =~= all);
        let mut i: usize = 0;
        while i < self.inputs.len()
            invariant
                i <= self.inputs.len(),
                all == self@,
                bound_to(all, name@) == bound_to(all.skip(i as int), name@),
            decreases self.inputs.len() - i,
        {
            proof {
                lemma_skip_step(all, i as int);
            }
            if crate::text::str_eq(self.inputs[i].0.as_str(), name) {
                return Some(self.inputs[i].1);
            }
            i += 1;
        }
        assert(all.skip(i as int) =~= Seq::<(Seq<char>, EnvelopeBits)>::empty());
        None
    }
}

/// The refusal for direction component `i`: not finite, or spanning zero.
pub open spec fn axis_refusal(dir: Seq<EnvelopeBits>, i: int) -> Option<DomainErrorView> {
    if !dir[i].finite() {
        Some(DomainErrorView::NotFinite(axis_label("direction"@, i)))
    } else if !dir[i].zero_excluded() {
        Some(DomainErrorView::DirectionSpansZero(axis_name(i)))
    } else {
        None
    }
}

/// The declared f64 operating envelope for the ray-AABB realization.
///
/// `box_min`/`box_max`/`origin` are per-axis coordinate envelopes,
/// `direction` the per-axis ray direction envelopes (sign-definite, bounded
/// away from zero), and `t_max` the bounded entry distance of the hit test.
#[derive(Clone, Debug, PartialEq)]
pub struct InputDomain {
    pub box_min: [EnvelopeBits; 3],
    pub box_max: [EnvelopeBits; 3],
    pub origin: [EnvelopeBits; 3],
    pub direction: [EnvelopeBits; 3],
    pub t_max: EnvelopeBits,
}

/// Why a ray-AABB domain is refused, checked in order: each direction
/// component (finite, then away from zero), then the finiteness of every
/// `box_min`, `box_max` and `origin` component and of `t_max`.
pub open spec fn slab_refusal(d: InputDomain) -> Option<DomainErrorView> {
    either(
        either(
            axis_refusal(d.direction@, 0),
            either(axis_refusal(d.direction@, 1), axis_refusal(d.direction@, 2)),
        ),
        unbounded_refusal(
            labeled("box_min"@, d.box_min@) + labeled("box_max"@, d.box_max@) + labeled(
                "origin"@,
                d.origin@,
            ) + seq![("t_max"@, d.t_max)],
        ),
    )
}

/// The engine inputs of a ray-AABB domain, in the slab graph's declaration
/// order; `t_max` is not among them.
pub open spec fn slab_inputs(d: InputDomain) -> Seq<(Seq<char>, EnvelopeBits)> {
    labeled("box_min"@, d.box_min@) + labeled("box_max"@, d.box_max@) + labeled(
        "origin"@,
        d.origin@,
    ) + labeled("direction"@, d.direction@)
}

/// A ray-AABB domain that passes its check also yields its engine domain:
/// every input the slab graph binds was found finite by the check.
pub proof fn lemma_bounded_domain_evaluates(d: InputDomain)
    requires
        slab_refusal(d) is None,
    ensures
        first_unbounded(slab_inputs(d)) is None,
{
    let a = labeled("box_min"@, d.box_min@);
    let b = labeled("box_max"@, d.box_max@);
    let c = labeled("origin"@, d.origin@);
    let t: Seq<(Seq<char>, EnvelopeBits)> = seq![("t_max"@, d.t_max)];
    let dir = labeled("direction"@, d.direction@);
    lemma_unbounded_concat(a, b);
    lemma_unbounded_concat(a + b, c);
    lemma_unbounded_concat(a + b + c, t);
    lemma_unbounded_concat(a + b + c, dir);
    lemma_unbounded_labeled("direction"@, d.direction@);
    assert(axis_refusal(d.direction@, 0) is None);
    assert(axis_refusal(d.direction@, 1) is None);
    assert(axis_refusal(d.direction@, 2) is None);
}

impl InputDomain {
    /// Validates the domain; `None` when [`InputDomain::check_bounded`]
    /// refuses it.
    pub fn new(
        box_min: [EnvelopeBits; 3],
        box_max: [EnvelopeBits; 3],
        origin: [EnvelopeBits; 3],
        direction: [EnvelopeBits; 3],
        t_max: EnvelopeBits,
    ) -> (r: Option<Self>)
        ensures
            r == (if slab_refusal(
                (InputDomain { box_min, box_max, origin, direction, t_max }),
            ) is None {
                Some(InputDomain { box_min, box_max, origin, direction, t_max })
            } else {
                None
            }),
    {
        let d = InputDomain { box_min, box_max, origin, direction, t_max };
        match d.check_bounded() {
            Ok(()) => Some(d),
            Err(_) => None,
        }
    }

    /// Refuses a domain with a non-finite input or a direction component
    /// that spans zero, so that every mirrored division is sign-definite and
    /// bounded.
    pub fn check_bounded(&self) -> (r: Result<(), DomainError>)
        ensures
            refused_as(r, slab_refusal(*self)),
    {
        let mut i: usize = 0;
        while i < 3
            invariant
                i <= 3,
                forall|k: int| 0 <= k < i ==> axis_refusal(self.direction@, k) is None,
            decreases 3 - i,
        {
            let d = self.direction[i];
            if !d.is_finite() {
                return Err(DomainError::NotFinite(label_of("direction", i)));
            }
            if !d.excludes_zero() {
                return Err(DomainError::DirectionSpansZero(owned(axis_str(i))));
            }
            assert(axis_refusal(self.direction@, i as int) is None);
            i += 1;
        }
        assert(axis_refusal(self.direction@, 0) is None);
        assert(axis_refusal(self.direction@, 1) is None);
        assert(axis_refusal(self.direction@, 2) is None);
        let ghost a = labeled("box_min"@, self.box_min@);
        let ghost b = labeled("box_max"@, self.box_max@);
        let ghost c = labeled("origin"@, self.origin@);
        let ghost t: Seq<(Seq<char>, EnvelopeBits)> = seq![("t_max"@, self.t_max)];
        proof {
            lemma_unbounded_concat(a, b);
            lemma_unbounded_concat(a + b, c);
            lemma_unbounded_concat(a + b + c, t);
            assert(t.drop_first() =~= Seq::<(Seq<char>, EnvelopeBits)>::empty());
            assert(first_unbounded(t.drop_first()) == None::<Seq<char>>);
        }
        assert(slab_refusal(*self) == unbounded_refusal(a + b + c + t));
        match check_axes("box_min", &self.box_min) {
            Ok(()) => {},
            Err(e) => {
                return Err(e);
            },
        }
        match check_axes("box_max", &self.box_max) {
            Ok(()) => {},
            Err(e) => {
                return Err(e);
            },
        }
        match check_axes("origin", &self.origin) {
            Ok(()) => {},
            Err(e) => {
                return Err(e);
            },
        }
        assert(unbounded_refusal(t) == if self.t_max.finite() {
            None
        } else {
            Some(DomainErrorView::NotFinite("t_max"@))
        });
        if !self.t_max.is_finite() {
            return Err(DomainError::NotFinite(owned("t_max")));
        }
        Ok(())
    }

    /// The engine-facing domain, in the slab graph's input order (all
    /// `box_min` axes, then `box_max`, `origin`, `direction`).
    pub fn eval_domain(&self) -> (r: Result<EvalDomain, DomainError>)
        ensures
            admitted(slab_inputs(*self), r),
    {
        let mut inputs: Vec<(String, EnvelopeBits)> = Vec::new();
        push_axes(&mut inputs, "box_min", &self.box_min);
        push_axes(&mut inputs, "box_max", &self.box_max);
        push_axes(&mut inputs, "origin", &self.origin);
        push_axes(&mut inputs, "direction", &self.direction);
        assert(labeled_view(inputs@) =~= slab_inputs(*self));
        EvalDomain::new(inputs)
    }
}

/// Declared envelope for the point-to-plane signed-distance realization.
#[derive(Clone, Debug, PartialEq)]
pub struct PlaneDistanceDomain {
    /// The query point `p`.
    pub point: [EnvelopeBits; 3],
    /// A point `q` on the plane.
    pub plane_point: [EnvelopeBits; 3],
    /// The plane's normal `n` (any non-zero length).
    pub normal: [EnvelopeBits; 3],
}

/// The engine inputs of a point-to-plane domain, in the distance graph's
/// declaration order.
pub open spec fn plane_distance_inputs(d: PlaneDistanceDomain) -> Seq<(Seq<char>, EnvelopeBits)> {
    labeled("point"@, d.point@) + labeled("plane_point"@, d.plane_point@) + labeled(
        "normal"@,
        d.normal@,
    )
}

impl PlaneDistanceDomain {
    /// Validates finiteness; `None` for a non-finite component.
    pub fn new(point: [EnvelopeBits; 3], plane_point: [EnvelopeBits; 3], normal: [EnvelopeBits; 3]) -> (r:
        Option<Self>)
        ensures
            r == (if first_unbounded(
                plane_distance_inputs((PlaneDistanceDomain { point, plane_point, normal })),
            ) is None {
                Some(PlaneDistanceDomain { point, plane_point, normal })
            } else {
                None
            }),
    {
        let d = PlaneDistanceDomain { point, plane_point, normal };
        match d.check_bounded() {
            Ok(()) => Some(d),
            Err(_) => None,
        }
    }

    /// Refuses the first component that is not finite.  A normal that spans
    /// zero is not refused here: the mirrored division refuses it.
    pub fn check_bounded(&self) -> (r: Result<(), DomainError>)
        ensures
            refused_as(r, unbounded_refusal(plane_distance_inputs(*self))),
    {
        let ghost a = labeled("point"@, self.point@);
        let ghost b = labeled("plane_point"@, self.plane_point@);
        let ghost c = labeled("normal"@, self.normal@);
        proof {
            lemma_unbounded_concat(a, b);
            lemma_unbounded_concat(a + b, c);
        }
        match check_axes("point", &self.point) {
            Ok(()) => {},
            Err(e) => {
                return Err(e);
            },
        }
        match check_axes("plane_point", &self.plane_point) {
            Ok(()) => {},
            Err(e) => {
                return Err(e);
            },
        }
        check_axes("normal", &self.normal)
    }

    /// The engine-facing domain, in the distance graph's input order.
    pub fn eval_domain(&self) -> (r: Result<EvalDomain, DomainError>)
        ensures
            admitted(plane_distance_inputs(*self), r),
    {
        let mut inputs: Vec<(String, EnvelopeBits)> = Vec::new();
        push_axes(&mut inputs, "point", &self.point);
        push_axes(&mut inputs, "plane_point", &self.plane_point);
        push_axes(&mut inputs, "normal", &self.normal);
        assert(labeled_view(inputs@) =~= plane_distance_inputs(*self));
        EvalDomain::new(inputs)
    }
}

/// Declared envelope for the ray-to-plane parameter realization.
#[derive(Clone, Debug, PartialEq)]
pub struct RayPlaneDomain {
    /// The ray origin `o`.
    pub origin: [EnvelopeBits; 3],
    /// The ray direction `d`.
    pub direction: [EnvelopeBits; 3],
    /// A point `q` on the plane.
    pub plane_point: [EnvelopeBits; 3],
    /// The plane's normal `n` (any non-zero length).
    pub normal: [EnvelopeBits; 3],
}

/// The engine inputs of a ray-to-plane domain, in the parameter graph's
/// declaration order.
pub open spec fn ray_plane_inputs(d: RayPlaneDomain) -> Seq<(Seq<char>, EnvelopeBits)> {
    labeled("origin"@, d.origin@) + labeled("direction"@, d.direction@) + labeled(
        "plane_point"@,
        d.plane_point@,
    ) + labeled("normal"@, d.normal@)
}

impl RayPlaneDomain {
    /// Validates finiteness; `None` for a non-finite component.
    pub fn new(
        origin: [EnvelopeBits; 3],
        direction: [EnvelopeBits; 3],
        plane_point: [EnvelopeBits; 3],
        normal: [EnvelopeBits; 3],
    ) -> (r: Option<Self>)
        ensures
            r == (if first_unbounded(
                ray_plane_inputs((RayPlaneDomain { origin, direction, plane_point, normal })),
            ) is None {
                Some(RayPlaneDomain { origin, direction, plane_point, normal })
            } else {
                None
            }),
    {
        let d = RayPlaneDomain { origin, direction, plane_point, normal };
        match d.check_bounded() {
            Ok(()) => Some(d),
            Err(_) => None,
        }
    }

    /// Refuses the first component that is not finite.  A `direction · normal`
    /// that spans zero is refused by the mirrored division, as the artifact's
    /// parallel-ray branch is.
    pub fn check_bounded(&self) -> (r: Result<(), DomainError>)
        ensures
            refused_as(r, unbounded_refusal(ray_plane_inputs(*self))),
    {
        let ghost a = labeled("origin"@, self.origin@);
        let ghost b = labeled("direction"@, self.direction@);
        let ghost c = labeled("plane_point"@, self.plane_point@);
        let ghost n = labeled("normal"@, self.normal@);
        proof {
            lemma_unbounded_concat(a, b);
            lemma_unbounded_concat(a + b, c);
            lemma_unbounded_concat(a + b + c, n);
        }
        match check_axes("origin", &self.origin) {
            Ok(()) => {},
            Err(e) => {
                return Err(e);
            },
        }
        match check_axes("direction", &self.direction) {
            Ok(()) => {},
            Err(e) => {
                return Err(e);
            },
        }
        match check_axes("plane_point", &self.plane_point) {
            Ok(()) => {},
            Err(e) => {
                return Err(e);
            },
        }
        check_axes("normal", &self.normal)
    }

    /// The engine-facing domain, in the parameter graph's input order.
    pub fn eval_domain(&self) -> (r: Result<EvalDomain, DomainError>)
        ensures
            admitted(ray_plane_inputs(*self), r),
    {
        let mut inputs: Vec<(String, EnvelopeBits)> = Vec::new();
        push_axes(&mut inputs, "origin", &self.origin);
        push_axes(&mut inputs, "direction", &self.direction);
        push_axes(&mut inputs, "plane_point", &self.plane_point);
        push_axes(&mut inputs, "normal", &self.normal);
        assert(labeled_view(inputs@) =~= ray_plane_inputs(*self));
        EvalDomain::new(inputs)
    }
}

/// Evaluation binds inputs by position, so each engine domain lists its
/// inputs in the declaration order of the graph it feeds: input `i` carries
/// the label of the graph's input node `i` and the envelope of that very
/// component of the domain.
pub proof fn lemma_domains_follow_graph_order(
    slab: InputDomain,
    plane: PlaneDistanceDomain,
    ray: RayPlaneDomain,
)
    ensures
        slab_inputs(slab).len() == 12,
        forall|i: int|
            0 <= i < 12 ==> slab_inputs(slab)[i].0 == (#[trigger] slab_graph_nodes()[i]).0
                && slab_graph_nodes()[i].1 == OpKind::Input,
        forall|i: int|
            #![trigger slab.box_min@[i]]
            0 <= i < 3 ==> slab_inputs(slab)[i].1 == slab.box_min@[i] && slab_inputs(slab)[3
                + i].1 == slab.box_max@[i] && slab_inputs(slab)[6 + i].1 == slab.origin@[i]
                && slab_inputs(slab)[9 + i].1 == slab.direction@[i],
        plane_distance_inputs(plane).len() == 9,
        forall|i: int|
            0 <= i < 9 ==> plane_distance_inputs(plane)[i].0 == (
            #[trigger] plane_distance_graph_nodes()[i]).0 && plane_distance_graph_nodes()[i].1
                == OpKind::Input,
        forall|i: int|
            #![trigger plane.point@[i]]
            0 <= i < 3 ==> plane_distance_inputs(plane)[i].1 == plane.point@[i]
                && plane_distance_inputs(plane)[3 + i].1 == plane.plane_point@[i]
                && plane_distance_inputs(plane)[6 + i].1 == plane.normal@[i],
        ray_plane_inputs(ray).len() == 12,
        forall|i: int|
            0 <= i < 12 ==> ray_plane_inputs(ray)[i].0 == (#[trigger] ray_plane_graph_nodes()[i]).0
                && ray_plane_graph_nodes()[i].1 == OpKind::Input,
        forall|i: int|
            #![trigger ray.origin@[i]]
            0 <= i < 3 ==> ray_plane_inputs(ray)[i].1 == ray.origin@[i] && ray_plane_inputs(ray)[3
                + i].1 == ray.direction@[i] && ray_plane_inputs(ray)[6 + i].1
                == ray.plane_point@[i] && ray_plane_inputs(ray)[9 + i].1 == ray.normal@[i],
{
    reveal_strlit(".");
    reveal_strlit("box_max");
    reveal_strlit("box_max.x");
    reveal_strlit("box_max.y");
    reveal_strlit("box_max.z");
    reveal_strlit("box_min");
    reveal_strlit("box_min.x");
    reveal_strlit("box_min.y");
    reveal_strlit("box_min.z");
    reveal_strlit("direction");
    reveal_strlit("direction.x");
    reveal_strlit("direction.y");
    reveal_strlit("direction.z");
    reveal_strlit("normal");
    reveal_strlit("normal.x");
    reveal_strlit("normal.y");
    reveal_strlit("normal.z");
    reveal_strlit("origin");
    reveal_strlit("origin.x");
    reveal_strlit("origin.y");
    reveal_strlit("origin.z");
    reveal_strlit("plane_point");
    reveal_strlit("plane_point.x");
    reveal_strlit("plane_point.y");
    reveal_strlit("plane_point.z");
    reveal_strlit("point");
    reveal_strlit("point.x");
    reveal_strlit("point.y");
    reveal_strlit("point.z");
    reveal_strlit("x");
    reveal_strlit("y");
    reveal_strlit("z");
    assert(axis_label("box_min"@, 0) =~= "box_min.x"@);
    assert(axis_label("box_min"@, 1) =~= "box_min.y"@);
    assert(axis_label("box_min"@, 2) =~= "box_min.z"@);
    assert(axis_label("box_max"@, 0) =~= "box_max.x"@);
    assert(axis_label("box_max"@, 1) =~= "box_max.y"@);
    assert(axis_label("box_max"@, 2) =~= "box_max.z"@);
    assert(axis_label("origin"@, 0) =~= "origin.x"@);
    assert(axis_label("origin"@, 1) =~= "origin.y"@);
    assert(axis_label("origin"@, 2) =~= "origin.z"@);
    assert(axis_label("direction"@, 0) =~= "direction.x"@);
    assert(axis_label("direction"@, 1) =~= "direction.y"@);
    assert(axis_label("direction"@, 2) =~= "direction.z"@);
    assert(axis_label("point"@, 0) =~= "point.x"@);
    assert(axis_label("point"@, 1) =~= "point.y"@);
    assert(axis_label("point"@, 2) =~= "point.z"@);
    assert(axis_label("plane_point"@, 0) =~= "plane_point.x"@);
    assert(axis_label("plane_point"@, 1) =~= "plane_point.y"@);
    assert(axis_label("plane_point"@, 2) =~= "plane_point.z"@);
    assert(axis_label("normal"@, 0) =~= "normal.x"@);
    assert(axis_label("normal"@, 1) =~= "normal.y"@);
    assert(axis_label("normal"@, 2) =~= "normal.z"@);
    assert(slab_inputs(slab) =~= seq![
        ("box_min.x"@, slab.box_min@[0]),
        ("box_min.y"@, slab.box_min@[1]),
        ("box_min.z"@, slab.box_min@[2]),
        ("box_max.x"@, slab.box_max@[0]),
        ("box_max.y"@, slab.box_max@[1]),
        ("box_max.z"@, slab.box_max@[2]),
        ("origin.x"@, slab.origin@[0]),
        ("origin.y"@, slab.origin@[1]),
        ("origin.z"@, slab.origin@[2]),
        ("direction.x"@, slab.direction@[0]),
        ("direction.y"@, slab.direction@[1]),
        ("direction.z"@, slab.direction@[2]),
    ]);
    assert(plane_distance_inputs(plane) =~= seq![
        ("point.x"@, plane.point@[0]),
        ("point.y"@, plane.point@[1]),
        ("point.z"@, plane.point@[2]),
        ("plane_point.x"@, plane.plane_point@[0]),
        ("plane_point.y"@, plane.plane_point@[1]),
        ("plane_point.z"@, plane.plane_point@[2]),
        ("normal.x"@, plane.normal@[0]),
        ("normal.y"@, plane.normal@[1]),
        ("normal.z"@, plane.normal@[2]),
    ]);
    assert(ray_plane_inputs(ray) =~= seq![
        ("origin.x"@, ray.origin@[0]),
        ("origin.y"@, ray.origin@[1]),
        ("origin.z"@, ray.origin@[2]),
        ("direction.x"@, ray.direction@[0]),
        ("direction.y"@, ray.direction@[1]),
        ("direction.z"@, ray.direction@[2]),
        ("plane_point.x"@, ray.plane_point@[0]),
        ("plane_point.y"@, ray.plane_point@[1]),
        ("plane_point.z"@, ray.plane_point@[2]),
        ("normal.x"@, ray.normal@[0]),
        ("normal.y"@, ray.normal@[1]),
        ("normal.z"@, ray.normal@[2]),
    ]);
}

} // verus!
