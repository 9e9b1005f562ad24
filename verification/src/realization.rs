//! Realization-layer bookkeeping: the hit/miss classification of a bounded
//! domain, the refusal reasons of an `ε` derivation, the certificate-facing
//! summary of a derived bound, and the mirrored operation graphs.
//!
//! The interval arithmetic that turns a graph and a domain into envelopes is
//! IEEE-754 floating point and is carried out outside this crate.  Values it
//! produces travel here as the bit patterns of their `f64`s (`f64::to_bits`),
//! so they are carried and compared exactly without float arithmetic.
use vstd::prelude::*;

use crate::float_bits::{
    f64_bits_is_finite, f64_bits_is_nan, f64_bits_is_negative, f64_bits_is_positive, f64_bits_le,
    f64_bits_lt, is_finite_bits, is_nan_bits, is_negative_bits, is_positive_bits, le_bits, lt_bits,
    next_down,
    next_down_bits, next_up, next_up_bits,
};
use crate::text::{append_decimal, decimal, owned};

pub use crate::domain::{EvalDomain, InputDomain, PlaneDistanceDomain, RayPlaneDomain};

verus! {

/// Identity of the engine that produces the bounds.
pub const ENGINE_ID: &'static str = "tpt-certus-proof realization v1 (outward-rounded interval arithmetic)";

/// Whether the realization decision is decisive over the whole domain.
#[derive(Clone, Copy, Debug, PartialEq, Eq)]
pub enum Decision {
    /// The artifact returns a hit for every input in the domain.
    GuaranteedHit,
    /// The artifact returns a miss for every input in the domain.
    GuaranteedMiss,
    /// The envelope straddles the decision boundary: no hit/miss obligation.
    Indeterminate,
}

/// The obligation a classification puts on the artifact: `Some(true)` a hit
/// for every input, `Some(false)` a miss for every input, `None` nothing.
pub open spec fn obligation_of(d: Decision) -> Option<bool> {
    match d {
        Decision::GuaranteedHit => Some(true),
        Decision::GuaranteedMiss => Some(false),
        Decision::Indeterminate => None,
    }
}

/// Whether an observed artifact outcome is consistent with a classification.
pub open spec fn agrees(d: Decision, artifact_hit: bool) -> bool {
    match obligation_of(d) {
        Some(expected) => expected == artifact_hit,
        None => true,
    }
}

/// The variant name of a decision, as its `Debug` form prints it.
pub open spec fn decision_name(d: Decision) -> Seq<char> {
    match d {
        Decision::GuaranteedHit => "GuaranteedHit"@,
        Decision::GuaranteedMiss => "GuaranteedMiss"@,
        Decision::Indeterminate => "Indeterminate"@,
    }
}

impl Decision {
    /// Whether the artifact is guaranteed to return `Some` over the domain.
    pub fn guarantees_hit(&self) -> (r: bool)
        ensures
            r == (*self == Decision::GuaranteedHit),
    {
        match self {
            Decision::GuaranteedHit => true,
            _ => false,
        }
    }

    /// Whether the artifact is guaranteed to return `None` over the domain.
    pub fn guarantees_miss(&self) -> (r: bool)
        ensures
            r == (*self == Decision::GuaranteedMiss),
    {
        match self {
            Decision::GuaranteedMiss => true,
            _ => false,
        }
    }

    /// The artifact obligation implied by this classification.
    pub fn artifact_obligation(&self) -> (r: Option<bool>)
        ensures
            r == obligation_of(*self),
    {
        match self {
            Decision::GuaranteedHit => Some(true),
            Decision::GuaranteedMiss => Some(false),
            Decision::Indeterminate => None,
        }
    }

    /// The no-false-negative obligation for one observed artifact outcome: a
    /// decisive domain must agree with the artifact, while `Indeterminate`
    /// claims nothing and therefore always agrees.
    pub fn agrees_with_artifact(&self, artifact_hit: bool) -> (r: bool)
        ensures
            r == agrees(*self, artifact_hit),
    {
        match self.artifact_obligation() {
            Some(expected) => expected == artifact_hit,
            None => true,
        }
    }

    /// The variant name, as `Debug` prints it.
    pub fn name(&self) -> (r: &'static str)
        ensures
            r@ == decision_name(*self),
    {
        match self {
            Decision::GuaranteedHit => "GuaranteedHit",
            Decision::GuaranteedMiss => "GuaranteedMiss",
            Decision::Indeterminate => "Indeterminate",
        }
    }
}

/// The classification of a ray-AABB domain from its output envelopes:
/// a hit for every input when the exit stays at or past both the entry and
/// zero and the entry stays within `t_max`; a miss for every input when the
/// entry lies past `t_max`; otherwise no claim.
pub open spec fn slab_decision_of(
    t_near: EnvelopeBits,
    t_far: EnvelopeBits,
    t_min: EnvelopeBits,
    t_max: EnvelopeBits,
) -> Decision {
    if f64_bits_le(t_min.hi, t_far.lo) && f64_bits_le(0, t_far.lo) && f64_bits_le(
        t_near.hi,
        t_max.lo,
    ) {
        Decision::GuaranteedHit
    } else if f64_bits_lt(t_max.hi, t_near.lo) {
        Decision::GuaranteedMiss
    } else {
        Decision::Indeterminate
    }
}

/// Classifies a ray-AABB domain from the envelopes of `t_near`, `t_far`
/// (the unclipped exit), `t_min` and the declared `t_max`.
pub fn slab_decision(
    t_near: EnvelopeBits,
    t_far: EnvelopeBits,
    t_min: EnvelopeBits,
    t_max: EnvelopeBits,
) -> (r: Decision)
    ensures
        r == slab_decision_of(t_near, t_far, t_min, t_max),
{
    let slabs_overlap = le_bits(t_min.hi, t_far.lo) && le_bits(0, t_far.lo);
    let entry_within_t_max = le_bits(t_near.hi, t_max.lo);
    if slabs_overlap && entry_within_t_max {
        Decision::GuaranteedHit
    } else if lt_bits(t_max.hi, t_near.lo) {
        Decision::GuaranteedMiss
    } else {
        Decision::Indeterminate
    }
}

/// Every entry distance the `t_near` envelope admits lies within every
/// `t_max` the declared envelope admits.
pub open spec fn entry_always_within(t_near: EnvelopeBits, t_max: EnvelopeBits) -> bool {
    forall|near: u64, limit: u64|
        #![trigger t_near.admits(near), t_max.admits(limit)]
        t_near.admits(near) && t_max.admits(limit) ==> f64_bits_le(near, limit)
}

/// Every entry distance the `t_near` envelope admits lies past every `t_max`
/// the declared envelope admits.
pub open spec fn entry_always_beyond(t_near: EnvelopeBits, t_max: EnvelopeBits) -> bool {
    forall|near: u64, limit: u64|
        #![trigger t_near.admits(near), t_max.admits(limit)]
        t_near.admits(near) && t_max.admits(limit) ==> f64_bits_lt(limit, near)
}

/// Every exit distance the `t_far` envelope admits lies at or past zero and
/// at or past every `t_min` the `t_min` envelope admits.
pub open spec fn exit_always_after(t_far: EnvelopeBits, t_min: EnvelopeBits) -> bool {
    forall|far: u64, start: u64|
        #![trigger t_far.admits(far), t_min.admits(start)]
        t_far.admits(far) && t_min.admits(start) ==> f64_bits_le(start, far) && f64_bits_le(
            0,
            far,
        )
}

proof fn lemma_le_transitive(a: u64, b: u64, c: u64)
    requires
        f64_bits_le(a, b),
        f64_bits_le(b, c),
    ensures
        f64_bits_le(a, c),
{
}

/// The classification is sound for every input of the domain: a hit claim
/// means every admitted entry lies within every admitted `t_max` and every
/// admitted exit lies at or past zero and every admitted `t_min`; a miss
/// claim means every admitted entry lies past every admitted `t_max`.
pub proof fn lemma_slab_decision_sound(
    t_near: EnvelopeBits,
    t_far: EnvelopeBits,
    t_min: EnvelopeBits,
    t_max: EnvelopeBits,
)
    ensures
        slab_decision_of(t_near, t_far, t_min, t_max) == Decision::GuaranteedHit ==> entry_always_within(
            t_near,
            t_max,
        ) && exit_always_after(t_far, t_min),
        slab_decision_of(t_near, t_far, t_min, t_max) == Decision::GuaranteedMiss
            ==> entry_always_beyond(t_near, t_max),
{
    if slab_decision_of(t_near, t_far, t_min, t_max) == Decision::GuaranteedHit {
        assert forall|near: u64, limit: u64|
            t_near.admits(near) && t_max.admits(limit) implies f64_bits_le(near, limit) by {
            lemma_le_transitive(near, t_near.hi, t_max.lo);
            lemma_le_transitive(near, t_max.lo, limit);
        }
        assert forall|far: u64, start: u64|
            t_far.admits(far) && t_min.admits(start) implies f64_bits_le(start, far) && f64_bits_le(
            0,
            far,
        ) by {
            lemma_le_transitive(start, t_min.hi, t_far.lo);
            lemma_le_transitive(start, t_far.lo, far);
            lemma_le_transitive(0, t_far.lo, far);
        }
    }
}

/// On ordered envelopes the classification is also complete: it claims a
/// hit whenever every admitted input makes the artifact hit, and a miss
/// whenever every admitted entry lies past every admitted `t_max` and no hit
/// is guaranteed.
pub proof fn lemma_slab_decision_complete(
    t_near: EnvelopeBits,
    t_far: EnvelopeBits,
    t_min: EnvelopeBits,
    t_max: EnvelopeBits,
)
    requires
        t_near.ordered(),
        t_far.ordered(),
        t_min.ordered(),
        t_max.ordered(),
    ensures
        entry_always_within(t_near, t_max) && exit_always_after(t_far, t_min) ==> slab_decision_of(
            t_near,
            t_far,
            t_min,
            t_max,
        ) == Decision::GuaranteedHit,
        entry_always_beyond(t_near, t_max) ==> slab_decision_of(t_near, t_far, t_min, t_max)
            != Decision::Indeterminate,
{
    assert(t_near.admits(t_near.hi) && t_near.admits(t_near.lo));
    assert(t_max.admits(t_max.lo) && t_max.admits(t_max.hi));
    assert(t_far.admits(t_far.lo));
    assert(t_min.admits(t_min.hi));
}

/// Why a realization was refused.
#[derive(Clone, Debug, PartialEq)]
pub enum DomainError {
    /// An input interval is not finite (NaN or infinite).
    NotFinite(String),
    /// A direction component's interval spans (touches) zero.
    DirectionSpansZero(String),
    /// The domain does not bind exactly one interval per graph input slot.
    InputCountMismatch {
        /// Inputs declared by the graph.
        expected: usize,
        /// Intervals supplied by the domain.
        found: usize,
    },
    /// A node referenced an operand index that does not precede it.
    ForwardReference(String),
    /// A division whose divisor interval spans (touches) zero.
    DivisionSpansZero(String),
    /// A square root of an interval that dips below zero.
    NegativeSqrt(String),
    /// An intermediate overflowed to infinity.
    UnboundedResult(String),
}

/// The mathematical content of a [`DomainError`]: its variant, with names as
/// character sequences and counts as naturals.
pub enum DomainErrorView {
    NotFinite(Seq<char>),
    DirectionSpansZero(Seq<char>),
    InputCountMismatch { expected: nat, found: nat },
    ForwardReference(Seq<char>),
    DivisionSpansZero(Seq<char>),
    NegativeSqrt(Seq<char>),
    UnboundedResult(Seq<char>),
}

impl View for DomainError {
    type V = DomainErrorView;

    open spec fn view(&self) -> DomainErrorView {
        match self {
            DomainError::NotFinite(n) => DomainErrorView::NotFinite(n@),
            DomainError::DirectionSpansZero(n) => DomainErrorView::DirectionSpansZero(n@),
            DomainError::InputCountMismatch { expected, found } => {
                DomainErrorView::InputCountMismatch {
                    expected: *expected as nat,
                    found: *found as nat,
                }
            },
            DomainError::ForwardReference(n) => DomainErrorView::ForwardReference(n@),
            DomainError::DivisionSpansZero(n) => DomainErrorView::DivisionSpansZero(n@),
            DomainError::NegativeSqrt(n) => DomainErrorView::NegativeSqrt(n@),
            DomainError::UnboundedResult(n) => DomainErrorView::UnboundedResult(n@),
        }
    }
}

/// An envelope `[lo, hi]`, each endpoint given by the bit pattern of its `f64`.
#[derive(Clone, Copy, Debug, PartialEq, Eq)]
pub struct EnvelopeBits {
    /// Bits of the lower endpoint.
    pub lo: u64,
    /// Bits of the upper endpoint.
    pub hi: u64,
}

impl EnvelopeBits {
    /// `v` lies within the envelope, endpoints inclusive (never for NaN).
    pub open spec fn admits(self, v: u64) -> bool {
        f64_bits_le(self.lo, v) && f64_bits_le(v, self.hi)
    }

    /// The endpoints are numbers in order: `lo <= hi`.
    pub open spec fn ordered(self) -> bool {
        f64_bits_le(self.lo, self.hi)
    }

    /// Both endpoints are finite.
    pub open spec fn finite(self) -> bool {
        f64_bits_is_finite(self.lo) && f64_bits_is_finite(self.hi)
    }

    /// Zero lies outside the envelope (`lo > 0` or `hi < 0`), so a division by
    /// any value in it has a definite sign.
    pub open spec fn zero_excluded(self) -> bool {
        f64_bits_is_positive(self.lo) || f64_bits_is_negative(self.hi)
    }

    /// The envelope `[lo, hi]`; `None` when an endpoint is NaN or `lo > hi`.
    pub fn new(lo: u64, hi: u64) -> (r: Option<Self>)
        ensures
            r == (if f64_bits_is_nan(lo) || f64_bits_is_nan(hi) || f64_bits_lt(hi, lo) {
                None
            } else {
                Some(EnvelopeBits { lo, hi })
            }),
    {
        if is_nan_bits(lo) || is_nan_bits(hi) || lt_bits(hi, lo) {
            None
        } else {
            Some(EnvelopeBits { lo, hi })
        }
    }

    /// Whether `x` lies within the envelope, endpoints inclusive.
    pub fn contains(&self, x: u64) -> (r: bool)
        ensures
            r == (f64_bits_le(self.lo, x) && f64_bits_le(x, self.hi)),
    {
        le_bits(self.lo, x) && le_bits(x, self.hi)
    }

    /// Whether both endpoints are finite.
    pub fn is_finite(&self) -> (r: bool)
        ensures
            r == self.finite(),
    {
        is_finite_bits(self.lo) && is_finite_bits(self.hi)
    }

    /// Whether zero lies outside the envelope.
    pub fn excludes_zero(&self) -> (r: bool)
        ensures
            r == self.zero_excluded(),
    {
        is_positive_bits(self.lo) || is_negative_bits(self.hi)
    }

    /// Both endpoints one ulp toward `-∞`.
    pub fn widen_down(&self) -> (r: Self)
        ensures
            r.lo == next_down_bits(self.lo),
            r.hi == next_down_bits(self.hi),
    {
        EnvelopeBits { lo: next_down(self.lo), hi: next_down(self.hi) }
    }

    /// Both endpoints one ulp toward `+∞`.
    pub fn widen_up(&self) -> (r: Self)
        ensures
            r.lo == next_up_bits(self.lo),
            r.hi == next_up_bits(self.hi),
    {
        EnvelopeBits { lo: next_up(self.lo), hi: next_up(self.hi) }
    }

    /// Both endpoints one ulp outward: `lo` down, `hi` up.
    pub fn widen_outward(&self) -> (r: Self)
        ensures
            r.lo == next_down_bits(self.lo),
            r.hi == next_up_bits(self.hi),
    {
        EnvelopeBits { lo: next_down(self.lo), hi: next_up(self.hi) }
    }
}

/// One output quantity of a graph evaluation: its envelope and derived `ε`.
#[derive(Clone, Debug, PartialEq)]
pub struct QuantityBound {
    /// Output name (the graph node's label).
    pub name: String,
    /// Sound envelope of the quantity.
    pub interval: EnvelopeBits,
    /// Bits of `ε`, the width of the envelope.
    pub epsilon: u64,
}

/// The subset of a realization result that a Proof Certificate publishes.
#[derive(Clone, Debug, PartialEq)]
pub struct RealizationSummary {
    /// Engine identity.
    pub derived_by: String,
    /// Envelope + `ε` per output quantity.
    pub quantities: Vec<QuantityBound>,
    /// Bits of the published per-build bound: the largest quantity `ε`.
    pub epsilon: u64,
    /// The hit/miss obligation, for mirrors that model a decision.
    pub decision: Option<Decision>,
}

/// The operation performed by a graph node.
#[derive(Clone, Copy, Debug, PartialEq, Eq)]
pub enum OpKind {
    /// A declared input slot, bound positionally by the domain.
    Input,
    /// A literal constant, taken exactly.
    Constant,
    /// `a + b`.
    Add,
    /// `a - b`.
    Sub,
    /// `a * b`.
    Mul,
    /// `a / b` (requires `b` sign-definite).
    Div,
    /// `-a`.
    Neg,
    /// `min(a, b)` (exact, no widening).
    Min,
    /// `max(a, b)` (exact, no widening).
    Max,
    /// `sqrt(a)` (requires `a ≥ 0`).
    Sqrt,
}

/// One node of an operation graph: an operation plus the indices of its
/// operands.
#[derive(Clone, Debug, PartialEq)]
pub struct OpNode {
    /// Human/audit-facing name (e.g. `t_near`).
    pub label: String,
    /// The operation.
    pub op: OpKind,
    /// First operand index (unused for inputs and constants).
    pub a: usize,
    /// Second operand index (used by binary operations only).
    pub b: usize,
    /// Bits of the `f64` literal of a constant (unused otherwise).
    pub value: u64,
}

/// What a node is, with its label taken by its characters.
pub type NodeView = (Seq<char>, OpKind, usize, usize, u64);

/// The view of a stored node.
pub open spec fn node_view(n: OpNode) -> NodeView {
    (n.label@, n.op, n.a, n.b, n.value)
}

/// Number of input slots among `nodes`.
pub open spec fn inputs_in(nodes: Seq<NodeView>) -> nat
    decreases nodes.len(),
{
    if nodes.len() == 0 {
        0
    } else {
        inputs_in(nodes.drop_last()) + if nodes.last().1 == OpKind::Input {
            1nat
        } else {
            0nat
        }
    }
}

/// A mirror of an artifact's f64 operation graph.  Nodes are numbered in
/// construction order; an operand must refer to an earlier node, which
/// evaluation checks.
#[derive(Debug, PartialEq)]
pub struct OpGraph {
    nodes: Vec<OpNode>,
    input_count: usize,
}

impl View for OpGraph {
    type V = Seq<NodeView>;

    closed spec fn view(&self) -> Seq<NodeView> {
        self.nodes@.map_values(|n: OpNode| node_view(n))
    }
}

proof fn lemma_inputs_bounded(nodes: Seq<NodeView>)
    ensures
        inputs_in(nodes) <= nodes.len(),
    decreases nodes.len(),
{
    if nodes.len() > 0 {
        lemma_inputs_bounded(nodes.drop_last());
    }
}

impl Default for OpGraph {
    /// An empty graph.
    fn default() -> (g: Self)
        ensures
            g@ == Seq::<NodeView>::empty(),
    {
        Self::new()
    }
}

impl OpGraph {
    #[verifier::type_invariant]
    spec fn counts_inputs(&self) -> bool {
        self.input_count == inputs_in(self@)
    }

    /// An empty graph.
    pub fn new() -> (g: Self)
        ensures
            g@ == Seq::<NodeView>::empty(),
    {
        let g = OpGraph { nodes: Vec::new(), input_count: 0 };
        assert(g@ =~= Seq::<NodeView>::empty());
        g
    }

    fn push_node(&mut self, op: OpKind, label: &str, a: usize, b: usize, value: u64) -> (r: usize)
        ensures
            r == old(self)@.len(),
            final(self)@ == old(self)@.push((label@, op, a, b, value)),
    {
        proof {
            use_type_invariant(&*self);
            lemma_inputs_bounded(self@);
        }
        let idx = self.nodes.len();
        let ghost before = self@;
        let mut taken = OpGraph::new();
        std::mem::swap(&mut taken, self);
        proof {
            use_type_invariant(&taken);
        }
        let OpGraph { nodes: mut nodes, input_count } = taken;
        let node = OpNode { label: String::from_str(label), op, a, b, value };
        nodes.push(node);
        let total = nodes.len();
        assert(total == before.len() + 1);
        let ghost after = nodes@.map_values(|n: OpNode| node_view(n));
        assert(after =~= before.push((label@, op, a, b, value)));
        assert(after.drop_last() =~= before);
        let count = match op {
            OpKind::Input => input_count + 1,
            _ => input_count,
        };
        *self = OpGraph { nodes, input_count: count };
        idx
    }

    /// Declares an input slot.  Inputs are bound positionally, in declaration
    /// order.
    pub fn input(&mut self, label: &str) -> (r: usize)
        ensures
            r == old(self)@.len(),
            final(self)@ == old(self)@.push((label@, OpKind::Input, 0usize, 0usize, 0u64)),
    {
        self.push_node(OpKind::Input, label, 0, 0, 0)
    }

    /// A literal constant taken exactly, given by the bits of its `f64`.
    pub fn constant(&mut self, label: &str, value: u64) -> (r: usize)
        ensures
            r == old(self)@.len(),
            final(self)@ == old(self)@.push((label@, OpKind::Constant, 0usize, 0usize, value)),
    {
        self.push_node(OpKind::Constant, label, 0, 0, value)
    }

    /// `a + b`.
    pub fn add(&mut self, label: &str, a: usize, b: usize) -> (r: usize)
        ensures
            r == old(self)@.len(),
            final(self)@ == old(self)@.push((label@, OpKind::Add, a, b, 0u64)),
    {
        self.push_node(OpKind::Add, label, a, b, 0)
    }

    /// `a - b`.
    pub fn sub(&mut self, label: &str, a: usize, b: usize) -> (r: usize)
        ensures
            r == old(self)@.len(),
            final(self)@ == old(self)@.push((label@, OpKind::Sub, a, b, 0u64)),
    {
        self.push_node(OpKind::Sub, label, a, b, 0)
    }

    /// `a * b`.
    pub fn mul(&mut self, label: &str, a: usize, b: usize) -> (r: usize)
        ensures
            r == old(self)@.len(),
            final(self)@ == old(self)@.push((label@, OpKind::Mul, a, b, 0u64)),
    {
        self.push_node(OpKind::Mul, label, a, b, 0)
    }

    /// `a / b`.
    pub fn div(&mut self, label: &str, a: usize, b: usize) -> (r: usize)
        ensures
            r == old(self)@.len(),
            final(self)@ == old(self)@.push((label@, OpKind::Div, a, b, 0u64)),
    {
        self.push_node(OpKind::Div, label, a, b, 0)
    }

    /// `min(a, b)`.
    pub fn min(&mut self, label: &str, a: usize, b: usize) -> (r: usize)
        ensures
            r == old(self)@.len(),
            final(self)@ == old(self)@.push((label@, OpKind::Min, a, b, 0u64)),
    {
        self.push_node(OpKind::Min, label, a, b, 0)
    }

    /// `max(a, b)`.
    pub fn max(&mut self, label: &str, a: usize, b: usize) -> (r: usize)
        ensures
            r == old(self)@.len(),
            final(self)@ == old(self)@.push((label@, OpKind::Max, a, b, 0u64)),
    {
        self.push_node(OpKind::Max, label, a, b, 0)
    }

    /// `-a`.
    pub fn neg(&mut self, label: &str, a: usize) -> (r: usize)
        ensures
            r == old(self)@.len(),
            final(self)@ == old(self)@.push((label@, OpKind::Neg, a, a, 0u64)),
    {
        self.push_node(OpKind::Neg, label, a, a, 0)
    }

    /// `sqrt(a)`.
    pub fn sqrt(&mut self, label: &str, a: usize) -> (r: usize)
        ensures
            r == old(self)@.len(),
            final(self)@ == old(self)@.push((label@, OpKind::Sqrt, a, a, 0u64)),
    {
        self.push_node(OpKind::Sqrt, label, a, a, 0)
    }

    /// Total node count (inputs included).
    pub fn node_count(&self) -> (r: usize)
        ensures
            r == self@.len(),
    {
        self.nodes.len()
    }

    /// Number of declared input slots.
    pub fn input_count(&self) -> (r: usize)
        ensures
            r == inputs_in(self@),
    {
        proof {
            use_type_invariant(self);
        }
        self.input_count
    }

    /// The label of a node, or `None` if the index is out of range.
    pub fn node_label(&self, index: usize) -> (r: Option<&str>)
        ensures
            index < self@.len() ==> (r matches Some(l) && l@ == self@[index as int].0),
            index >= self@.len() ==> r is None,
    {
        if index < self.nodes.len() {
            Some(self.nodes[index].label.as_str())
        } else {
            None
        }
    }

    /// Checks that a domain binds exactly one interval per input slot.
    pub fn check_input_count(&self, found: usize) -> (r: Result<(), DomainError>)
        ensures
            found == inputs_in(self@) ==> r is Ok,
            found != inputs_in(self@) ==> r == Err::<(), DomainError>(
                DomainError::InputCountMismatch { expected: inputs_in(self@) as usize, found },
            ),
    {
        let expected = self.input_count();
        if found != expected {
            return Err(DomainError::InputCountMismatch { expected, found });
        }
        Ok(())
    }

    /// The operand indices of node `index`, or the refusal evaluation reports
    /// when an operand does not precede the node.
    pub fn operands(&self, index: usize) -> (r: Result<(usize, usize), DomainError>)
        requires
            index < self@.len(),
        ensures
            self@[index as int].2 >= index ==> (r matches Err(DomainError::ForwardReference(m)) && m@
                == self@[index as int].0 + "->a"@),
            self@[index as int].2 < index && self@[index as int].3 >= index ==> (r matches Err(
                DomainError::ForwardReference(m),
            ) && m@ == self@[index as int].0 + "->b"@),
            self@[index as int].2 < index && self@[index as int].3 < index ==> r == Ok::<
                (usize, usize),
                DomainError,
            >((self@[index as int].2, self@[index as int].3)),
    {
        let node = self.node(index);
        if node.a >= index {
            let mut m = node.label.clone();
            m.append("->a");
            return Err(DomainError::ForwardReference(m));
        }
        if node.b >= index {
            let mut m = node.label.clone();
            m.append("->b");
            return Err(DomainError::ForwardReference(m));
        }
        Ok((node.a, node.b))
    }

    /// The label of a requested output node, or the refusal evaluation
    /// reports for an index past the last node.
    pub fn output_label(&self, index: usize) -> (r: Result<String, DomainError>)
        ensures
            index < self@.len() ==> (r matches Ok(l) && l@ == self@[index as int].0),
            index >= self@.len() ==> (r matches Err(DomainError::ForwardReference(m)) && m@
                == "output index "@ + decimal(index as nat)),
    {
        if index < self.nodes.len() {
            Ok(self.nodes[index].label.clone())
        } else {
            let mut m = owned("output index ");
            append_decimal(&mut m, index as u64);
            Err(DomainError::ForwardReference(m))
        }
    }

    /// Node `index` itself.
    pub fn node(&self, index: usize) -> (r: &OpNode)
        requires
            index < self@.len(),
        ensures
            node_view(*r) == self@[index as int],
    {
        &self.nodes[index]
    }
}


/// The mirrored ray-AABB slab graph plus the node indices of its outputs.
pub struct SlabGraph {
    /// The mirrored graph.
    pub graph: OpGraph,
    /// The latest slab entry over all axes.
    pub t_min: usize,
    /// The earliest slab exit over all axes.
    pub t_far: usize,
    /// The entry distance, clamped at zero.
    pub t_near: usize,
}

/// The node list of the mirror built by `slab_graph`.
pub open spec fn slab_graph_nodes() -> Seq<NodeView> {
    seq![
        ("box_min.x"@, OpKind::Input, 0usize, 0usize, 0u64),
        ("box_min.y"@, OpKind::Input, 0usize, 0usize, 0u64),
        ("box_min.z"@, OpKind::Input, 0usize, 0usize, 0u64),
        ("box_max.x"@, OpKind::Input, 0usize, 0usize, 0u64),
        ("box_max.y"@, OpKind::Input, 0usize, 0usize, 0u64),
        ("box_max.z"@, OpKind::Input, 0usize, 0usize, 0u64),
        ("origin.x"@, OpKind::Input, 0usize, 0usize, 0u64),
        ("origin.y"@, OpKind::Input, 0usize, 0usize, 0u64),
        ("origin.z"@, OpKind::Input, 0usize, 0usize, 0u64),
        ("direction.x"@, OpKind::Input, 0usize, 0usize, 0u64),
        ("direction.y"@, OpKind::Input, 0usize, 0usize, 0u64),
        ("direction.z"@, OpKind::Input, 0usize, 0usize, 0u64),
        ("t1_num_x"@, OpKind::Sub, 0usize, 6usize, 0u64),
        ("t2_num_x"@, OpKind::Sub, 3usize, 6usize, 0u64),
        ("t1_x"@, OpKind::Div, 12usize, 9usize, 0u64),
        ("t2_x"@, OpKind::Div, 13usize, 9usize, 0u64),
        ("axis_min_x"@, OpKind::Min, 14usize, 15usize, 0u64),
        ("axis_max_x"@, OpKind::Max, 14usize, 15usize, 0u64),
        ("t1_num_y"@, OpKind::Sub, 1usize, 7usize, 0u64),
        ("t2_num_y"@, OpKind::Sub, 4usize, 7usize, 0u64),
        ("t1_y"@, OpKind::Div, 18usize, 10usize, 0u64),
        ("t2_y"@, OpKind::Div, 19usize, 10usize, 0u64),
        ("axis_min_y"@, OpKind::Min, 20usize, 21usize, 0u64),
        ("axis_max_y"@, OpKind::Max, 20usize, 21usize, 0u64),
        ("t1_num_z"@, OpKind::Sub, 2usize, 8usize, 0u64),
        ("t2_num_z"@, OpKind::Sub, 5usize, 8usize, 0u64),
        ("t1_z"@, OpKind::Div, 24usize, 11usize, 0u64),
        ("t2_z"@, OpKind::Div, 25usize, 11usize, 0u64),
        ("axis_min_z"@, OpKind::Min, 26usize, 27usize, 0u64),
        ("axis_max_z"@, OpKind::Max, 26usize, 27usize, 0u64),
        ("t_min_through_y"@, OpKind::Max, 16usize, 22usize, 0u64),
        ("t_far_through_y"@, OpKind::Min, 17usize, 23usize, 0u64),
        ("t_min_through_z"@, OpKind::Max, 30usize, 28usize, 0u64),
        ("t_far_through_z"@, OpKind::Min, 31usize, 29usize, 0u64),
        ("zero"@, OpKind::Constant, 0usize, 0usize, 0u64),
        ("t_near"@, OpKind::Max, 32usize, 34usize, 0u64),
    ]
}

/// Builds the operation-graph mirror of the ray-AABB slab test: per axis
/// `t1 = (box_min − origin) / direction`, `t2 = (box_max − origin) / direction`,
/// `axis_min = min(t1, t2)`, `axis_max = max(t1, t2)`; then `t_min` and
/// `t_far` fold the axes with `max`/`min` starting at axis `x`, and
/// `t_near = max(t_min, 0)`.
pub fn slab_graph() -> (r: SlabGraph)
    ensures
        r.graph@ == slab_graph_nodes(),
        r.t_min == 32,
        r.t_far == 33,
        r.t_near == 35,
{
    let mut graph = OpGraph::new();
    let box_min_x = graph.input("box_min.x");
    let box_min_y = graph.input("box_min.y");
    let box_min_z = graph.input("box_min.z");
    let box_max_x = graph.input("box_max.x");
    let box_max_y = graph.input("box_max.y");
    let box_max_z = graph.input("box_max.z");
    let origin_x = graph.input("origin.x");
    let origin_y = graph.input("origin.y");
    let origin_z = graph.input("origin.z");
    let direction_x = graph.input("direction.x");
    let direction_y = graph.input("direction.y");
    let direction_z = graph.input("direction.z");
    let t1_num_x = graph.sub("t1_num_x", box_min_x, origin_x);
    let t2_num_x = graph.sub("t2_num_x", box_max_x, origin_x);
    let t1_x = graph.div("t1_x", t1_num_x, direction_x);
    let t2_x = graph.div("t2_x", t2_num_x, direction_x);
    let axis_min_x = graph.min("axis_min_x", t1_x, t2_x);
    let axis_max_x = graph.max("axis_max_x", t1_x, t2_x);
    let t1_num_y = graph.sub("t1_num_y", box_min_y, origin_y);
    let t2_num_y = graph.sub("t2_num_y", box_max_y, origin_y);
    let t1_y = graph.div("t1_y", t1_num_y, direction_y);
    let t2_y = graph.div("t2_y", t2_num_y, direction_y);
    let axis_min_y = graph.min("axis_min_y", t1_y, t2_y);
    let axis_max_y = graph.max("axis_max_y", t1_y, t2_y);
    let t1_num_z = graph.sub("t1_num_z", box_min_z, origin_z);
    let t2_num_z = graph.sub("t2_num_z", box_max_z, origin_z);
    let t1_z = graph.div("t1_z", t1_num_z, direction_z);
    let t2_z = graph.div("t2_z", t2_num_z, direction_z);
    let axis_min_z = graph.min("axis_min_z", t1_z, t2_z);
    let axis_max_z = graph.max("axis_max_z", t1_z, t2_z);
    let t_min_through_y = graph.max("t_min_through_y", axis_min_x, axis_min_y);
    let t_far_through_y = graph.min("t_far_through_y", axis_max_x, axis_max_y);
    let t_min_through_z = graph.max("t_min_through_z", t_min_through_y, axis_min_z);
    let t_far_through_z = graph.min("t_far_through_z", t_far_through_y, axis_max_z);
    let zero = graph.constant("zero", 0);
    let t_near = graph.max("t_near", t_min_through_z, zero);
    assert(graph@ =~= slab_graph_nodes());
    SlabGraph { graph, t_min: t_min_through_z, t_far: t_far_through_z, t_near }
}

/// The mirrored graph for the point-to-plane signed distance.
pub struct PlaneDistanceGraph {
    /// The mirrored graph.
    pub graph: OpGraph,
    /// The `signed_distance` output node.
    pub distance: usize,
    /// The `|normal|` output node.
    pub length: usize,
}

/// The node list of the mirror built by `plane_distance_graph`.
pub open spec fn plane_distance_graph_nodes() -> Seq<NodeView> {
    seq![
        ("point.x"@, OpKind::Input, 0usize, 0usize, 0u64),
        ("point.y"@, OpKind::Input, 0usize, 0usize, 0u64),
        ("point.z"@, OpKind::Input, 0usize, 0usize, 0u64),
        ("plane_point.x"@, OpKind::Input, 0usize, 0usize, 0u64),
        ("plane_point.y"@, OpKind::Input, 0usize, 0usize, 0u64),
        ("plane_point.z"@, OpKind::Input, 0usize, 0usize, 0u64),
        ("normal.x"@, OpKind::Input, 0usize, 0usize, 0u64),
        ("normal.y"@, OpKind::Input, 0usize, 0usize, 0u64),
        ("normal.z"@, OpKind::Input, 0usize, 0usize, 0u64),
        ("delta_x"@, OpKind::Sub, 0usize, 3usize, 0u64),
        ("delta_y"@, OpKind::Sub, 1usize, 4usize, 0u64),
        ("delta_z"@, OpKind::Sub, 2usize, 5usize, 0u64),
        ("delta_x_times_n_x"@, OpKind::Mul, 9usize, 6usize, 0u64),
        ("delta_y_times_n_y"@, OpKind::Mul, 10usize, 7usize, 0u64),
        ("delta_z_times_n_z"@, OpKind::Mul, 11usize, 8usize, 0u64),
        ("dot_xy"@, OpKind::Add, 12usize, 13usize, 0u64),
        ("dot"@, OpKind::Add, 15usize, 14usize, 0u64),
        ("n_x_squared"@, OpKind::Mul, 6usize, 6usize, 0u64),
        ("n_y_squared"@, OpKind::Mul, 7usize, 7usize, 0u64),
        ("n_z_squared"@, OpKind::Mul, 8usize, 8usize, 0u64),
        ("length_squared_xy"@, OpKind::Add, 17usize, 18usize, 0u64),
        ("length_squared"@, OpKind::Add, 20usize, 19usize, 0u64),
        ("normal_length"@, OpKind::Sqrt, 21usize, 21usize, 0u64),
        ("signed_distance"@, OpKind::Div, 16usize, 22usize, 0u64),
    ]
}

/// Builds the mirror of the point-to-plane signed distance `((p − q) · n) / |n|`:
/// component-wise subtraction, the left-associated dot product, the same
/// association for `|n|²`, the square root, then one division.
pub fn plane_distance_graph() -> (r: PlaneDistanceGraph)
    ensures
        r.graph@ == plane_distance_graph_nodes(),
        r.distance == 23,
        r.length == 22,
{
    let mut graph = OpGraph::new();
    let point_x = graph.input("point.x");
    let point_y = graph.input("point.y");
    let point_z = graph.input("point.z");
    let plane_point_x = graph.input("plane_point.x");
    let plane_point_y = graph.input("plane_point.y");
    let plane_point_z = graph.input("plane_point.z");
    let normal_x = graph.input("normal.x");
    let normal_y = graph.input("normal.y");
    let normal_z = graph.input("normal.z");
    let delta_x = graph.sub("delta_x", point_x, plane_point_x);
    let delta_y = graph.sub("delta_y", point_y, plane_point_y);
    let delta_z = graph.sub("delta_z", point_z, plane_point_z);
    let delta_x_times_n_x = graph.mul("delta_x_times_n_x", delta_x, normal_x);
    let delta_y_times_n_y = graph.mul("delta_y_times_n_y", delta_y, normal_y);
    let delta_z_times_n_z = graph.mul("delta_z_times_n_z", delta_z, normal_z);
    let dot_xy = graph.add("dot_xy", delta_x_times_n_x, delta_y_times_n_y);
    let dot = graph.add("dot", dot_xy, delta_z_times_n_z);
    let n_x_squared = graph.mul("n_x_squared", normal_x, normal_x);
    let n_y_squared = graph.mul("n_y_squared", normal_y, normal_y);
    let n_z_squared = graph.mul("n_z_squared", normal_z, normal_z);
    let length_squared_xy = graph.add("length_squared_xy", n_x_squared, n_y_squared);
    let length_squared = graph.add("length_squared", length_squared_xy, n_z_squared);
    let normal_length = graph.sqrt("normal_length", length_squared);
    let signed_distance = graph.div("signed_distance", dot, normal_length);
    assert(graph@ =~= plane_distance_graph_nodes());
    PlaneDistanceGraph { graph, distance: signed_distance, length: normal_length }
}

/// The mirrored graph for the ray-to-plane parameter.
pub struct RayPlaneGraph {
    /// The mirrored graph.
    pub graph: OpGraph,
    /// The `t` output node.
    pub t: usize,
}

/// The node list of the mirror built by `ray_plane_graph`.
pub open spec fn ray_plane_graph_nodes() -> Seq<NodeView> {
    seq![
        ("origin.x"@, OpKind::Input, 0usize, 0usize, 0u64),
        ("origin.y"@, OpKind::Input, 0usize, 0usize, 0u64),
        ("origin.z"@, OpKind::Input, 0usize, 0usize, 0u64),
        ("direction.x"@, OpKind::Input, 0usize, 0usize, 0u64),
        ("direction.y"@, OpKind::Input, 0usize, 0usize, 0u64),
        ("direction.z"@, OpKind::Input, 0usize, 0usize, 0u64),
        ("plane_point.x"@, OpKind::Input, 0usize, 0usize, 0u64),
        ("plane_point.y"@, OpKind::Input, 0usize, 0usize, 0u64),
        ("plane_point.z"@, OpKind::Input, 0usize, 0usize, 0u64),
        ("normal.x"@, OpKind::Input, 0usize, 0usize, 0u64),
        ("normal.y"@, OpKind::Input, 0usize, 0usize, 0u64),
        ("normal.z"@, OpKind::Input, 0usize, 0usize, 0u64),
        ("delta_x"@, OpKind::Sub, 6usize, 0usize, 0u64),
        ("delta_y"@, OpKind::Sub, 7usize, 1usize, 0u64),
        ("delta_z"@, OpKind::Sub, 8usize, 2usize, 0u64),
        ("delta_x_times_n_x"@, OpKind::Mul, 12usize, 9usize, 0u64),
        ("delta_y_times_n_y"@, OpKind::Mul, 13usize, 10usize, 0u64),
        ("delta_z_times_n_z"@, OpKind::Mul, 14usize, 11usize, 0u64),
        ("numerator_xy"@, OpKind::Add, 15usize, 16usize, 0u64),
        ("numerator"@, OpKind::Add, 18usize, 17usize, 0u64),
        ("dir_x_times_n_x"@, OpKind::Mul, 3usize, 9usize, 0u64),
        ("dir_y_times_n_y"@, OpKind::Mul, 4usize, 10usize, 0u64),
        ("dir_z_times_n_z"@, OpKind::Mul, 5usize, 11usize, 0u64),
        ("denominator_xy"@, OpKind::Add, 20usize, 21usize, 0u64),
        ("denominator"@, OpKind::Add, 23usize, 22usize, 0u64),
        ("t"@, OpKind::Div, 19usize, 24usize, 0u64),
    ]
}

/// Builds the mirror of the ray-to-plane parameter `((q − o) · n) / (d · n)`:
/// numerator and denominator each left-associated, then one division.
pub fn ray_plane_graph() -> (r: RayPlaneGraph)
    ensures
        r.graph@ == ray_plane_graph_nodes(),
        r.t == 25,
{
    let mut graph = OpGraph::new();
    let origin_x = graph.input("origin.x");
    let origin_y = graph.input("origin.y");
    let origin_z = graph.input("origin.z");
    let direction_x = graph.input("direction.x");
    let direction_y = graph.input("direction.y");
    let direction_z = graph.input("direction.z");
    let plane_point_x = graph.input("plane_point.x");
    let plane_point_y = graph.input("plane_point.y");
    let plane_point_z = graph.input("plane_point.z");
    let normal_x = graph.input("normal.x");
    let normal_y = graph.input("normal.y");
    let normal_z = graph.input("normal.z");
    let delta_x = graph.sub("delta_x", plane_point_x, origin_x);
    let delta_y = graph.sub("delta_y", plane_point_y, origin_y);
    let delta_z = graph.sub("delta_z", plane_point_z, origin_z);
    let delta_x_times_n_x = graph.mul("delta_x_times_n_x", delta_x, normal_x);
    let delta_y_times_n_y = graph.mul("delta_y_times_n_y", delta_y, normal_y);
    let delta_z_times_n_z = graph.mul("delta_z_times_n_z", delta_z, normal_z);
    let numerator_xy = graph.add("numerator_xy", delta_x_times_n_x, delta_y_times_n_y);
    let numerator = graph.add("numerator", numerator_xy, delta_z_times_n_z);
    let dir_x_times_n_x = graph.mul("dir_x_times_n_x", direction_x, normal_x);
    let dir_y_times_n_y = graph.mul("dir_y_times_n_y", direction_y, normal_y);
    let dir_z_times_n_z = graph.mul("dir_z_times_n_z", direction_z, normal_z);
    let denominator_xy = graph.add("denominator_xy", dir_x_times_n_x, dir_y_times_n_y);
    let denominator = graph.add("denominator", denominator_xy, dir_z_times_n_z);
    let t = graph.div("t", numerator, denominator);
    assert(graph@ =~= ray_plane_graph_nodes());
    RayPlaneGraph { graph, t }
}

/// The smaller of two integers.
pub open spec fn int_min(x: int, y: int) -> int {
    if x <= y {
        x
    } else {
        y
    }
}

/// The larger of two integers.
pub open spec fn int_max(x: int, y: int) -> int {
    if x >= y {
        x
    } else {
        y
    }
}

/// The exact value of node `k` of a graph over the integers, with integer
/// inputs bound to the input slots in declaration order and every division
/// taken by `quot`.  Square roots and constants have no integer value here
/// and count as 0, as does a node whose operand does not precede it.
pub open spec fn exact_value(
    nodes: Seq<NodeView>,
    inputs: Seq<int>,
    quot: spec_fn(int, int) -> int,
    k: int,
) -> int
    decreases k,
{
    if 0 <= k < nodes.len() {
        let a = nodes[k].2 as int;
        let b = nodes[k].3 as int;
        match nodes[k].1 {
            OpKind::Input => inputs[inputs_in(nodes.take(k)) as int],
            OpKind::Add => if a < k && b < k {
                exact_value(nodes, inputs, quot, a) + exact_value(nodes, inputs, quot, b)
            } else {
                0
            },
            OpKind::Sub => if a < k && b < k {
                exact_value(nodes, inputs, quot, a) - exact_value(nodes, inputs, quot, b)
            } else {
                0
            },
            OpKind::Mul => if a < k && b < k {
                exact_value(nodes, inputs, quot, a) * exact_value(nodes, inputs, quot, b)
            } else {
                0
            },
            OpKind::Div => if a < k && b < k {
                quot(exact_value(nodes, inputs, quot, a), exact_value(nodes, inputs, quot, b))
            } else {
                0
            },
            OpKind::Neg => if a < k {
                -exact_value(nodes, inputs, quot, a)
            } else {
                0
            },
            OpKind::Min => if a < k && b < k {
                int_min(exact_value(nodes, inputs, quot, a), exact_value(nodes, inputs, quot, b))
            } else {
                0
            },
            OpKind::Max => if a < k && b < k {
                int_max(exact_value(nodes, inputs, quot, a), exact_value(nodes, inputs, quot, b))
            } else {
                0
            },
            _ => 0,
        }
    } else {
        0
    }
}

/// A graph whose first `k` nodes are all inputs binds node `j < k` to input
/// slot `j`.
proof fn lemma_leading_inputs(nodes: Seq<NodeView>, k: int)
    requires
        0 <= k <= nodes.len(),
        forall|i: int| 0 <= i < k ==> (#[trigger] nodes[i]).1 == OpKind::Input,
    ensures
        inputs_in(nodes.take(k)) == k,
    decreases k,
{
    if k > 0 {
        assert(nodes.take(k).drop_last() =~= nodes.take(k - 1));
        assert(nodes.take(k).last() == nodes[k - 1]);
        lemma_leading_inputs(nodes, k - 1);
    }
}

/// The point-to-plane mirror computes the signed distance `((p − q) · n) / |n|`:
/// over exact integers its `dot` node is `(p − q) · n` (the plane point
/// subtracted from the query point), its `length_squared` node is `n · n`,
/// and its output divides the first by the square root of the second.
pub proof fn lemma_plane_distance_graph_computes(
    p: Seq<int>,
    q: Seq<int>,
    n: Seq<int>,
    quot: spec_fn(int, int) -> int,
)
    requires
        p.len() == 3,
        q.len() == 3,
        n.len() == 3,
    ensures
        exact_value(plane_distance_graph_nodes(), p + q + n, quot, 16) == (p[0] - q[0]) * n[0] + (p[1]
            - q[1]) * n[1] + (p[2] - q[2]) * n[2],
        exact_value(plane_distance_graph_nodes(), p + q + n, quot, 21) == n[0] * n[0] + n[1] * n[1]
            + n[2] * n[2],
        plane_distance_graph_nodes()[22].1 == OpKind::Sqrt,
        plane_distance_graph_nodes()[22].2 == 21,
        plane_distance_graph_nodes()[23].1 == OpKind::Div,
        plane_distance_graph_nodes()[23].2 == 16,
        plane_distance_graph_nodes()[23].3 == 22,
{
    let nodes = plane_distance_graph_nodes();
    let ins = p + q + n;
    assert forall|k: int| 0 <= k <= 9 implies inputs_in(#[trigger] nodes.take(k)) == k by {
        lemma_leading_inputs(nodes, k);
    }
    assert forall|k: int| 0 <= k < 9 implies exact_value(nodes, ins, quot, k) == ins[k] by {
        assert(inputs_in(nodes.take(k)) == k);
    }
    assert(ins[0] == p[0] && ins[1] == p[1] && ins[2] == p[2]);
    assert(ins[3] == q[0] && ins[4] == q[1] && ins[5] == q[2]);
    assert(ins[6] == n[0] && ins[7] == n[1] && ins[8] == n[2]);
    let v = |k: int| exact_value(nodes, ins, quot, k);
    assert(v(9) == v(0) - v(3));
    assert(v(10) == v(1) - v(4));
    assert(v(11) == v(2) - v(5));
    assert(v(12) == v(9) * v(6));
    assert(v(13) == v(10) * v(7));
    assert(v(14) == v(11) * v(8));
    assert(v(15) == v(12) + v(13));
    assert(v(16) == v(15) + v(14));
    assert(v(17) == v(6) * v(6));
    assert(v(18) == v(7) * v(7));
    assert(v(19) == v(8) * v(8));
    assert(v(20) == v(17) + v(18));
    assert(v(21) == v(20) + v(19));
}

/// The ray-to-plane mirror computes `t = ((q − o) · n) / (d · n)`: over exact
/// integers its `numerator` node is `(q − o) · n`, its `denominator` node is
/// `d · n`, and its output divides the first by the second.
pub proof fn lemma_ray_plane_graph_computes(
    o: Seq<int>,
    d: Seq<int>,
    q: Seq<int>,
    n: Seq<int>,
    quot: spec_fn(int, int) -> int,
)
    requires
        o.len() == 3,
        d.len() == 3,
        q.len() == 3,
        n.len() == 3,
    ensures
        exact_value(ray_plane_graph_nodes(), o + d + q + n, quot, 19) == (q[0] - o[0]) * n[0] + (q[1]
            - o[1]) * n[1] + (q[2] - o[2]) * n[2],
        exact_value(ray_plane_graph_nodes(), o + d + q + n, quot, 24) == d[0] * n[0] + d[1] * n[1]
            + d[2] * n[2],
        ray_plane_graph_nodes()[25].1 == OpKind::Div,
        ray_plane_graph_nodes()[25].2 == 19,
        ray_plane_graph_nodes()[25].3 == 24,
{
    let nodes = ray_plane_graph_nodes();
    let ins = o + d + q + n;
    assert forall|k: int| 0 <= k <= 12 implies inputs_in(#[trigger] nodes.take(k)) == k by {
        lemma_leading_inputs(nodes, k);
    }
    assert forall|k: int| 0 <= k < 12 implies exact_value(nodes, ins, quot, k) == ins[k] by {
        assert(inputs_in(nodes.take(k)) == k);
    }
    assert(ins[0] == o[0] && ins[1] == o[1] && ins[2] == o[2]);
    assert(ins[3] == d[0] && ins[4] == d[1] && ins[5] == d[2]);
    assert(ins[6] == q[0] && ins[7] == q[1] && ins[8] == q[2]);
    assert(ins[9] == n[0] && ins[10] == n[1] && ins[11] == n[2]);
    let v = |k: int| exact_value(nodes, ins, quot, k);
    assert(v(12) == v(6) - v(0));
    assert(v(13) == v(7) - v(1));
    assert(v(14) == v(8) - v(2));
    assert(v(15) == v(12) * v(9));
    assert(v(16) == v(13) * v(10));
    assert(v(17) == v(14) * v(11));
    assert(v(18) == v(15) + v(16));
    assert(v(19) == v(18) + v(17));
    assert(v(20) == v(3) * v(9));
    assert(v(21) == v(4) * v(10));
    assert(v(22) == v(5) * v(11));
    assert(v(23) == v(20) + v(21));
    assert(v(24) == v(23) + v(22));
}

/// The entry and exit parameters of the slab on axis `i`: the smaller and
/// the larger of `(box_min − origin) / direction` and
/// `(box_max − origin) / direction`, each division taken by `quot`.
pub open spec fn slab_axis_entry(
    box_min: Seq<int>,
    box_max: Seq<int>,
    origin: Seq<int>,
    direction: Seq<int>,
    quot: spec_fn(int, int) -> int,
    i: int,
) -> int {
    int_min(quot(box_min[i] - origin[i], direction[i]), quot(box_max[i] - origin[i], direction[i]))
}

/// See [`slab_axis_entry`]: the larger of the two slab parameters.
pub open spec fn slab_axis_exit(
    box_min: Seq<int>,
    box_max: Seq<int>,
    origin: Seq<int>,
    direction: Seq<int>,
    quot: spec_fn(int, int) -> int,
    i: int,
) -> int {
    int_max(quot(box_min[i] - origin[i], direction[i]), quot(box_max[i] - origin[i], direction[i]))
}

/// The ray-AABB mirror computes the slab method, whatever the division: its
/// `t_min` output is the latest slab entry over the three axes, its `t_far`
/// output the earliest slab exit, and its `t_near` output `t_min` clipped
/// below at the constant `+0.0`.
pub proof fn lemma_slab_graph_computes(
    box_min: Seq<int>,
    box_max: Seq<int>,
    origin: Seq<int>,
    direction: Seq<int>,
    quot: spec_fn(int, int) -> int,
)
    requires
        box_min.len() == 3,
        box_max.len() == 3,
        origin.len() == 3,
        direction.len() == 3,
    ensures
        exact_value(slab_graph_nodes(), box_min + box_max + origin + direction, quot, 32) == int_max(
            int_max(
                slab_axis_entry(box_min, box_max, origin, direction, quot, 0),
                slab_axis_entry(box_min, box_max, origin, direction, quot, 1),
            ),
            slab_axis_entry(box_min, box_max, origin, direction, quot, 2),
        ),
        exact_value(slab_graph_nodes(), box_min + box_max + origin + direction, quot, 33) == int_min(
            int_min(
                slab_axis_exit(box_min, box_max, origin, direction, quot, 0),
                slab_axis_exit(box_min, box_max, origin, direction, quot, 1),
            ),
            slab_axis_exit(box_min, box_max, origin, direction, quot, 2),
        ),
        slab_graph_nodes()[34].1 == OpKind::Constant,
        slab_graph_nodes()[34].4 == 0,
        slab_graph_nodes()[35].1 == OpKind::Max,
        slab_graph_nodes()[35].2 == 32,
        slab_graph_nodes()[35].3 == 34,
{
    let nodes = slab_graph_nodes();
    let ins = box_min + box_max + origin + direction;
    assert forall|k: int| 0 <= k <= 12 implies inputs_in(#[trigger] nodes.take(k)) == k by {
        lemma_leading_inputs(nodes, k);
    }
    assert forall|k: int| 0 <= k < 12 implies exact_value(nodes, ins, quot, k) == ins[k] by {
        assert(inputs_in(nodes.take(k)) == k);
    }
    assert(ins[0] == box_min[0] && ins[1] == box_min[1] && ins[2] == box_min[2]);
    assert(ins[3] == box_max[0] && ins[4] == box_max[1] && ins[5] == box_max[2]);
    assert(ins[6] == origin[0] && ins[7] == origin[1] && ins[8] == origin[2]);
    assert(ins[9] == direction[0] && ins[10] == direction[1] && ins[11] == direction[2]);
    let v = |k: int| exact_value(nodes, ins, quot, k);
    assert(v(12) == v(0) - v(6));
    assert(v(13) == v(3) - v(6));
    assert(v(14) == quot(v(12), v(9)));
    assert(v(15) == quot(v(13), v(9)));
    assert(v(16) == int_min(v(14), v(15)));
    assert(v(17) == int_max(v(14), v(15)));
    assert(v(18) == v(1) - v(7));
    assert(v(19) == v(4) - v(7));
    assert(v(20) == quot(v(18), v(10)));
    assert(v(21) == quot(v(19), v(10)));
    assert(v(22) == int_min(v(20), v(21)));
    assert(v(23) == int_max(v(20), v(21)));
    assert(v(24) == v(2) - v(8));
    assert(v(25) == v(5) - v(8));
    assert(v(26) == quot(v(24), v(11)));
    assert(v(27) == quot(v(25), v(11)));
    assert(v(28) == int_min(v(26), v(27)));
    assert(v(29) == int_max(v(26), v(27)));
    assert(v(30) == int_max(v(16), v(22)));
    assert(v(31) == int_min(v(17), v(23)));
    assert(v(32) == int_max(v(30), v(28)));
    assert(v(33) == int_min(v(31), v(29)));
}

/// Every operand of an operation node refers to an earlier node.
pub open spec fn well_formed_mirror(nodes: Seq<NodeView>) -> bool {
    forall|i: int|
        0 <= i < nodes.len() && #[trigger] nodes[i].1 != OpKind::Input && nodes[i].1
            != OpKind::Constant ==> nodes[i].2 < i && nodes[i].3 < i
}

/// The three mirrors are well formed: evaluation never refuses them for a
/// forward reference.
pub proof fn lemma_mirrors_well_formed()
    ensures
        well_formed_mirror(slab_graph_nodes()),
        well_formed_mirror(plane_distance_graph_nodes()),
        well_formed_mirror(ray_plane_graph_nodes()),
        inputs_in(slab_graph_nodes()) == 12,
        inputs_in(plane_distance_graph_nodes()) == 9,
        inputs_in(ray_plane_graph_nodes()) == 12,
{
    reveal_with_fuel(inputs_in, 40);
}

} // verus!
