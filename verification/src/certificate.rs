//! The Proof Certificate: entries that tie verified functions to their source
//! spans, native evidence, derived bounds and regulatory objectives, and the
//! certification rule that decides whether a certificate may exist at all.
use vstd::prelude::*;

use crate::float_bits::{f64_bits_eq, f64_bits_equal, f64_bits_is_nan};
use crate::realization::{decision_name, RealizationSummary, QuantityBound};
use crate::telos_manifest::TelosProofManifest;
use crate::text::{
    append_decimal, chars_of, contains_str, decimal, join_strings, joined, last_path_segment, owned,
    sorted_elements, views,
};
use crate::verify_report::{
    approximations, dedup, ensures_descriptions, failing_names, lemma_approximations_bounded,
    lemma_matching_within_all, all_checks, located_lines, matching_checks, passing_bases, span_of,
    string_views, VerifyReport,
};

verus! {

/// Manifest schema version.
pub const MANIFEST_VERSION: u32 = 1;

/// A precise source span in a `.telos` file.
#[derive(Clone, Debug, PartialEq, Eq)]
pub struct SourceLocation {
    /// Path relative to the workspace root.
    pub file: String,
    /// 1-based line where the contract's block starts.
    pub line_start: u32,
    /// 1-based inclusive line where the contract's block ends.
    pub line_end: u32,
}

/// A named regulatory objective that a certificate entry supports.
#[derive(Clone, Copy, Debug, PartialEq, Eq)]
pub enum RegulatoryObjective {
    /// DO-178C Table A-5: requirements-based verification evidence.
    Do178cRequirementsVerification,
    /// DO-178C Table A-5 / DO-333: formal specification and verification.
    Do178cFormalMethods,
    /// DO-330 tool qualification.
    Do330ToolQualification,
    /// FDA design/quality controls.
    FdaDesignControls,
}

/// A DO-178C Table A-5 objective row that a certificate entry supports.
#[derive(Clone, Copy, Debug, PartialEq, Eq)]
pub enum Do178cTableA5Row {
    /// "Source code complies with software code standards".
    SourceCodeCompliesWithStandards,
    /// "Source code is traceable to low-level requirements".
    SourceCodeTraceableToLowLevelRequirements,
    /// "Source code is accurate and consistent".
    SourceCodeAccurateAndConsistent,
    /// DO-333 formal-methods supplement to that table.
    Do333FormalMethodsSupplement,
}

/// The document a row belongs to.
pub open spec fn table_id_of(row: Do178cTableA5Row) -> Seq<char> {
    match row {
        Do178cTableA5Row::Do333FormalMethodsSupplement => "DO-333 (supplement to DO-178C Table A-5)"@,
        _ => "DO-178C Table A-5"@,
    }
}

/// The objective a row's evidence speaks to.
pub open spec fn objective_of(row: Do178cTableA5Row) -> Seq<char> {
    match row {
        Do178cTableA5Row::SourceCodeCompliesWithStandards => "source code complies with software code standards"@,
        Do178cTableA5Row::SourceCodeTraceableToLowLevelRequirements => "source code is traceable to low-level requirements"@,
        Do178cTableA5Row::SourceCodeAccurateAndConsistent => "source code is accurate and consistent"@,
        Do178cTableA5Row::Do333FormalMethodsSupplement => "formal specification and verification of the artifact (DO-333 supplement)"@,
    }
}

/// The rows a natively verified contract entry supports by default.
pub open spec fn default_rows() -> Seq<Do178cTableA5Row> {
    seq![
        Do178cTableA5Row::SourceCodeAccurateAndConsistent,
        Do178cTableA5Row::SourceCodeTraceableToLowLevelRequirements,
    ]
}

impl Do178cTableA5Row {
    /// The document this row belongs to.
    pub fn table_id(&self) -> (r: &'static str)
        ensures
            r@ == table_id_of(*self),
    {
        match self {
            Do178cTableA5Row::Do333FormalMethodsSupplement => "DO-333 (supplement to DO-178C Table A-5)",
            _ => "DO-178C Table A-5",
        }
    }

    /// The objective requirement this row's evidence speaks to.
    pub fn objective(&self) -> (r: &'static str)
        ensures
            r@ == objective_of(*self),
    {
        match self {
            Do178cTableA5Row::SourceCodeCompliesWithStandards => "source code complies with software code standards",
            Do178cTableA5Row::SourceCodeTraceableToLowLevelRequirements => "source code is traceable to low-level requirements",
            Do178cTableA5Row::SourceCodeAccurateAndConsistent => "source code is accurate and consistent",
            Do178cTableA5Row::Do333FormalMethodsSupplement => "formal specification and verification of the artifact (DO-333 supplement)",
        }
    }

    /// The rows a natively verified contract entry supports by default:
    /// accuracy/consistency, plus the traceability record the entry itself is.
    pub fn default_for_verified_contract() -> (r: Vec<Self>)
        ensures
            r@ == default_rows(),
    {
        let mut v = Vec::new();
        v.push(Do178cTableA5Row::SourceCodeAccurateAndConsistent);
        v.push(Do178cTableA5Row::SourceCodeTraceableToLowLevelRequirements);
        assert(v@ =~= default_rows());
        v
    }
}

/// A usable span: starts at a real line and is not inverted.
pub open spec fn span_is_usable(line_start: u32, line_end: u32) -> bool {
    line_start != 0 && line_start <= line_end
}

impl SourceLocation {
    /// A validated source span: `None` if the span is empty or inverted.
    pub fn new(file: String, line_start: u32, line_end: u32) -> (r: Option<SourceLocation>)
        ensures
            r is Some <==> span_is_usable(line_start, line_end),
            r matches Some(l) ==> l.file == file && l.line_start == line_start && l.line_end
                == line_end,
    {
        if line_start == 0 || line_end < line_start {
            return None;
        }
        Some(SourceLocation { file, line_start, line_end })
    }

    /// Whether this span is a usable source reference.
    pub fn is_valid(&self) -> (r: bool)
        ensures
            r == span_is_usable(self.line_start, self.line_end),
    {
        self.line_start != 0 && self.line_start <= self.line_end
    }
}

/// Trailing path segment of a fully-qualified function name
/// (`module::path::func` becomes `func`).
pub fn base_name(fqn: &str) -> (r: &str)
    ensures
        r@ == last_path_segment(fqn@),
{
    let cs = chars_of(fqn);
    let n = cs.len();
    let mut i = n;
    proof {
        assert(fqn@.take(n as int) =~= fqn@);
        assert(last_path_segment(fqn@) + fqn@.subrange(n as int, n as int) =~= last_path_segment(fqn@));
    }
    while i >= 2 && !(cs[i - 2] == ':' && cs[i - 1] == ':')
        invariant
            cs@ == fqn@,
            n == cs.len(),
            i <= n,
            last_path_segment(fqn@) == last_path_segment(fqn@.take(i as int)) + fqn@.subrange(
                i as int,
                n as int,
            ),
        decreases i,
    {
        proof {
            let t = fqn@.take(i as int);
            assert(t.drop_last() =~= fqn@.take(i - 1));
            assert(last_path_segment(t) == last_path_segment(fqn@.take(i - 1)).push(t.last()));
            assert(last_path_segment(fqn@.take(i - 1)).push(t.last()) + fqn@.subrange(
                i as int,
                n as int,
            ) =~= last_path_segment(fqn@.take(i - 1)) + fqn@.subrange(i - 1, n as int));
        }
        i -= 1;
    }
    proof {
        if i < 2 {
            assert(last_path_segment(fqn@.take(i as int)) == fqn@.take(i as int));
            assert(fqn@.take(i as int) + fqn@.subrange(i as int, n as int) =~= fqn@);
            assert(fqn@.subrange(0, n as int) =~= fqn@);
        } else {
            assert(last_path_segment(fqn@.take(i as int)) =~= Seq::<char>::empty());
            assert(Seq::<char>::empty() + fqn@.subrange(i as int, n as int) =~= fqn@.subrange(
                i as int,
                n as int,
            ));
        }
    }
    if i < 2 {
        fqn.substring_char(0, n)
    } else {
        fqn.substring_char(i, n)
    }
}

/// A single entry in a Proof Certificate.
#[derive(Clone, Debug, PartialEq)]
pub struct CertificateEntry {
    /// Fully-qualified function name or the bare `.telos` function name.
    pub function: String,
    /// Source span of the verified contract in the `.telos` file.
    pub source_location: SourceLocation,
    /// The ideal-layer postcondition(s) proven.
    pub ideal_contract: String,
    /// The realization-layer postcondition(s) proven.
    pub realization_contract: String,
    /// Bits of the derived `ε` for the realization layer (`None` for functions
    /// without floating-point operations).  Written from the attached
    /// realization, never by hand.
    pub epsilon: Option<u64>,
    /// Composition lemmas used when the contract was assembled compositionally.
    pub composition_lemmas: Vec<String>,
    /// Regulatory objective this entry supports.
    pub regulatory_objective: RegulatoryObjective,
    /// DO-178C Table A-5 objective rows this entry provides evidence for.
    pub objective_rows: Vec<Do178cTableA5Row>,
    /// Native `.telos` functions whose discharge supports this entry.
    pub native_support: Vec<String>,
    /// Conclusions the native tool inspected for this entry.
    pub native_checks: usize,
    /// Conclusions discharged by approximation rather than exact arithmetic.
    pub native_approximations: usize,
    /// The derived realization bound, when this entry mirrors an f64 artifact.
    pub realization: Option<RealizationSummary>,
}

/// The published `ε` is exactly the derived one, and present iff a
/// realization is attached.
pub open spec fn epsilon_derived(e: CertificateEntry) -> bool {
    match (e.realization, e.epsilon) {
        (Some(s), Some(eps)) => f64_bits_equal(s.epsilon, eps),
        (None, None) => true,
        _ => false,
    }
}

/// The entry records native evidence.
pub open spec fn native_evidence(e: CertificateEntry) -> bool {
    e.native_checks > 0 || e.native_support.len() > 0
}

/// The published clause for one quantity, given the rendering of its bound.
pub open spec fn quantity_clause(name: Seq<char>, bound: Seq<char>) -> Seq<char> {
    "|f64 "@ + name + " − ideal "@ + name + "| ≤ "@ + bound
}

/// The clauses for the quantities, paired with the renderings of their bounds.
pub open spec fn quantity_clauses(qs: Seq<QuantityBound>, bounds: Seq<Seq<char>>) -> Seq<Seq<char>> {
    Seq::new(qs.len(), |i: int| quantity_clause(qs[i].name@, bounds[i]))
}

/// The realization contract text published for a summary.
pub open spec fn realization_text(s: RealizationSummary, bounds: Seq<Seq<char>>) -> Seq<char> {
    joined(quantity_clauses(s.quantities@, bounds), ", "@) + match s.decision {
        Some(d) => "; hit/miss decision: "@ + decision_name(d),
        None => Seq::empty(),
    } + " (derived by "@ + s.derived_by@ + ")"@
}

impl CertificateEntry {
    /// Attaches a derived realization summary: sets `epsilon` and the
    /// human-readable `realization_contract` from it.  `bounds` holds the
    /// decimal rendering of each quantity's `ε`, in quantity order.
    pub fn with_realization(self, summary: RealizationSummary, bounds: &Vec<String>) -> (r: Self)
        requires
            bounds.len() == summary.quantities.len(),
        ensures
            r.epsilon == Some(summary.epsilon),
            r.realization == Some(summary),
            !f64_bits_is_nan(summary.epsilon) ==> epsilon_derived(r),
            r.realization_contract@ == realization_text(summary, string_views(bounds@)),
            r.function == self.function,
            r.source_location == self.source_location,
            r.ideal_contract == self.ideal_contract,
            r.composition_lemmas == self.composition_lemmas,
            r.regulatory_objective == self.regulatory_objective,
            r.objective_rows == self.objective_rows,
            r.native_support == self.native_support,
            r.native_checks == self.native_checks,
            r.native_approximations == self.native_approximations,
    {
        let mut entry = self;
        let mut contract = String::new();
        let ghost clauses = quantity_clauses(summary.quantities@, string_views(bounds@));
        let mut index: usize = 0;
        while index < summary.quantities.len()
            invariant
                index <= summary.quantities.len(),
                bounds.len() == summary.quantities.len(),
                clauses == quantity_clauses(summary.quantities@, string_views(bounds@)),
                contract@ == joined(clauses.take(index as int), ", "@),
            decreases summary.quantities.len() - index,
        {
            let quantity = &summary.quantities[index];
            if index > 0 {
                contract.append(", ");
            }
            contract.append("|f64 ");
            contract.append(quantity.name.as_str());
            contract.append(" − ideal ");
            contract.append(quantity.name.as_str());
            contract.append("| ≤ ");
            contract.append(bounds[index].as_str());
            proof {
                let t = clauses.take(index + 1);
                assert(t.drop_last() =~= clauses.take(index as int));
                assert(t.last() == quantity_clause(quantity.name@, bounds@[index as int]@));
                if index == 0 {
                    assert(joined(t, ", "@) == t[0]);
                }
            }
            index += 1;
        }
        assert(clauses.take(summary.quantities.len() as int) =~= clauses);
        match summary.decision {
            Some(decision) => {
                contract.append("; hit/miss decision: ");
                contract.append(decision.name());
            },
            None => {},
        }
        contract.append(" (derived by ");
        contract.append(summary.derived_by.as_str());
        contract.append(")");
        entry.epsilon = Some(summary.epsilon);
        entry.realization_contract = contract;
        entry.realization = Some(summary);
        entry
    }

    /// Records the native `.telos` functions that discharge this entry's
    /// contract shapes, and how many conclusions the tool checked for them.
    pub fn with_native_support(self, functions: Vec<String>, checks: usize, approximations: usize) -> (r: Self)
        ensures
            r == (CertificateEntry {
                native_support: functions,
                native_checks: checks,
                native_approximations: approximations,
                ..self
            }),
    {
        let mut entry = self;
        entry.native_support = functions;
        entry.native_checks = checks;
        entry.native_approximations = approximations;
        entry
    }

    /// Records the DO-178C Table A-5 objective rows this entry provides
    /// evidence for.
    pub fn with_objective_rows(self, rows: Vec<Do178cTableA5Row>) -> (r: Self)
        ensures
            r == (CertificateEntry { objective_rows: rows, ..self }),
    {
        let mut entry = self;
        entry.objective_rows = rows;
        entry
    }

    /// Whether the published `ε` is exactly the derived one (and is present
    /// iff a realization is attached).
    pub fn epsilon_is_derived(&self) -> (r: bool)
        ensures
            r == epsilon_derived(*self),
    {
        match (&self.realization, self.epsilon) {
            (Some(summary), Some(epsilon)) => f64_bits_eq(summary.epsilon, epsilon),
            (None, None) => true,
            _ => false,
        }
    }

    /// Whether this entry records native evidence.
    pub fn has_native_evidence(&self) -> (r: bool)
        ensures
            r == native_evidence(*self),
    {
        self.native_checks > 0 || self.native_support.len() > 0
    }
}


/// What certification reads of one entry.
pub struct EntryFacts {
    /// The entry's function name.
    pub function: Seq<char>,
    /// First line of its source span.
    pub line_start: u32,
    /// Last line of its source span.
    pub line_end: u32,
    /// Whether it records native evidence.
    pub evidence: bool,
    /// Whether its published `ε` is the derived one.
    pub derived: bool,
    /// Conclusions discharged by approximation.
    pub approximations: nat,
}

/// What certification reads of `e`.
pub open spec fn entry_facts(e: CertificateEntry) -> EntryFacts {
    EntryFacts {
        function: e.function@,
        line_start: e.source_location.line_start,
        line_end: e.source_location.line_end,
        evidence: native_evidence(e),
        derived: epsilon_derived(e),
        approximations: e.native_approximations as nat,
    }
}

/// What certification reads of each entry.
pub open spec fn facts_of(es: Seq<CertificateEntry>) -> Seq<EntryFacts> {
    es.map_values(|e: CertificateEntry| entry_facts(e))
}

/// The problem reported for an unusable source span.
pub open spec fn span_problem(f: EntryFacts) -> Seq<char> {
    f.function + ": source span "@ + decimal(f.line_start as nat) + ".."@ + decimal(
        f.line_end as nat,
    ) + " is not a usable reference"@
}

/// The problem reported for missing native evidence.
pub open spec fn evidence_problem(f: EntryFacts) -> Seq<char> {
    f.function + ": no native tpt-telos verification record"@
}

/// The problem reported for a hand-asserted `ε`.
pub open spec fn derived_problem(f: EntryFacts) -> Seq<char> {
    f.function + ": published epsilon is not the derived realization bound"@
}

/// The problem reported for approximation-discharged conclusions.
pub open spec fn approximation_problem(f: EntryFacts) -> Seq<char> {
    f.function + ": "@ + decimal(f.approximations)
        + " conclusion(s) discharged by approximation, which cannot be certified as exact"@
}

/// Every reason one entry blocks a certificate, in the order they are
/// reported.
pub open spec fn entry_problems(f: EntryFacts, allow_approximations: bool) -> Seq<Seq<char>> {
    (if !span_is_usable(f.line_start, f.line_end) {
        seq![span_problem(f)]
    } else {
        Seq::empty()
    }) + (if !f.evidence {
        seq![evidence_problem(f)]
    } else {
        Seq::empty()
    }) + (if !f.derived {
        seq![derived_problem(f)]
    } else {
        Seq::empty()
    }) + (if f.approximations > 0 && !allow_approximations {
        seq![approximation_problem(f)]
    } else {
        Seq::empty()
    })
}

/// The problems of all entries, entry by entry.
pub open spec fn problems_of(fs: Seq<EntryFacts>, allow_approximations: bool) -> Seq<Seq<char>>
    decreases fs.len(),
{
    if fs.len() == 0 {
        Seq::empty()
    } else {
        problems_of(fs.drop_last(), allow_approximations) + entry_problems(
            fs.last(),
            allow_approximations,
        )
    }
}

/// Every reason a certificate with these entries must not be emitted.
pub open spec fn certificate_problems(fs: Seq<EntryFacts>, allow_approximations: bool) -> Seq<
    Seq<char>,
> {
    (if fs.len() == 0 {
        seq!["certificate has no entries"@]
    } else {
        Seq::empty()
    }) + problems_of(fs, allow_approximations)
}

/// One entry passes the structural part of certification.
pub open spec fn entry_complete(e: CertificateEntry) -> bool {
    span_is_usable(e.source_location.line_start, e.source_location.line_end) && native_evidence(e)
        && epsilon_derived(e)
}

/// Structural completeness of a list of entries.
pub open spec fn entries_complete(es: Seq<CertificateEntry>) -> bool {
    es.len() > 0 && forall|i: int| 0 <= i < es.len() ==> entry_complete(#[trigger] es[i])
}

/// The manifest lists `name` as verified.
pub open spec fn manifest_verifies(rows: Seq<(Seq<char>, crate::telos_manifest::TelosFuncProof)>, name: Seq<char>) -> bool {
    exists|j: int| 0 <= j < rows.len() && rows[j].1.verified && #[trigger] rows[j].0 == name
}

/// Every entry maps to a function the manifest verified, and the manifest
/// lists only verified functions.
pub open spec fn manifest_supports(es: Seq<CertificateEntry>, rows: Seq<(Seq<char>, crate::telos_manifest::TelosFuncProof)>) -> bool {
    &&& rows.len() > 0
    &&& forall|j: int| 0 <= j < rows.len() ==> #[trigger] rows[j].1.verified
    &&& forall|i: int|
        0 <= i < es.len() ==> manifest_verifies(rows, last_path_segment(#[trigger] es[i].function@))
            || manifest_verifies(rows, es[i].function@)
}

/// The entry is covered by the report: its own name is verified, or it
/// declares native supporters and the report verifies at least one of them.
pub open spec fn report_supports(e: CertificateEntry, report: VerifyReport) -> bool {
    let verified = passing_bases(report.functions@);
    ||| verified.contains(last_path_segment(e.function@))
    ||| verified.contains(e.function@)
    ||| exists|k: int|
        0 <= k < e.native_support.len() && verified.contains(
            last_path_segment(#[trigger] e.native_support@[k]@),
        )
}

/// The report names the certificate is assembled from, in ascending order.
pub open spec fn report_names(report: VerifyReport) -> Seq<Seq<char>> {
    sorted_elements(passing_bases(report.functions@))
}

/// The checks the report holds for `name`.
pub open spec fn checks_for(report: VerifyReport, name: Seq<char>) -> Seq<crate::verify_report::VerifyCheck> {
    matching_checks(report.functions@, name)
}

/// The span the report gives for `name`.
pub open spec fn span_for(report: VerifyReport, name: Seq<char>) -> Option<(u32, u32)> {
    span_of(located_lines(checks_for(report, name)))
}

/// The report gives `name` a usable source span.
pub open spec fn span_usable_for(report: VerifyReport, name: Seq<char>) -> bool {
    match span_for(report, name) {
        Some(p) => span_is_usable(p.0, p.1),
        None => false,
    }
}

/// What certification reads of the entry assembled for `name`.
pub open spec fn native_facts(report: VerifyReport, name: Seq<char>) -> EntryFacts {
    EntryFacts {
        function: name,
        line_start: span_for(report, name).unwrap().0,
        line_end: span_for(report, name).unwrap().1,
        evidence: checks_for(report, name).len() > 0,
        derived: true,
        approximations: approximations(checks_for(report, name)),
    }
}

/// What certification reads of every entry of an assembled certificate.
pub open spec fn assembled_facts(report: VerifyReport, artifacts: Seq<CertificateEntry>) -> Seq<EntryFacts> {
    report_names(report).map_values(|n: Seq<char>| native_facts(report, n)) + facts_of(artifacts)
}

/// `e` is the entry assembled for `name` from `report`.
pub open spec fn is_native_entry(e: CertificateEntry, report: VerifyReport, name: Seq<char>) -> bool {
    &&& e.function@ == name
    &&& e.source_location.file@ == report.file@
    &&& Some((e.source_location.line_start, e.source_location.line_end)) == span_for(report, name)
    &&& e.ideal_contract@ == joined(dedup(ensures_descriptions(checks_for(report, name))), " && "@)
    &&& e.realization_contract@ == Seq::<char>::empty()
    &&& e.epsilon is None
    &&& e.composition_lemmas@.len() == 0
    &&& e.regulatory_objective == RegulatoryObjective::Do178cFormalMethods
    &&& e.objective_rows@ == default_rows()
    &&& e.native_support@.len() == 0
    &&& e.native_checks == checks_for(report, name).len()
    &&& e.native_approximations == approximations(checks_for(report, name))
    &&& e.realization is None
}

/// The report has entries and every one of them passed.
pub open spec fn report_all_passed(report: VerifyReport) -> bool {
    report.functions@.len() > 0 && failing_names(report.functions@).len() == 0
}

/// `k` is the first report name without a usable span.
pub open spec fn first_unusable_span(report: VerifyReport, k: int) -> bool {
    &&& 0 <= k < report_names(report).len()
    &&& !span_usable_for(report, report_names(report)[k])
    &&& forall|j: int| 0 <= j < k ==> span_usable_for(report, #[trigger] report_names(report)[j])
}

/// Every report name has a usable span.
pub open spec fn all_spans_usable(report: VerifyReport) -> bool {
    forall|k: int|
        0 <= k < report_names(report).len() ==> span_usable_for(
            report,
            #[trigger] report_names(report)[k],
        )
}

/// `k` is the first artifact entry the report does not cover.
pub open spec fn first_unsupported(report: VerifyReport, artifacts: Seq<CertificateEntry>, k: int) -> bool {
    &&& 0 <= k < artifacts.len()
    &&& !report_supports(artifacts[k], report)
    &&& forall|j: int| 0 <= j < k ==> report_supports(#[trigger] artifacts[j], report)
}

/// The report covers every artifact entry.
pub open spec fn all_supported(report: VerifyReport, artifacts: Seq<CertificateEntry>) -> bool {
    forall|k: int| 0 <= k < artifacts.len() ==> report_supports(#[trigger] artifacts[k], report)
}

/// Everything before the blocking-problem review passed.
pub open spec fn passes_before_problems(report: VerifyReport, artifacts: Seq<CertificateEntry>) -> bool {
    report_all_passed(report) && all_spans_usable(report) && all_supported(report, artifacts)
}

/// The facts of an entry that passes the structural part of certification.
pub open spec fn facts_pass(f: EntryFacts) -> bool {
    span_is_usable(f.line_start, f.line_end) && f.evidence && f.derived
}

/// An entry with no blocking problem passes the structural part of certification.
pub proof fn lemma_no_problems_means_complete(fs: Seq<EntryFacts>, allow_approximations: bool)
    requires
        problems_of(fs, allow_approximations).len() == 0,
    ensures
        forall|i: int| 0 <= i < fs.len() ==> facts_pass(#[trigger] fs[i]),
    decreases fs.len(),
{
    if fs.len() > 0 {
        let last = fs.last();
        assert(problems_of(fs.drop_last(), allow_approximations).len() == 0);
        assert(entry_problems(last, allow_approximations).len() == 0);
        let p1: Seq<Seq<char>> = if !span_is_usable(last.line_start, last.line_end) {
            seq![span_problem(last)]
        } else {
            Seq::empty()
        };
        let p2: Seq<Seq<char>> = if !last.evidence {
            seq![evidence_problem(last)]
        } else {
            Seq::empty()
        };
        let p3: Seq<Seq<char>> = if !last.derived {
            seq![derived_problem(last)]
        } else {
            Seq::empty()
        };
        let p4: Seq<Seq<char>> = if last.approximations > 0 && !allow_approximations {
            seq![approximation_problem(last)]
        } else {
            Seq::empty()
        };
        assert(entry_problems(last, allow_approximations) == p1 + p2 + p3 + p4);
        assert((p1 + p2 + p3 + p4).len() == p1.len() + p2.len() + p3.len() + p4.len());
        assert(facts_pass(last));
        lemma_no_problems_means_complete(fs.drop_last(), allow_approximations);
        assert forall|i: int| 0 <= i < fs.len() implies facts_pass(#[trigger] fs[i]) by {
            if i < fs.len() - 1 {
                assert(fs[i] == fs.drop_last()[i]);
            }
        }
    }
}

/// A certificate with no blocking problems is structurally complete: the
/// certification rule reduces to the absence of blocking problems.
pub proof fn lemma_certifiable_iff_no_problems(c: ProofCertificate)
    ensures
        certificate_problems(facts_of(c.entries@), c.allow_approximations).len() == 0
            ==> entries_complete(c.entries@),
{
    let fs = facts_of(c.entries@);
    if certificate_problems(fs, c.allow_approximations).len() == 0 {
        assert(fs.len() > 0);
        lemma_no_problems_means_complete(fs, c.allow_approximations);
        assert forall|i: int| 0 <= i < c.entries@.len() implies entry_complete(
            #[trigger] c.entries@[i],
        ) by {
            assert(fs[i] == entry_facts(c.entries@[i]));
            assert(facts_pass(fs[i]));
        }
    }
}

/// A published `ε` counts as derived only when a realization is attached,
/// and an attached realization only when an `ε` is published: an entry
/// without a realization counts as derived exactly when it publishes no `ε`.
pub proof fn lemma_epsilon_needs_realization(e: CertificateEntry)
    ensures
        epsilon_derived(e) ==> (e.epsilon is Some <==> e.realization is Some),
        e.realization is None ==> (epsilon_derived(e) <==> e.epsilon is None),
        e.epsilon is None ==> (epsilon_derived(e) <==> e.realization is None),
{
}

/// Every problem of one entry is among the problems of a list holding it.
proof fn lemma_problems_hold_entry_problems(fs: Seq<EntryFacts>, k: int, allow_approximations: bool, p: Seq<char>)
    requires
        0 <= k < fs.len(),
        entry_problems(fs[k], allow_approximations).contains(p),
    ensures
        problems_of(fs, allow_approximations).contains(p),
    decreases fs.len(),
{
    let rest = problems_of(fs.drop_last(), allow_approximations);
    let last = entry_problems(fs.last(), allow_approximations);
    assert(problems_of(fs, allow_approximations) == rest + last);
    if k == fs.len() - 1 {
        let j = choose|j: int| 0 <= j < last.len() && last[j] == p;
        assert((rest + last)[rest.len() + j] == p);
    } else {
        assert(fs.drop_last()[k] == fs[k]);
        lemma_problems_hold_entry_problems(fs.drop_last(), k, allow_approximations, p);
        let j = choose|j: int| 0 <= j < rest.len() && rest[j] == p;
        assert((rest + last)[j] == p);
    }
}

/// An entry that publishes an `ε` with no realization attached (a
/// hand-written bound) blocks its certificate: the entries are not complete,
/// and the blocking problems name that entry's `ε`.
pub proof fn lemma_hand_written_epsilon_blocks(es: Seq<CertificateEntry>, k: int, allow_approximations: bool)
    requires
        0 <= k < es.len(),
        es[k].epsilon is Some,
        es[k].realization is None,
    ensures
        !entries_complete(es),
        certificate_problems(facts_of(es), allow_approximations).contains(
            es[k].function@ + ": published epsilon is not the derived realization bound"@,
        ),
{
    let fs = facts_of(es);
    let f = fs[k];
    let p = es[k].function@ + ": published epsilon is not the derived realization bound"@;
    assert(f == entry_facts(es[k]));
    assert(!f.derived);
    assert(!entry_complete(es[k]));
    let p1: Seq<Seq<char>> = if !span_is_usable(f.line_start, f.line_end) {
        seq![span_problem(f)]
    } else {
        Seq::empty()
    };
    let p2: Seq<Seq<char>> = if !f.evidence {
        seq![evidence_problem(f)]
    } else {
        Seq::empty()
    };
    let p3: Seq<Seq<char>> = seq![derived_problem(f)];
    let p4: Seq<Seq<char>> = if f.approximations > 0 && !allow_approximations {
        seq![approximation_problem(f)]
    } else {
        Seq::empty()
    };
    assert(entry_problems(f, allow_approximations) == p1 + p2 + p3 + p4);
    assert((p1 + p2 + p3 + p4)[(p1.len() + p2.len()) as int] == p);
    lemma_problems_hold_entry_problems(fs, k, allow_approximations, p);
    let head: Seq<Seq<char>> = if fs.len() == 0 {
        seq!["certificate has no entries"@]
    } else {
        Seq::empty()
    };
    let rest = problems_of(fs, allow_approximations);
    let j = choose|j: int| 0 <= j < rest.len() && rest[j] == p;
    assert((head + rest)[head.len() + j] == p);
}

/// A report with no failing entry has every entry passing.
pub proof fn lemma_no_failing_all_passed(fs: Seq<crate::verify_report::VerifyFunction>)
    requires
        failing_names(fs).len() == 0,
    ensures
        forall|i: int| 0 <= i < fs.len() ==> #[trigger] fs[i].all_passed,
    decreases fs.len(),
{
    if fs.len() > 0 {
        lemma_no_failing_all_passed(fs.drop_last());
        assert forall|i: int| 0 <= i < fs.len() implies #[trigger] fs[i].all_passed by {
            if i < fs.len() - 1 {
                assert(fs[i] == fs.drop_last()[i]);
            }
        }
    }
}

/// A complete Proof Certificate for a single build.
#[derive(Clone, Debug, PartialEq)]
pub struct ProofCertificate {
    /// Schema version of the emitted manifest.
    pub manifest_version: u32,
    /// Build identifier (typically a git SHA or CI run number).
    pub build_id: String,
    /// ISO-8601 timestamp of the build.
    pub timestamp: String,
    /// Exact `tpt-telos` version used to produce this certificate.
    pub telos_version: String,
    /// All verified-function entries in this certificate.
    pub entries: Vec<CertificateEntry>,
    /// Whether conclusions discharged by approximation may be listed.
    pub allow_approximations: bool,
}

/// Why a certificate could not be assembled from native tool output.
#[derive(Clone, Debug, PartialEq, Eq)]
pub enum AssemblyError {
    /// The verification report contained no functions at all.
    NoVerifiedFunctions,
    /// A report entry (function or branch) failed to discharge.
    UnverifiedFunction(String),
    /// A verified function carried no usable source location.
    MissingSourceSpan(String),
    /// An entry was not covered by the report.
    UnsupportedEntry(String),
    /// The assembled certificate is not certifiable; carries its first
    /// blocking problem.
    NotCertifiable(String),
}

/// The one-line description of an assembly error.
pub open spec fn error_message(e: AssemblyError) -> Seq<char> {
    match e {
        AssemblyError::NoVerifiedFunctions => "verification report contains no functions"@,
        AssemblyError::UnverifiedFunction(name) => "proof obligation not discharged for "@ + name@,
        AssemblyError::MissingSourceSpan(name) => "no usable source span reported for "@ + name@,
        AssemblyError::UnsupportedEntry(name) => name@ + " is not supported by the native verification report"@,
        AssemblyError::NotCertifiable(problem) => "certificate not certifiable: "@ + problem@,
    }
}

impl AssemblyError {
    /// A one-line, audit-facing description.
    pub fn message(&self) -> (r: String)
        ensures
            r@ == error_message(*self),
    {
        match self {
            AssemblyError::NoVerifiedFunctions => owned("verification report contains no functions"),
            AssemblyError::UnverifiedFunction(name) => {
                let mut m = owned("proof obligation not discharged for ");
                m.append(name.as_str());
                m
            },
            AssemblyError::MissingSourceSpan(name) => {
                let mut m = owned("no usable source span reported for ");
                m.append(name.as_str());
                m
            },
            AssemblyError::UnsupportedEntry(name) => {
                let mut m = name.clone();
                m.append(" is not supported by the native verification report");
                m
            },
            AssemblyError::NotCertifiable(problem) => {
                let mut m = owned("certificate not certifiable: ");
                m.append(problem.as_str());
                m
            },
        }
    }
}

/// The problems of one entry, as strings.
fn entry_problem_strings(entry: &CertificateEntry, allow_approximations: bool) -> (r: Vec<String>)
    ensures
        string_views(r@) == entry_problems(entry_facts(*entry), allow_approximations),
{
    let ghost f = entry_facts(*entry);
    let mut out: Vec<String> = Vec::new();
    if !entry.source_location.is_valid() {
        let mut m = entry.function.clone();
        m.append(": source span ");
        append_decimal(&mut m, entry.source_location.line_start as u64);
        m.append("..");
        append_decimal(&mut m, entry.source_location.line_end as u64);
        m.append(" is not a usable reference");
        out.push(m);
    }
    let ghost a = string_views(out@);
    assert(a =~= if !span_is_usable(f.line_start, f.line_end) {
        seq![span_problem(f)]
    } else {
        Seq::empty()
    });
    if !entry.has_native_evidence() {
        let mut m = entry.function.clone();
        m.append(": no native tpt-telos verification record");
        out.push(m);
    }
    let ghost b = string_views(out@);
    assert(b =~= a + if !f.evidence {
        seq![evidence_problem(f)]
    } else {
        Seq::empty()
    });
    if !entry.epsilon_is_derived() {
        let mut m = entry.function.clone();
        m.append(": published epsilon is not the derived realization bound");
        out.push(m);
    }
    let ghost c = string_views(out@);
    assert(c =~= b + if !f.derived {
        seq![derived_problem(f)]
    } else {
        Seq::empty()
    });
    if entry.native_approximations > 0 && !allow_approximations {
        let mut m = entry.function.clone();
        m.append(": ");
        append_decimal(&mut m, entry.native_approximations as u64);
        m.append(" conclusion(s) discharged by approximation, which cannot be certified as exact");
        out.push(m);
    }
    assert(string_views(out@) =~= c + if f.approximations > 0 && !allow_approximations {
        seq![approximation_problem(f)]
    } else {
        Seq::empty()
    });
    out
}

impl ProofCertificate {
    /// An empty certificate shell with the toolchain that produced it.
    pub fn new(build_id: String, timestamp: String, telos_version: String) -> (r: Self)
        ensures
            r.manifest_version == MANIFEST_VERSION,
            r.build_id == build_id,
            r.timestamp == timestamp,
            r.telos_version == telos_version,
            r.entries@.len() == 0,
            !r.allow_approximations,
    {
        ProofCertificate {
            manifest_version: MANIFEST_VERSION,
            build_id,
            timestamp,
            telos_version,
            entries: Vec::new(),
            allow_approximations: false,
        }
    }

    /// Number of verified-function entries in this certificate.
    pub fn entry_count(&self) -> (r: usize)
        ensures
            r == self.entries@.len(),
    {
        self.entries.len()
    }

    /// Opts in to listing conclusions the tool discharged by approximation.
    pub fn allowing_approximations(self) -> (r: Self)
        ensures
            r == (ProofCertificate { allow_approximations: true, ..self }),
    {
        let mut c = self;
        c.allow_approximations = true;
        c
    }

    /// Structural completeness: non-empty, every entry has a usable source
    /// span and native evidence, and every published `ε` is the derived one.
    pub fn is_complete(&self) -> (r: bool)
        ensures
            r == entries_complete(self.entries@),
    {
        if self.entries.len() == 0 {
            return false;
        }
        let mut i: usize = 0;
        while i < self.entries.len()
            invariant
                i <= self.entries.len(),
                forall|j: int| 0 <= j < i ==> entry_complete(#[trigger] self.entries@[j]),
            decreases self.entries.len() - i,
        {
            let e = &self.entries[i];
            if !(e.source_location.is_valid() && e.has_native_evidence() && e.epsilon_is_derived()) {
                return false;
            }
            i += 1;
        }
        true
    }

    /// Every reason this certificate must not be emitted.
    pub fn blocking_problems(&self) -> (r: Vec<String>)
        ensures
            string_views(r@) == certificate_problems(facts_of(self.entries@), self.allow_approximations),
    {
        let mut problems: Vec<String> = Vec::new();
        if self.entries.len() == 0 {
            problems.push(owned("certificate has no entries"));
        }
        let ghost head = string_views(problems@);
        assert(head =~= if self.entries@.len() == 0 {
            seq!["certificate has no entries"@]
        } else {
            Seq::empty()
        });
        let mut i: usize = 0;
        while i < self.entries.len()
            invariant
                i <= self.entries.len(),
                string_views(problems@) == head + problems_of(
                    facts_of(self.entries@.take(i as int)),
                    self.allow_approximations,
                ),
            decreases self.entries.len() - i,
        {
            let mut more = entry_problem_strings(&self.entries[i], self.allow_approximations);
            let ghost before = string_views(problems@);
            let ghost extra = string_views(more@);
            problems.append(&mut more);
            proof {
                assert(facts_of(self.entries@.take(i + 1)).drop_last() =~= facts_of(
                    self.entries@.take(i as int),
                ));
                assert(facts_of(self.entries@.take(i + 1)).last() == entry_facts(
                    self.entries@[i as int],
                ));
                assert(string_views(problems@) =~= before + extra);
            }
            i += 1;
        }
        assert(self.entries@.take(self.entries.len() as int) =~= self.entries@);
        problems
    }

    /// The certification rule: structurally complete and free of blocking problems.
    pub fn is_certifiable(&self) -> (r: bool)
        ensures
            r == (entries_complete(self.entries@) && certificate_problems(
                facts_of(self.entries@),
                self.allow_approximations,
            ).len() == 0),
    {
        self.is_complete() && self.blocking_problems().len() == 0
    }

    /// Cross-checks every entry against the native proof manifest: each
    /// entry's function (by its trailing path segment or its full name) must
    /// be listed as verified, and the manifest must list only verified
    /// functions.
    pub fn is_supported_by(&self, native: &TelosProofManifest) -> (r: bool)
        ensures
            r == manifest_supports(self.entries@, native.functions@),
    {
        if !native.all_functions_verified() {
            return false;
        }
        let verified = native.verified_function_names();
        let mut i: usize = 0;
        while i < self.entries.len()
            invariant
                i <= self.entries.len(),
                forall|x: Seq<char>| #[trigger] views(verified@).contains(x) <==> manifest_verifies(
                    native.functions@,
                    x,
                ),
                forall|j: int|
                    0 <= j < i ==> manifest_verifies(
                        native.functions@,
                        last_path_segment(#[trigger] self.entries@[j].function@),
                    ) || manifest_verifies(native.functions@, self.entries@[j].function@),
            decreases self.entries.len() - i,
        {
            let e = &self.entries[i];
            if !(contains_str(&verified, base_name(e.function.as_str())) || contains_str(
                &verified,
                e.function.as_str(),
            )) {
                return false;
            }
            i += 1;
        }
        true
    }

    /// Whether an entry is covered by the report, directly or through one of
    /// its declared native supporters.
    fn entry_supported(entry: &CertificateEntry, report: &VerifyReport) -> (r: bool)
        ensures
            r == report_supports(*entry, *report),
    {
        let direct = report.is_verified(base_name(entry.function.as_str())) || report.is_verified(
            entry.function.as_str(),
        );
        if direct {
            return true;
        }
        let mut k: usize = 0;
        while k < entry.native_support.len()
            invariant
                k <= entry.native_support.len(),
                !passing_bases(report.functions@).contains(last_path_segment(entry.function@)),
                !passing_bases(report.functions@).contains(entry.function@),
                forall|j: int|
                    0 <= j < k ==> !passing_bases(report.functions@).contains(
                        last_path_segment(#[trigger] entry.native_support@[j]@),
                    ),
            decreases entry.native_support.len() - k,
        {
            if report.is_verified(base_name(entry.native_support[k].as_str())) {
                assert(passing_bases(report.functions@).contains(
                    last_path_segment(entry.native_support@[k as int]@),
                ));
                return true;
            }
            k += 1;
        }
        false
    }

    /// Cross-checks every entry against a verification report: the report
    /// must show every entry as passed, and each entry must be covered
    /// directly or through one of its declared native supporters.
    pub fn is_supported_by_report(&self, report: &VerifyReport) -> (r: bool)
        ensures
            r == ((report.functions@.len() > 0 && forall|i: int|
                0 <= i < report.functions@.len() ==> #[trigger] report.functions@[i].all_passed)
                && forall|i: int|
                0 <= i < self.entries@.len() ==> report_supports(
                    #[trigger] self.entries@[i],
                    *report,
                )),
    {
        if !report.all_functions_passed() {
            return false;
        }
        let mut i: usize = 0;
        while i < self.entries.len()
            invariant
                i <= self.entries.len(),
                forall|j: int| 0 <= j < i ==> report_supports(#[trigger] self.entries@[j], *report),
            decreases self.entries.len() - i,
        {
            if !Self::entry_supported(&self.entries[i], report) {
                return false;
            }
            i += 1;
        }
        true
    }

    /// Assembles a certificate for one `.telos` source from the tool's own
    /// verification report, plus the artifact-level entries the caller
    /// supplies.
    ///
    /// Certification rule: an empty report, any failed entry, a verified function
    /// without a usable source span, an entry the report does not support, or
    /// any blocking problem makes this return `Err`.
    pub fn assemble_from_report(
        report: &VerifyReport,
        build_id: String,
        timestamp: String,
        telos_version: String,
        artifact_entries: Vec<CertificateEntry>,
        allow_approximations: bool,
    ) -> (r: Result<Self, AssemblyError>)
        requires
            all_checks(report.functions@).len() <= usize::MAX,
        ensures
            report.functions@.len() == 0 ==> r == Err::<Self, AssemblyError>(
                AssemblyError::NoVerifiedFunctions,
            ),
            report.functions@.len() > 0 && failing_names(report.functions@).len() > 0 ==> (r matches Err(
                AssemblyError::UnverifiedFunction(n),
            ) && n@ == failing_names(report.functions@)[0]),
            report_all_passed(*report) && !all_spans_usable(*report) ==> (r matches Err(
                AssemblyError::MissingSourceSpan(n),
            ) && exists|k: int| first_unusable_span(*report, k) && n@ == report_names(*report)[k]),
            report_all_passed(*report) && all_spans_usable(*report) && !all_supported(
                *report,
                artifact_entries@,
            ) ==> (r matches Err(AssemblyError::UnsupportedEntry(n)) && exists|k: int|
                first_unsupported(*report, artifact_entries@, k) && n@
                    == artifact_entries@[k].function@),
            passes_before_problems(*report, artifact_entries@) && certificate_problems(
                assembled_facts(*report, artifact_entries@),
                allow_approximations,
            ).len() > 0 ==> (r matches Err(AssemblyError::NotCertifiable(p)) && p@
                == certificate_problems(
                assembled_facts(*report, artifact_entries@),
                allow_approximations,
            )[0]),
            passes_before_problems(*report, artifact_entries@) && certificate_problems(
                assembled_facts(*report, artifact_entries@),
                allow_approximations,
            ).len() == 0 ==> (r matches Ok(c) && {
                &&& c.manifest_version == MANIFEST_VERSION
                &&& c.build_id == build_id
                &&& c.timestamp == timestamp
                &&& c.telos_version == telos_version
                &&& c.allow_approximations == allow_approximations
                &&& c.entries@.len() == report_names(*report).len() + artifact_entries@.len()
                &&& forall|k: int|
                    0 <= k < report_names(*report).len() ==> is_native_entry(
                        #[trigger] c.entries@[k],
                        *report,
                        report_names(*report)[k],
                    )
                &&& forall|k: int|
                    0 <= k < artifact_entries@.len() ==> #[trigger] c.entries@[report_names(
                        *report,
                    ).len() + k] == artifact_entries@[k]
            }),
            r matches Ok(c) ==> entries_complete(c.entries@) && certificate_problems(
                facts_of(c.entries@),
                c.allow_approximations,
            ).len() == 0 && report.functions@.len() > 0 && (forall|i: int|
                0 <= i < report.functions@.len() ==> #[trigger] report.functions@[i].all_passed)
                && forall|i: int|
                0 <= i < c.entries@.len() ==> report_supports(#[trigger] c.entries@[i], *report),
    {
        if report.functions.len() == 0 {
            return Err(AssemblyError::NoVerifiedFunctions);
        }
        let failing = report.failing_function_names();
        if failing.len() > 0 {
            return Err(AssemblyError::UnverifiedFunction(owned(failing[0])));
        }
        let mut certificate = ProofCertificate::new(build_id, timestamp, telos_version);
        if allow_approximations {
            certificate = certificate.allowing_approximations();
        }
        let names = report.verified_function_names();
        let ghost names_v = views(names@);
        assert(names_v == report_names(*report));
        let mut entries: Vec<CertificateEntry> = Vec::new();
        let mut k: usize = 0;
        while k < names.len()
            invariant
                k <= names.len(),
                names_v == views(names@),
                names_v == report_names(*report),
                report_all_passed(*report),
                all_checks(report.functions@).len() <= usize::MAX,
                entries@.len() == k,
                forall|j: int| 0 <= j < k ==> span_usable_for(*report, #[trigger] names_v[j]),
                forall|j: int|
                    0 <= j < k ==> is_native_entry(#[trigger] entries@[j], *report, names_v[j]),
            decreases names.len() - k,
        {
            let name = names[k];
            assert(name@ == names_v[k as int]);
            proof {
                lemma_matching_within_all(report.functions@, name@);
                lemma_approximations_bounded(matching_checks(report.functions@, name@));
            }
            let span = report.source_span(name);
            let (line_start, line_end) = match span {
                Some(p) => p,
                None => {
                    assert(first_unusable_span(*report, k as int));
                    return Err(AssemblyError::MissingSourceSpan(owned(name)));
                },
            };
            let source_location = match SourceLocation::new(report.file.clone(), line_start, line_end) {
                Some(l) => l,
                None => {
                    assert(first_unusable_span(*report, k as int));
                    return Err(AssemblyError::MissingSourceSpan(owned(name)));
                },
            };
            let texts = report.ensures_texts(name);
            let entry = CertificateEntry {
                function: owned(name),
                source_location,
                ideal_contract: join_strings(&texts, " && "),
                realization_contract: String::new(),
                epsilon: None,
                composition_lemmas: Vec::new(),
                regulatory_objective: RegulatoryObjective::Do178cFormalMethods,
                objective_rows: Do178cTableA5Row::default_for_verified_contract(),
                native_support: Vec::new(),
                native_checks: report.check_count(name),
                native_approximations: report.approximation_count(name),
                realization: None,
            };
            entries.push(entry);
            proof {
                assert(entries@[k as int] == entry);
            }
            k += 1;
        }
        let mut a: usize = 0;
        while a < artifact_entries.len()
            invariant
                a <= artifact_entries.len(),
                report_all_passed(*report),
                all_spans_usable(*report),
                forall|j: int| 0 <= j < a ==> report_supports(#[trigger] artifact_entries@[j], *report),
            decreases artifact_entries.len() - a,
        {
            if !Self::entry_supported(&artifact_entries[a], report) {
                assert(first_unsupported(*report, artifact_entries@, a as int));
                return Err(AssemblyError::UnsupportedEntry(artifact_entries[a].function.clone()));
            }
            a += 1;
        }
        assert(all_spans_usable(*report)) by {
            assert forall|j: int| 0 <= j < report_names(*report).len() implies span_usable_for(
                *report,
                #[trigger] report_names(*report)[j],
            ) by {
                assert(span_usable_for(*report, names_v[j]));
            }
        }
        let ghost natives = entries@;
        let mut artifacts = artifact_entries;
        entries.append(&mut artifacts);
        certificate.entries = entries;
        proof {
            assert(certificate.entries@ == natives + artifact_entries@);
            let nf = names_v.map_values(|n: Seq<char>| native_facts(*report, n));
            assert(facts_of(natives) =~= nf) by {
                assert forall|j: int| 0 <= j < natives.len() implies #[trigger] facts_of(natives)[j]
                    == nf[j] by {
                    assert(is_native_entry(natives[j], *report, names_v[j]));
                    assert(span_usable_for(*report, names_v[j]));
                }
            }
            assert(facts_of(certificate.entries@) =~= assembled_facts(*report, artifact_entries@));
        }
        let problems = certificate.blocking_problems();
        if problems.len() > 0 {
            assert(string_views(problems@)[0] == problems@[0]@);
            return Err(AssemblyError::NotCertifiable(problems[0].clone()));
        }
        proof {
            assert forall|j: int| 0 <= j < artifact_entries@.len() implies #[trigger] certificate.entries@[names_v.len() + j]
                == artifact_entries@[j] by {
            }
            lemma_certifiable_iff_no_problems(certificate);
            lemma_no_failing_all_passed(report.functions@);
            assert forall|i: int| 0 <= i < certificate.entries@.len() implies report_supports(
                #[trigger] certificate.entries@[i],
                *report,
            ) by {
                if i < names_v.len() {
                    assert(is_native_entry(certificate.entries@[i], *report, names_v[i]));
                    assert(names_v.contains(names_v[i]));
                } else {
                    assert(certificate.entries@[i] == artifact_entries@[i - names_v.len()]);
                }
            }
        }
        Ok(certificate)
    }

}

} // verus!
