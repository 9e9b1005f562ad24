//! The per-function, per-check verification report that `telos verify --json`
//! emits, and the queries a certificate is assembled from.
//!
//! The report itself is read from JSON outside this crate; here it is a plain
//! value, and every query over it has an exact contract.
use vstd::prelude::*;

use crate::text::{
    before_first, chars_of, find_first, first_at, insert_sorted, lemma_is_sorted_elements,
    sorted_elements, str_eq, strictly_sorted, trim_end, trimmed_len, views,
};

verus! {

/// A source location reported by the tool (1-based line/column).
#[derive(Clone, Copy, Debug, PartialEq, Eq)]
pub struct VerifyLocation {
    /// 1-based line number.
    pub line: u32,
    /// 1-based column number.
    pub column: u32,
}

/// One conclusion check inside a verified function.
#[derive(Clone, Debug, PartialEq)]
pub struct VerifyCheck {
    /// Human-readable conclusion text (e.g. `ensures: out.flag == 1`).
    pub description: String,
    /// Whether the solver discharged this conclusion.
    pub passed: bool,
    /// Whether the conclusion came from an `ensures` clause.
    pub is_ensures: bool,
    /// Whether the conclusion was discharged by interval-arithmetic bounding
    /// rather than exact arithmetic.
    pub is_approximation: bool,
    /// Counterexample assignments for a failed conclusion: each variable with
    /// the JSON text of its value, in variable-name order.
    pub counterexample: Option<Vec<(String, String)>>,
    /// Index of the disjunction group this check belongs to.
    pub or_group: Option<u32>,
    /// Where in the `.telos` source the conclusion is written.
    pub location: Option<VerifyLocation>,
}

/// One function (or one branch of a function) from the report.
#[derive(Clone, Debug, PartialEq)]
pub struct VerifyFunction {
    /// Report name, e.g. `slab_hit_decided[branch 1]`.
    pub func_name: String,
    /// Whether every conclusion for this function/branch was discharged.
    pub all_passed: bool,
    /// The individual conclusions inspected.
    pub checks: Vec<VerifyCheck>,
}

/// The complete report for one `.telos` source.
#[derive(Clone, Debug, PartialEq)]
pub struct VerifyReport {
    /// The source path as passed to the tool.
    pub file: String,
    /// Tool-level verdict.
    pub passed: bool,
    /// Per-function results.
    pub functions: Vec<VerifyFunction>,
}

/// A report name without its `[branch N]` suffix: the text before the first
/// `[`, with trailing white space removed; the whole name when there is no `[`.
pub open spec fn base_name_of(s: Seq<char>) -> Seq<char> {
    if exists|i: int| first_at(s, '[', i) {
        trim_end(before_first(s, '['))
    } else {
        s
    }
}

/// The base name of a report entry.
pub open spec fn fn_base(f: VerifyFunction) -> Seq<char> {
    base_name_of(f.func_name@)
}

/// Base names of the entries that passed.
pub open spec fn passing_bases(fs: Seq<VerifyFunction>) -> Set<Seq<char>> {
    Set::new(|x: Seq<char>| exists|i: int| 0 <= i < fs.len() && #[trigger] fs[i].all_passed
        && fn_base(fs[i]) == x)
}

/// Report names of the entries that failed, in report order.
pub open spec fn failing_names(fs: Seq<VerifyFunction>) -> Seq<Seq<char>>
    decreases fs.len(),
{
    if fs.len() == 0 {
        Seq::empty()
    } else if fs.last().all_passed {
        failing_names(fs.drop_last())
    } else {
        failing_names(fs.drop_last()).push(fs.last().func_name@)
    }
}

/// All checks of the entries whose base name is `base`, in report order.
pub open spec fn matching_checks(fs: Seq<VerifyFunction>, base: Seq<char>) -> Seq<VerifyCheck>
    decreases fs.len(),
{
    if fs.len() == 0 {
        Seq::empty()
    } else if fn_base(fs.last()) == base {
        matching_checks(fs.drop_last(), base) + fs.last().checks@
    } else {
        matching_checks(fs.drop_last(), base)
    }
}

/// All checks of the report, in report order.
pub open spec fn all_checks(fs: Seq<VerifyFunction>) -> Seq<VerifyCheck>
    decreases fs.len(),
{
    if fs.len() == 0 {
        Seq::empty()
    } else {
        all_checks(fs.drop_last()) + fs.last().checks@
    }
}

/// Number of approximation-discharged checks.
pub open spec fn approximations(cs: Seq<VerifyCheck>) -> nat
    decreases cs.len(),
{
    if cs.len() == 0 {
        0
    } else {
        approximations(cs.drop_last()) + if cs.last().is_approximation {
            1nat
        } else {
            0nat
        }
    }
}

/// The lines of the checks that carry a location, in order.
pub open spec fn located_lines(cs: Seq<VerifyCheck>) -> Seq<u32>
    decreases cs.len(),
{
    if cs.len() == 0 {
        Seq::empty()
    } else {
        match cs.last().location {
            Some(l) => located_lines(cs.drop_last()).push(l.line),
            None => located_lines(cs.drop_last()),
        }
    }
}

/// The descriptions of the `ensures` checks, in order.
pub open spec fn ensures_descriptions(cs: Seq<VerifyCheck>) -> Seq<Seq<char>>
    decreases cs.len(),
{
    if cs.len() == 0 {
        Seq::empty()
    } else if cs.last().is_ensures {
        ensures_descriptions(cs.drop_last()).push(cs.last().description@)
    } else {
        ensures_descriptions(cs.drop_last())
    }
}

/// `s` with every element after its first occurrence removed.
pub open spec fn dedup(s: Seq<Seq<char>>) -> Seq<Seq<char>>
    decreases s.len(),
{
    if s.len() == 0 {
        Seq::empty()
    } else if dedup(s.drop_last()).contains(s.last()) {
        dedup(s.drop_last())
    } else {
        dedup(s.drop_last()).push(s.last())
    }
}

/// The smallest and largest of the located lines, when there is any.
pub open spec fn span_of(lines: Seq<u32>) -> Option<(u32, u32)> {
    if lines.len() == 0 {
        None
    } else {
        Some(
            choose|p: (u32, u32)|
                lines.contains(p.0) && lines.contains(p.1) && forall|k: int|
                    0 <= k < lines.len() ==> p.0 <= #[trigger] lines[k] <= p.1,
        )
    }
}

/// The character views of a sequence of strings.
pub open spec fn string_views(v: Seq<String>) -> Seq<Seq<char>> {
    v.map_values(|s: String| s@)
}

proof fn lemma_span_unique(lines: Seq<u32>, lo: u32, hi: u32)
    requires
        lines.contains(lo),
        lines.contains(hi),
        forall|k: int| 0 <= k < lines.len() ==> lo <= #[trigger] lines[k] <= hi,
    ensures
        span_of(lines) == Some((lo, hi)),
{
    let w = (lo, hi);
    assert(lines.contains(w.0) && lines.contains(w.1) && forall|k: int|
        0 <= k < lines.len() ==> w.0 <= #[trigger] lines[k] <= w.1);
    let p = choose|p: (u32, u32)|
        lines.contains(p.0) && lines.contains(p.1) && forall|k: int|
            0 <= k < lines.len() ==> p.0 <= #[trigger] lines[k] <= p.1;
    let i = choose|i: int| 0 <= i < lines.len() && lines[i] == p.0;
    let j = choose|j: int| 0 <= j < lines.len() && lines[j] == p.1;
    let a = choose|a: int| 0 <= a < lines.len() && lines[a] == lo;
    let b = choose|b: int| 0 <= b < lines.len() && lines[b] == hi;
    assert(lines[i] >= lo && lines[a] >= p.0);
    assert(lines[j] <= hi && lines[b] <= p.1);
}

impl VerifyReport {
    /// Strips a report entry's `[branch N]` suffix, leaving the `.telos`
    /// function name.
    pub fn base_function_name(report_name: &str) -> (r: &str)
        ensures
            r@ == base_name_of(report_name@),
    {
        let cs = chars_of(report_name);
        match find_first(&cs, '[') {
            Some(i) => {
                let k = trimmed_len(&cs, i);
                proof {
                    let c = choose|j: int| first_at(report_name@, '[', j);
                    assert(first_at(report_name@, '[', c));
                    assert(c == i as int);
                }
                report_name.substring_char(0, k)
            },
            None => {
                assert(!exists|i: int| first_at(report_name@, '[', i));
                report_name
            },
        }
    }

    /// Whether the report is non-empty and every entry passed.
    pub fn all_functions_passed(&self) -> (r: bool)
        ensures
            r == (self.functions.len() > 0 && forall|i: int|
                0 <= i < self.functions.len() ==> #[trigger] self.functions@[i].all_passed),
    {
        if self.functions.len() == 0 {
            return false;
        }
        let mut i: usize = 0;
        while i < self.functions.len()
            invariant
                i <= self.functions.len(),
                forall|j: int| 0 <= j < i ==> #[trigger] self.functions@[j].all_passed,
            decreases self.functions.len() - i,
        {
            if !self.functions[i].all_passed {
                return false;
            }
            i += 1;
        }
        true
    }

    /// Names of the fully discharged functions, deduplicated and sorted
    /// (branch results fold into their base name).
    pub fn verified_function_names(&self) -> (r: Vec<&str>)
        ensures
            strictly_sorted(views(r@)),
            forall|x: Seq<char>| #[trigger]
                views(r@).contains(x) <==> passing_bases(self.functions@).contains(x),
            views(r@) == sorted_elements(passing_bases(self.functions@)),
    {
        let mut names: Vec<&str> = Vec::new();
        let mut i: usize = 0;
        while i < self.functions.len()
            invariant
                i <= self.functions.len(),
                strictly_sorted(views(names@)),
                forall|x: Seq<char>| #[trigger]
                    views(names@).contains(x) <==> passing_bases(
                        self.functions@.take(i as int),
                    ).contains(x),
            decreases self.functions.len() - i,
        {
            let ghost before = self.functions@.take(i as int);
            let ghost after = self.functions@.take(i + 1);
            let f = &self.functions[i];
            if f.all_passed {
                let base = Self::base_function_name(f.func_name.as_str());
                insert_sorted(&mut names, base);
            }
            proof {
                assert forall|x: Seq<char>| #[trigger]
                    passing_bases(after).contains(x) <==> (passing_bases(before).contains(x) || (
                    self.functions@[i as int].all_passed && fn_base(self.functions@[i as int])
                        == x)) by {
                    if passing_bases(after).contains(x) {
                        let k = choose|k: int|
                            0 <= k < after.len() && #[trigger] after[k].all_passed && fn_base(
                                after[k],
                            ) == x;
                        if k < i {
                            assert(before[k] == after[k]);
                        }
                    }
                    if passing_bases(before).contains(x) {
                        let k = choose|k: int|
                            0 <= k < before.len() && #[trigger] before[k].all_passed && fn_base(
                                before[k],
                            ) == x;
                        assert(after[k] == before[k]);
                    }
                    if self.functions@[i as int].all_passed && fn_base(self.functions@[i as int])
                        == x {
                        assert(after[i as int] == self.functions@[i as int]);
                    }
                }
            }
            i += 1;
        }
        proof {
            assert(self.functions@.take(self.functions.len() as int) =~= self.functions@);
            lemma_is_sorted_elements(views(names@), passing_bases(self.functions@));
        }
        names
    }

    /// Names of entries that failed to discharge, in report order.
    pub fn failing_function_names(&self) -> (r: Vec<&str>)
        ensures
            views(r@) == failing_names(self.functions@),
    {
        let mut names: Vec<&str> = Vec::new();
        let mut i: usize = 0;
        while i < self.functions.len()
            invariant
                i <= self.functions.len(),
                views(names@) == failing_names(self.functions@.take(i as int)),
            decreases self.functions.len() - i,
        {
            let f = &self.functions[i];
            proof {
                assert(self.functions@.take(i + 1).drop_last() =~= self.functions@.take(
                    i as int,
                ));
            }
            if !f.all_passed {
                names.push(f.func_name.as_str());
                proof {
                    assert(views(names@) =~= failing_names(self.functions@.take(i as int)).push(
                        f.func_name@,
                    ));
                }
            }
            i += 1;
        }
        assert(self.functions@.take(self.functions.len() as int) =~= self.functions@);
        names
    }

    /// Total number of conclusions checked.  The disjuncts of one
    /// `||`-joined conclusion (checks of one entry that share an `or_group`)
    /// are one conclusion.
    pub fn total_checks(&self) -> (r: usize)
        requires
            all_checks(self.functions@).len() <= usize::MAX,
        ensures
            r == total_conclusions(self.functions@),
    {
        let mut total: usize = 0;
        let mut i: usize = 0;
        while i < self.functions.len()
            invariant
                i <= self.functions.len(),
                all_checks(self.functions@).len() <= usize::MAX,
                total == total_conclusions(self.functions@.take(i as int)),
                total <= all_checks(self.functions@.take(i as int)).len(),
            decreases self.functions.len() - i,
        {
            let checks = &self.functions[i].checks;
            proof {
                assert(self.functions@.take(i + 1).drop_last() =~= self.functions@.take(
                    i as int,
                ));
                lemma_all_checks_prefix(self.functions@, i + 1);
                lemma_conclusions_bounded(checks@);
            }
            let n = conclusions(checks);
            total = total + n;
            i += 1;
        }
        assert(self.functions@.take(self.functions.len() as int) =~= self.functions@);
        total
    }

    /// Number of conclusions discharged by approximation rather than exact
    /// arithmetic.
    pub fn approximation_checks(&self) -> (r: usize)
        requires
            all_checks(self.functions@).len() <= usize::MAX,
        ensures
            r == approximations(all_checks(self.functions@)),
    {
        let mut total: usize = 0;
        let mut i: usize = 0;
        while i < self.functions.len()
            invariant
                i <= self.functions.len(),
                all_checks(self.functions@).len() <= usize::MAX,
                total == approximations(all_checks(self.functions@.take(i as int))),
                total <= all_checks(self.functions@.take(i as int)).len(),
            decreases self.functions.len() - i,
        {
            let checks = &self.functions[i].checks;
            let ghost prefix = all_checks(self.functions@.take(i as int));
            proof {
                assert(self.functions@.take(i + 1).drop_last() =~= self.functions@.take(
                    i as int,
                ));
                assert(all_checks(self.functions@.take(i + 1)) == prefix + checks@);
                lemma_all_checks_prefix(self.functions@, i + 1);
            }
            let mut j: usize = 0;
            while j < checks.len()
                invariant
                    j <= checks.len(),
                    (prefix + checks@).len() <= usize::MAX,
                    total == approximations(prefix + checks@.take(j as int)),
                    total <= (prefix + checks@.take(j as int)).len(),
                decreases checks.len() - j,
            {
                proof {
                    assert((prefix + checks@.take(j + 1)).drop_last() =~= prefix + checks@.take(
                        j as int,
                    ));
                    assert((prefix + checks@.take(j + 1)).last() == checks@[j as int]);
                }
                if checks[j].is_approximation {
                    total = total + 1;
                }
                j += 1;
            }
            assert(checks@.take(checks.len() as int) =~= checks@);
            i += 1;
        }
        assert(self.functions@.take(self.functions.len() as int) =~= self.functions@);
        total
    }

    /// Whether `name` (a bare `.telos` function name) was fully discharged.
    pub fn is_verified(&self, name: &str) -> (r: bool)
        ensures
            r == passing_bases(self.functions@).contains(name@),
    {
        let mut i: usize = 0;
        while i < self.functions.len()
            invariant
                i <= self.functions.len(),
                forall|j: int|
                    0 <= j < i ==> !(#[trigger] self.functions@[j].all_passed && fn_base(
                        self.functions@[j],
                    ) == name@),
            decreases self.functions.len() - i,
        {
            let f = &self.functions[i];
            if f.all_passed && str_eq(Self::base_function_name(f.func_name.as_str()), name) {
                return true;
            }
            i += 1;
        }
        false
    }

    /// The 1-based inclusive source span of every conclusion belonging to a
    /// base function name, or `None` when the report carries no locations for
    /// it.
    pub fn source_span(&self, base_name: &str) -> (r: Option<(u32, u32)>)
        ensures
            r == span_of(located_lines(matching_checks(self.functions@, base_name@))),
    {
        let mut span: Option<(u32, u32)> = None;
        let mut i: usize = 0;
        while i < self.functions.len()
            invariant
                i <= self.functions.len(),
                span_inv(span, located_lines(matching_checks(self.functions@.take(i as int), base_name@))),
            decreases self.functions.len() - i,
        {
            let function = &self.functions[i];
            let ghost prefix = located_lines(matching_checks(self.functions@.take(i as int), base_name@));
            proof {
                assert(self.functions@.take(i + 1).drop_last() =~= self.functions@.take(
                    i as int,
                ));
            }
            if str_eq(Self::base_function_name(function.func_name.as_str()), base_name) {
                let checks = &function.checks;
                proof {
                    lemma_located_lines_concat(matching_checks(self.functions@.take(i as int), base_name@), checks@);
                }
                let mut j: usize = 0;
                while j < checks.len()
                    invariant
                        j <= checks.len(),
                        span_inv(span, prefix + located_lines(checks@.take(j as int))),
                    decreases checks.len() - j,
                {
                    proof {
                        assert(checks@.take(j + 1).drop_last() =~= checks@.take(j as int));
                    }
                    let ghost old_lines = prefix + located_lines(checks@.take(j as int));
                    if let Some(location) = checks[j].location {
                        let line = location.line;
                        span = Some(match span {
                            None => (line, line),
                            Some((lo, hi)) => (if line < lo { line } else { lo }, if line > hi { line } else { hi }),
                        });
                        proof {
                            let new_lines = prefix + located_lines(checks@.take(j + 1));
                            assert(new_lines =~= old_lines.push(line));
                            assert(new_lines[new_lines.len() - 1] == line);
                            match span {
                                Some((lo, hi)) => {
                                    assert forall|k: int| 0 <= k < new_lines.len() implies lo <= #[trigger] new_lines[k] <= hi by {
                                        if k < old_lines.len() {
                                            assert(new_lines[k] == old_lines[k]);
                                        }
                                    }
                                    if lo == line {
                                        assert(new_lines.contains(lo));
                                    } else {
                                        let a = choose|a: int| 0 <= a < old_lines.len() && old_lines[a] == lo;
                                        assert(new_lines[a] == lo);
                                    }
                                    if hi == line {
                                        assert(new_lines.contains(hi));
                                    } else {
                                        let a = choose|a: int| 0 <= a < old_lines.len() && old_lines[a] == hi;
                                        assert(new_lines[a] == hi);
                                    }
                                },
                                None => {},
                            }
                        }
                    } else {
                        proof {
                            assert(prefix + located_lines(checks@.take(j + 1)) =~= old_lines);
                        }
                    }
                    j += 1;
                }
                assert(checks@.take(checks.len() as int) =~= checks@);
            } else {
            }
            i += 1;
        }
        assert(self.functions@.take(self.functions.len() as int) =~= self.functions@);
        proof {
            let lines = located_lines(matching_checks(self.functions@, base_name@));
            match span {
                Some((lo, hi)) => {
                    lemma_span_unique(lines, lo, hi);
                },
                None => {},
            }
        }
        span
    }

    /// The `ensures` conclusion texts for a base function name (deduplicated,
    /// report order).
    pub fn ensures_texts(&self, base_name: &str) -> (r: Vec<String>)
        ensures
            string_views(r@) == dedup(
                ensures_descriptions(matching_checks(self.functions@, base_name@)),
            ),
    {
        let mut texts: Vec<String> = Vec::new();
        let mut i: usize = 0;
        while i < self.functions.len()
            invariant
                i <= self.functions.len(),
                string_views(texts@) == dedup(
                    ensures_descriptions(matching_checks(self.functions@.take(i as int), base_name@)),
                ),
            decreases self.functions.len() - i,
        {
            let function = &self.functions[i];
            let ghost pre = matching_checks(self.functions@.take(i as int), base_name@);
            proof {
                assert(self.functions@.take(i + 1).drop_last() =~= self.functions@.take(
                    i as int,
                ));
            }
            if str_eq(Self::base_function_name(function.func_name.as_str()), base_name) {
                let checks = &function.checks;
                let mut j: usize = 0;
                while j < checks.len()
                    invariant
                        j <= checks.len(),
                        string_views(texts@) == dedup(ensures_descriptions(pre + checks@.take(j as int))),
                    decreases checks.len() - j,
                {
                    let ghost cur = pre + checks@.take(j as int);
                    proof {
                        assert((pre + checks@.take(j + 1)).drop_last() =~= cur);
                        assert((pre + checks@.take(j + 1)).last() == checks@[j as int]);
                    }
                    let check = &checks[j];
                    proof {
                        let e_old = ensures_descriptions(cur);
                        let e_new = ensures_descriptions(pre + checks@.take(j + 1));
                        if check.is_ensures {
                            assert(e_new == e_old.push(check.description@));
                            assert(e_new.drop_last() =~= e_old);
                        } else {
                            assert(e_new == e_old);
                        }
                    }
                    if check.is_ensures {
                        let present = contains_string(&texts, &check.description);
                        if !present {
                            texts.push(check.description.clone());
                            proof {
                                assert(string_views(texts@) =~= dedup(ensures_descriptions(cur)).push(check.description@));
                            }
                        }
                    }
                    j += 1;
                }
                assert(checks@.take(checks.len() as int) =~= checks@);
            }
            i += 1;
        }
        assert(self.functions@.take(self.functions.len() as int) =~= self.functions@);
        texts
    }

    /// Number of conclusions recorded for a base function name.
    pub fn check_count(&self, base_name: &str) -> (r: usize)
        requires
            matching_checks(self.functions@, base_name@).len() <= usize::MAX,
        ensures
            r == matching_checks(self.functions@, base_name@).len(),
    {
        let mut total: usize = 0;
        let mut i: usize = 0;
        while i < self.functions.len()
            invariant
                i <= self.functions.len(),
                matching_checks(self.functions@, base_name@).len() <= usize::MAX,
                total == matching_checks(self.functions@.take(i as int), base_name@).len(),
            decreases self.functions.len() - i,
        {
            proof {
                assert(self.functions@.take(i + 1).drop_last() =~= self.functions@.take(
                    i as int,
                ));
                lemma_matching_checks_prefix(self.functions@, base_name@, i + 1);
            }
            let function = &self.functions[i];
            if str_eq(Self::base_function_name(function.func_name.as_str()), base_name) {
                total = total + function.checks.len();
            }
            i += 1;
        }
        assert(self.functions@.take(self.functions.len() as int) =~= self.functions@);
        total
    }

    /// Number of approximation-discharged conclusions for a base function
    /// name.
    pub fn approximation_count(&self, base_name: &str) -> (r: usize)
        requires
            matching_checks(self.functions@, base_name@).len() <= usize::MAX,
        ensures
            r == approximations(matching_checks(self.functions@, base_name@)),
    {
        let mut total: usize = 0;
        let mut i: usize = 0;
        while i < self.functions.len()
            invariant
                i <= self.functions.len(),
                matching_checks(self.functions@, base_name@).len() <= usize::MAX,
                total == approximations(matching_checks(self.functions@.take(i as int), base_name@)),
                total <= matching_checks(self.functions@.take(i as int), base_name@).len(),
            decreases self.functions.len() - i,
        {
            let function = &self.functions[i];
            let ghost prefix = matching_checks(self.functions@.take(i as int), base_name@);
            proof {
                assert(self.functions@.take(i + 1).drop_last() =~= self.functions@.take(
                    i as int,
                ));
            }
            if str_eq(Self::base_function_name(function.func_name.as_str()), base_name) {
                let checks = &function.checks;
                proof {
                    lemma_matching_checks_prefix(self.functions@, base_name@, i + 1);
                    assert(matching_checks(self.functions@.take(i + 1), base_name@) == prefix + checks@);
                }
                let mut j: usize = 0;
                while j < checks.len()
                    invariant
                        j <= checks.len(),
                        (prefix + checks@).len() <= usize::MAX,
                        total == approximations(prefix + checks@.take(j as int)),
                        total <= (prefix + checks@.take(j as int)).len(),
                    decreases checks.len() - j,
                {
                    proof {
                        assert((prefix + checks@.take(j + 1)).drop_last() =~= prefix + checks@.take(
                            j as int,
                        ));
                        assert((prefix + checks@.take(j + 1)).last() == checks@[j as int]);
                    }
                    if checks[j].is_approximation {
                        total = total + 1;
                    }
                    j += 1;
                }
                assert(checks@.take(checks.len() as int) =~= checks@);
            }
            i += 1;
        }
        assert(self.functions@.take(self.functions.len() as int) =~= self.functions@);
        total
    }
}

impl VerifyCheck {
    /// A one-line provenance summary used in certificate contract strings.
    pub fn summary(&self) -> (r: String)
        ensures
            r@ == self.description@ + (if self.is_approximation {
                " (approximation-discharged)"@
            } else {
                Seq::empty()
            }) + (if !self.passed {
                " (FAILED)"@
            } else {
                Seq::empty()
            }),
    {
        let mut out = self.description.clone();
        if self.is_approximation {
            out.append(" (approximation-discharged)");
        }
        if !self.passed {
            out.append(" (FAILED)");
        }
        out
    }
}

/// Check `k` opens a conclusion: it belongs to no disjunction group, or no
/// earlier check of the same entry belongs to its group.
pub open spec fn opens_conclusion(cs: Seq<VerifyCheck>, k: int) -> bool {
    cs[k].or_group is None || forall|j: int| 0 <= j < k ==> #[trigger] cs[j].or_group != cs[k].or_group
}

/// Number of conclusions among one entry's checks.
pub open spec fn conclusions_in(cs: Seq<VerifyCheck>) -> nat
    decreases cs.len(),
{
    if cs.len() == 0 {
        0
    } else {
        conclusions_in(cs.drop_last()) + if opens_conclusion(cs, cs.len() - 1) {
            1nat
        } else {
            0nat
        }
    }
}

/// Number of conclusions in the whole report.
pub open spec fn total_conclusions(fs: Seq<VerifyFunction>) -> nat
    decreases fs.len(),
{
    if fs.len() == 0 {
        0
    } else {
        total_conclusions(fs.drop_last()) + conclusions_in(fs.last().checks@)
    }
}

proof fn lemma_conclusions_bounded(cs: Seq<VerifyCheck>)
    ensures
        conclusions_in(cs) <= cs.len(),
    decreases cs.len(),
{
    if cs.len() > 0 {
        lemma_conclusions_bounded(cs.drop_last());
    }
}

/// Number of conclusions among `checks`.
fn conclusions(checks: &Vec<VerifyCheck>) -> (r: usize)
    ensures
        r == conclusions_in(checks@),
{
    let mut count: usize = 0;
    let mut k: usize = 0;
    while k < checks.len()
        invariant
            k <= checks.len(),
            count == conclusions_in(checks@.take(k as int)),
            count <= k,
        decreases checks.len() - k,
    {
        let opens = match checks[k].or_group {
            None => true,
            Some(g) => {
                let mut j: usize = 0;
                let mut fresh = true;
                while j < k
                    invariant
                        j <= k < checks.len(),
                        checks@[k as int].or_group == Some(g),
                        fresh == forall|m: int| 0 <= m < j ==> #[trigger] checks@[m].or_group != Some(g),
                    decreases k - j,
                {
                    match checks[j].or_group {
                        Some(h) => {
                            if h == g {
                                fresh = false;
                            }
                        },
                        None => {},
                    }
                    j += 1;
                }
                fresh
            },
        };
        proof {
            let t = checks@.take(k + 1);
            assert(t.drop_last() =~= checks@.take(k as int));
            assert forall|j: int| 0 <= j <= k implies t[j] == checks@[j] by {}
            if opens {
                if t[k as int].or_group is Some {
                    assert forall|j: int| 0 <= j < k implies #[trigger] t[j].or_group != t[k as int].or_group by {
                        assert(checks@[j].or_group != checks@[k as int].or_group);
                    }
                }
            } else {
                let m = choose|m: int| 0 <= m < k && #[trigger] checks@[m].or_group == checks@[k as int].or_group;
                assert(t[m].or_group == t[k as int].or_group);
            }
            assert(opens == opens_conclusion(t, k as int));
        }
        if opens {
            count = count + 1;
        }
        k += 1;
    }
    assert(checks@.take(checks.len() as int) =~= checks@);
    count
}

/// `span` is the smallest and largest of `lines` (or `None` when empty).
pub open spec fn span_inv(span: Option<(u32, u32)>, lines: Seq<u32>) -> bool {
    match span {
        None => lines.len() == 0,
        Some((lo, hi)) => lines.contains(lo) && lines.contains(hi) && forall|k: int|
            0 <= k < lines.len() ==> lo <= #[trigger] lines[k] <= hi,
    }
}

proof fn lemma_located_lines_concat(a: Seq<VerifyCheck>, b: Seq<VerifyCheck>)
    ensures
        located_lines(a + b) == located_lines(a) + located_lines(b),
    decreases b.len(),
{
    if b.len() == 0 {
        assert(a + b =~= a);
        assert(located_lines(b) =~= Seq::<u32>::empty());
        assert(located_lines(a) + located_lines(b) =~= located_lines(a));
    } else {
        assert((a + b).drop_last() =~= a + b.drop_last());
        lemma_located_lines_concat(a, b.drop_last());
        match b.last().location {
            Some(l) => {
                assert(located_lines(a) + located_lines(b) =~= (located_lines(a) + located_lines(b.drop_last())).push(l.line));
            },
            None => {},
        }
    }
}

proof fn lemma_all_checks_prefix(fs: Seq<VerifyFunction>, n: int)
    requires
        0 <= n <= fs.len(),
    ensures
        all_checks(fs.take(n)).len() <= all_checks(fs).len(),
    decreases fs.len() - n,
{
    if n < fs.len() {
        lemma_all_checks_prefix(fs, n + 1);
        assert(fs.take(n + 1).drop_last() =~= fs.take(n));
    } else {
        assert(fs.take(n) =~= fs);
    }
}

proof fn lemma_matching_checks_prefix(fs: Seq<VerifyFunction>, base: Seq<char>, n: int)
    requires
        0 <= n <= fs.len(),
    ensures
        matching_checks(fs.take(n), base).len() <= matching_checks(fs, base).len(),
    decreases fs.len() - n,
{
    if n < fs.len() {
        lemma_matching_checks_prefix(fs, base, n + 1);
        assert(fs.take(n + 1).drop_last() =~= fs.take(n));
    } else {
        assert(fs.take(n) =~= fs);
    }
}

/// Whether `texts` holds a string with the characters of `s`.
pub fn contains_string(texts: &Vec<String>, s: &String) -> (r: bool)
    ensures
        r == string_views(texts@).contains(s@),
{
    let mut i: usize = 0;
    while i < texts.len()
        invariant
            i <= texts.len(),
            forall|j: int| 0 <= j < i ==> texts@[j]@ != s@,
        decreases texts.len() - i,
    {
        if texts[i] == *s {
            assert(string_views(texts@)[i as int] == s@);
            return true;
        }
        i += 1;
    }
    proof {
        if string_views(texts@).contains(s@) {
            let k = choose|k: int| 0 <= k < texts.len() && string_views(texts@)[k] == s@;
            assert(texts@[k]@ == s@);
        }
    }
    false
}

/// The checks of one base name are among all checks.
pub proof fn lemma_matching_within_all(fs: Seq<VerifyFunction>, base: Seq<char>)
    ensures
        matching_checks(fs, base).len() <= all_checks(fs).len(),
    decreases fs.len(),
{
    if fs.len() > 0 {
        lemma_matching_within_all(fs.drop_last(), base);
    }
}

/// Every check's approximation count is at most the number of checks.
pub proof fn lemma_approximations_bounded(cs: Seq<VerifyCheck>)
    ensures
        approximations(cs) <= cs.len(),
    decreases cs.len(),
{
    if cs.len() > 0 {
        lemma_approximations_bounded(cs.drop_last());
    }
}

/// The approximation count of a list of checks is the number of checks whose
/// approximation flag is set, whatever their kind (`ensures` or invariant).
pub proof fn lemma_approximations_count_flagged_checks(cs: Seq<VerifyCheck>)
    ensures
        approximations(cs) == cs.filter(|c: VerifyCheck| c.is_approximation).len(),
    decreases cs.len(),
{
    reveal(Seq::filter);
    if cs.len() > 0 {
        lemma_approximations_count_flagged_checks(cs.drop_last());
    }
}

/// Adding a check raises the approximation count by one exactly when the
/// added check is flagged, and leaves it unchanged otherwise.
pub proof fn lemma_approximations_push(cs: Seq<VerifyCheck>, c: VerifyCheck)
    ensures
        approximations(cs.push(c)) == approximations(cs) + (if c.is_approximation {
            1int
        } else {
            0int
        }),
{
    let pred = |x: VerifyCheck| x.is_approximation;
    lemma_approximations_count_flagged_checks(cs);
    lemma_approximations_count_flagged_checks(cs.push(c));
    cs.lemma_filter_push(c, pred);
}

/// Checks outside any disjunction group are each a conclusion of their own.
pub proof fn lemma_ungrouped_checks_each_count(cs: Seq<VerifyCheck>)
    requires
        forall|i: int| 0 <= i < cs.len() ==> (#[trigger] cs[i]).or_group is None,
    ensures
        conclusions_in(cs) == cs.len(),
    decreases cs.len(),
{
    if cs.len() > 0 {
        let init = cs.drop_last();
        assert forall|i: int| 0 <= i < init.len() implies (#[trigger] init[i]).or_group is None by {
            assert(init[i] == cs[i]);
        }
        assert(cs[cs.len() - 1].or_group is None);
        lemma_ungrouped_checks_each_count(init);
    }
}

/// The disjuncts of one `||`-joined conclusion, checked one at a time,
/// count as a single conclusion.
pub proof fn lemma_one_group_counts_once(cs: Seq<VerifyCheck>, group: u32)
    requires
        cs.len() > 0,
        forall|i: int| 0 <= i < cs.len() ==> (#[trigger] cs[i]).or_group == Some(group),
    ensures
        conclusions_in(cs) == 1,
    decreases cs.len(),
{
    let init = cs.drop_last();
    let k = cs.len() - 1;
    if init.len() == 0 {
        assert(opens_conclusion(cs, 0));
        assert(conclusions_in(init) == 0);
    } else {
        assert forall|i: int| 0 <= i < init.len() implies (#[trigger] init[i]).or_group == Some(
            group,
        ) by {
            assert(init[i] == cs[i]);
        }
        lemma_one_group_counts_once(init, group);
        assert(cs[0].or_group == cs[k].or_group);
        assert(!opens_conclusion(cs, k));
    }
}

/// The failing names are the names of the entries that did not all pass, in
/// report order.
pub proof fn lemma_failing_names_are_failed_entries(fs: Seq<VerifyFunction>)
    ensures
        failing_names(fs) == fs.filter(|f: VerifyFunction| !f.all_passed).map_values(
            |f: VerifyFunction| f.func_name@,
        ),
    decreases fs.len(),
{
    reveal(Seq::filter);
    if fs.len() > 0 {
        lemma_failing_names_are_failed_entries(fs.drop_last());
        let pred = |f: VerifyFunction| !f.all_passed;
        let name = |f: VerifyFunction| f.func_name@;
        let sub = fs.drop_last().filter(pred);
        assert(sub.push(fs.last()).map_values(name) =~= sub.map_values(name).push(
            fs.last().func_name@,
        ));
    }
}

} // verus!
