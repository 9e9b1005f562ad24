//! The tool's own hash-sealed proof manifest (`telos-proof.json`): per-function
//! verification outcomes keyed by function name.
//!
//! The manifest is read from JSON outside this crate.  Its function table is
//! kept here in ascending name order with no name twice, which is the order in
//! which the manifest lists and walks its functions.
use vstd::prelude::*;

use crate::text::{insert_sorted, lemma_lex_asymmetric, lemma_lex_irreflexive, lemma_lex_total,
    lemma_lex_transitive, lex_lt, str_eq, str_lt, strictly_sorted, views};

verus! {

/// Per-function proof record.
#[derive(Clone, Copy, Debug, PartialEq, Eq)]
pub struct TelosFuncProof {
    /// Whether the solver discharged every conclusion for this function.
    pub verified: bool,
    /// Number of conclusion checks inspected by the solver.
    pub conclusions_checked: usize,
    /// Number of conclusion checks that passed.
    pub conclusions_passed: usize,
    /// True when at least one constraint was proved via interval-arithmetic
    /// bounding rather than exact linear arithmetic.
    pub used_interval_bounding: bool,
}

/// The per-function outcomes of a manifest, keyed by function name, in
/// ascending name order.
#[derive(Debug, PartialEq)]
pub struct FunctionTable {
    entries: Vec<(String, TelosFuncProof)>,
}

/// The names of a table's rows, in order.
pub open spec fn row_names(rows: Seq<(Seq<char>, TelosFuncProof)>) -> Seq<Seq<char>> {
    rows.map_values(|r: (Seq<char>, TelosFuncProof)| r.0)
}

/// The record stored under `name`, if any.
pub open spec fn lookup(rows: Seq<(Seq<char>, TelosFuncProof)>, name: Seq<char>) -> Option<
    TelosFuncProof,
> {
    if exists|i: int| 0 <= i < rows.len() && #[trigger] rows[i].0 == name {
        Some(rows[row_index(rows, name)].1)
    } else {
        None
    }
}

/// A position at which `name` is stored (meaningful only when it is stored).
pub open spec fn row_index(rows: Seq<(Seq<char>, TelosFuncProof)>, name: Seq<char>) -> int {
    choose|i: int| 0 <= i < rows.len() && #[trigger] rows[i].0 == name
}

/// Names of the verified rows, in order.
pub open spec fn verified_rows(rows: Seq<(Seq<char>, TelosFuncProof)>) -> Seq<Seq<char>>
    decreases rows.len(),
{
    if rows.len() == 0 {
        Seq::empty()
    } else if rows.last().1.verified {
        verified_rows(rows.drop_last()).push(rows.last().0)
    } else {
        verified_rows(rows.drop_last())
    }
}

/// Sum of the conclusions checked over all rows.
pub open spec fn checked_total(rows: Seq<(Seq<char>, TelosFuncProof)>) -> nat
    decreases rows.len(),
{
    if rows.len() == 0 {
        0
    } else {
        checked_total(rows.drop_last()) + rows.last().1.conclusions_checked as nat
    }
}

impl View for FunctionTable {
    type V = Seq<(Seq<char>, TelosFuncProof)>;

    closed spec fn view(&self) -> Seq<(Seq<char>, TelosFuncProof)> {
        rows_of(self.entries@)
    }
}

/// The rows of stored entries, names taken by their characters.
pub open spec fn rows_of(v: Seq<(String, TelosFuncProof)>) -> Seq<(Seq<char>, TelosFuncProof)> {
    v.map_values(|e: (String, TelosFuncProof)| (e.0@, e.1))
}

proof fn lemma_lookup_at(rows: Seq<(Seq<char>, TelosFuncProof)>, idx: int)
    requires
        strictly_sorted(row_names(rows)),
        0 <= idx < rows.len(),
    ensures
        lookup(rows, rows[idx].0) == Some(rows[idx].1),
{
    let name = rows[idx].0;
    assert(rows[idx].0 == name);
    let j = row_index(rows, name);
    assert(0 <= j < rows.len() && rows[j].0 == name);
    if j != idx {
        assert(row_names(rows)[idx] == name && row_names(rows)[j] == name);
        if idx < j {
            assert(lex_lt(row_names(rows)[idx], row_names(rows)[j]));
        } else {
            assert(lex_lt(row_names(rows)[j], row_names(rows)[idx]));
        }
        lemma_lex_irreflexive(name);
    }
}

impl Clone for FunctionTable {
    /// A copy of the table.
    fn clone(&self) -> (t: Self)
        ensures
            t@ == self@,
    {
        proof {
            use_type_invariant(self);
        }
        let mut entries: Vec<(String, TelosFuncProof)> = Vec::new();
        let mut i: usize = 0;
        while i < self.entries.len()
            invariant
                i <= self.entries.len(),
                entries.len() == i,
                rows_of(entries@) == rows_of(self.entries@).take(i as int),
            decreases self.entries.len() - i,
        {
            let e = &self.entries[i];
            let ghost prev = entries@;
            let name = e.0.clone();
            entries.push((name, e.1));
            proof {
                assert(entries@ == prev.push((name, e.1)));
                assert forall|k: int| 0 <= k < i + 1 implies #[trigger] rows_of(entries@)[k]
                    == rows_of(self.entries@)[k] by {
                    if k < i {
                        assert(entries@[k] == prev[k]);
                        assert(rows_of(prev)[k] == rows_of(self.entries@).take(i as int)[k]);
                    }
                }
                assert(rows_of(entries@) =~= rows_of(self.entries@).take(i + 1));
            }
            i += 1;
        }
        proof {
            assert(rows_of(entries@) =~= rows_of(self.entries@));
        }
        FunctionTable { entries }
    }

}

impl FunctionTable {
    #[verifier::type_invariant]
    spec fn names_ascending(&self) -> bool {
        strictly_sorted(row_names(self@))
    }

    /// An empty table.
    pub fn new() -> (t: Self)
        ensures
            t@ == Seq::<(Seq<char>, TelosFuncProof)>::empty(),
    {
        let t = FunctionTable { entries: Vec::new() };
        assert(t@ =~= Seq::<(Seq<char>, TelosFuncProof)>::empty());
        t
    }

    /// The rows are in ascending name order, each name once.
    pub fn names_are_ascending(&self)
        ensures
            strictly_sorted(row_names(self@)),
    {
        proof {
            use_type_invariant(self);
        }
    }

    /// Number of rows.
    pub fn len(&self) -> (n: usize)
        ensures
            n == self@.len(),
    {
        self.entries.len()
    }

    /// Whether the table has no rows.
    pub fn is_empty(&self) -> (b: bool)
        ensures
            b == (self@.len() == 0),
    {
        self.entries.len() == 0
    }

    /// The name and record of row `i`.
    pub fn row(&self, i: usize) -> (r: (&str, TelosFuncProof))
        requires
            i < self@.len(),
        ensures
            r.0@ == self@[i as int].0,
            r.1 == self@[i as int].1,
    {
        let e = &self.entries[i];
        (e.0.as_str(), e.1)
    }

    /// The record stored under `name`.
    pub fn get(&self, name: &str) -> (r: Option<TelosFuncProof>)
        ensures
            r == lookup(self@, name@),
    {
        proof {
            use_type_invariant(self);
        }
        let mut i: usize = 0;
        while i < self.entries.len()
            invariant
                i <= self.entries.len(),
                self@.len() == self.entries.len(),
                strictly_sorted(row_names(self@)),
                forall|j: int| 0 <= j < i ==> #[trigger] self@[j].0 != name@,
            decreases self.entries.len() - i,
        {
            assert(self@[i as int].0 == self.entries@[i as int].0@);
            if str_eq(self.entries[i].0.as_str(), name) {
                proof {
                    lemma_lookup_at(self@, i as int);
                }
                return Some(self.entries[i].1);
            }
            i += 1;
        }
        None
    }

    /// Stores `proof` under `name`, replacing and returning any earlier
    /// record for that name.
    pub fn insert(&mut self, name: String, proof: TelosFuncProof) -> (r: Option<TelosFuncProof>)
        ensures
            r == lookup(old(self)@, name@),
            strictly_sorted(row_names(final(self)@)),
            forall|k: Seq<char>| #[trigger]
                lookup(final(self)@, k) == if k == name@ {
                    Some(proof)
                } else {
                    lookup(old(self)@, k)
                },
    {
        proof {
            use_type_invariant(&*self);
        }
        let ghost rows = self@;
        let mut p: usize = 0;
        while p < self.entries.len() && str_lt(self.entries[p].0.as_str(), name.as_str())
            invariant
                p <= self.entries.len(),
                self@ == rows,
                rows.len() == self.entries.len(),
                strictly_sorted(row_names(rows)),
                forall|j: int| 0 <= j < p ==> lex_lt(#[trigger] rows[j].0, name@),
            decreases self.entries.len() - p,
        {
            assert(rows[p as int].0 == self.entries@[p as int].0@);
            p += 1;
        }
        if p < self.entries.len() {
            assert(rows[p as int].0 == self.entries@[p as int].0@);
        }
        if p < self.entries.len() && str_eq(self.entries[p].0.as_str(), name.as_str()) {
            let previous = self.entries[p].1;
            proof {
                lemma_lookup_at(rows, p as int);
            }
            let mut entries: Vec<(String, TelosFuncProof)> = Vec::new();
            std::mem::swap(&mut entries, &mut self.entries);
            entries.set(p, (name, proof));
            proof {
                let new_rows = rows_of(entries@);
                assert(new_rows =~= rows.update(p as int, (rows[p as int].0, proof)));
                assert(row_names(new_rows) =~= row_names(rows));
                lemma_update_lookup(rows, p as int, proof);
            }
            self.entries = entries;
            return Some(previous);
        }
        proof {
            if p < rows.len() {
                lemma_lex_total(rows[p as int].0, name@);
                assert(lex_lt(name@, rows[p as int].0));
            }
            assert forall|j: int| 0 <= j < rows.len() implies #[trigger] rows[j].0 != name@ by {
                if j < p {
                    lemma_lex_irreflexive(name@);
                } else {
                    if j > p {
                        assert(lex_lt(row_names(rows)[p as int], row_names(rows)[j]));
                        lemma_lex_transitive(name@, rows[p as int].0, rows[j].0);
                    }
                    lemma_lex_irreflexive(name@);
                }
            }
        }
        let ghost key = name@;
        let mut entries: Vec<(String, TelosFuncProof)> = Vec::new();
        std::mem::swap(&mut entries, &mut self.entries);
        entries.insert(p, (name, proof));
        proof {
            let new_rows = rows_of(entries@);
            assert(new_rows =~= rows.insert(p as int, (key, proof)));
            lemma_insert_rows(rows, p as int, key, proof);
        }
        self.entries = entries;
        None
    }
}

proof fn lemma_update_lookup(rows: Seq<(Seq<char>, TelosFuncProof)>, p: int, proof: TelosFuncProof)
    requires
        strictly_sorted(row_names(rows)),
        0 <= p < rows.len(),
    ensures
        forall|k: Seq<char>| #[trigger]
            lookup(rows.update(p, (rows[p].0, proof)), k) == if k == rows[p].0 {
                Some(proof)
            } else {
                lookup(rows, k)
            },
{
    let new_rows = rows.update(p, (rows[p].0, proof));
    assert(row_names(new_rows) =~= row_names(rows));
    assert forall|k: Seq<char>| #[trigger]
        lookup(new_rows, k) == if k == rows[p].0 {
            Some(proof)
        } else {
            lookup(rows, k)
        } by {
        if k == rows[p].0 {
            lemma_lookup_at(new_rows, p);
        } else {
            if exists|i: int| 0 <= i < rows.len() && #[trigger] rows[i].0 == k {
                let i = choose|i: int| 0 <= i < rows.len() && #[trigger] rows[i].0 == k;
                lemma_lookup_at(rows, i);
                assert(new_rows[i] == rows[i]);
                lemma_lookup_at(new_rows, i);
            } else {
                assert forall|i: int| 0 <= i < new_rows.len() implies #[trigger] new_rows[i].0
                    != k by {
                    assert(new_rows[i].0 == rows[i].0);
                }
            }
        }
    }
}

proof fn lemma_insert_rows(
    rows: Seq<(Seq<char>, TelosFuncProof)>,
    p: int,
    key: Seq<char>,
    proof: TelosFuncProof,
)
    requires
        strictly_sorted(row_names(rows)),
        0 <= p <= rows.len(),
        forall|j: int| 0 <= j < p ==> lex_lt(#[trigger] rows[j].0, key),
        p < rows.len() ==> lex_lt(key, rows[p].0),
        forall|j: int| 0 <= j < rows.len() ==> #[trigger] rows[j].0 != key,
    ensures
        strictly_sorted(row_names(rows.insert(p, (key, proof)))),
        lookup(rows, key) is None,
        forall|k: Seq<char>| #[trigger]
            lookup(rows.insert(p, (key, proof)), k) == if k == key {
                Some(proof)
            } else {
                lookup(rows, k)
            },
{
    let new_rows = rows.insert(p, (key, proof));
    let old_names = row_names(rows);
    let new_names = row_names(new_rows);
    assert(new_names =~= old_names.insert(p, key));
    assert forall|i: int, j: int| 0 <= i < j < new_names.len() implies lex_lt(
        #[trigger] new_names[i],
        #[trigger] new_names[j],
    ) by {
        if j < p {
            assert(lex_lt(old_names[i], old_names[j]));
        } else if j == p {
            assert(lex_lt(rows[i].0, key));
        } else if i < p {
            if j - 1 > p {
                assert(lex_lt(old_names[p], old_names[j - 1]));
                lemma_lex_transitive(key, rows[p].0, rows[j - 1].0);
            }
            lemma_lex_transitive(rows[i].0, key, rows[j - 1].0);
        } else if i == p {
            if j - 1 > p {
                assert(lex_lt(old_names[p], old_names[j - 1]));
                lemma_lex_transitive(key, rows[p].0, rows[j - 1].0);
            }
        } else {
            assert(lex_lt(old_names[i - 1], old_names[j - 1]));
        }
    }
    assert forall|k: Seq<char>| #[trigger]
        lookup(new_rows, k) == if k == key {
            Some(proof)
        } else {
            lookup(rows, k)
        } by {
        if k == key {
            assert(new_rows[p].0 == key);
            lemma_lookup_at(new_rows, p);
        } else {
            if exists|i: int| 0 <= i < rows.len() && #[trigger] rows[i].0 == k {
                let i = choose|i: int| 0 <= i < rows.len() && #[trigger] rows[i].0 == k;
                lemma_lookup_at(rows, i);
                if i < p {
                    assert(new_rows[i] == rows[i]);
                    lemma_lookup_at(new_rows, i);
                } else {
                    assert(new_rows[i + 1] == rows[i]);
                    lemma_lookup_at(new_rows, i + 1);
                }
            } else {
                assert forall|i: int| 0 <= i < new_rows.len() implies #[trigger] new_rows[i].0
                    != k by {
                    if i < p {
                        assert(new_rows[i] == rows[i]);
                    } else if i > p {
                        assert(new_rows[i] == rows[i - 1]);
                    }
                }
            }
        }
    }
}

/// The complete proof manifest emitted by one compile run.
#[derive(Clone, Debug, PartialEq)]
pub struct TelosProofManifest {
    /// Schema version for forward compatibility (current tool value: `"1"`).
    pub schema_version: String,
    /// `"sha256:<hex>"` of the source `.telos` file bytes.
    pub source_hash: String,
    /// ISO 8601 timestamp of when verification ran.
    pub verified_at: String,
    /// Per-function outcomes, keyed by function name.
    pub functions: FunctionTable,
    /// SHA-256 of the JSON document with this field blanked.
    pub manifest_hash: String,
}

impl TelosProofManifest {
    /// Function names whose proofs fully discharged, in ascending name order.
    pub fn verified_function_names(&self) -> (r: Vec<&str>)
        ensures
            views(r@) == verified_rows(self.functions@),
            strictly_sorted(views(r@)),
            forall|x: Seq<char>| #[trigger] views(r@).contains(x) <==> exists|i: int|
                0 <= i < self.functions@.len() && self.functions@[i].1.verified
                    && self.functions@[i].0 == x,
    {
        self.functions.names_are_ascending();
        let mut names: Vec<&str> = Vec::new();
        let mut i: usize = 0;
        let n = self.functions.len();
        while i < n
            invariant
                n == self.functions@.len(),
                i <= n,
                views(names@) == verified_rows(self.functions@.take(i as int)),
                strictly_sorted(row_names(self.functions@)),
            decreases n - i,
        {
            let (name, record) = self.functions.row(i);
            proof {
                assert(self.functions@.take(i + 1).drop_last() =~= self.functions@.take(i as int));
            }
            if record.verified {
                names.push(name);
                proof {
                    assert(views(names@) =~= verified_rows(self.functions@.take(i as int)).push(name@));
                }
            }
            i += 1;
        }
        proof {
            assert(self.functions@.take(n as int) =~= self.functions@);
            lemma_verified_rows_sorted(self.functions@);
        }
        names
    }

    /// Whether every recorded function was verified (an empty manifest is
    /// not).
    pub fn all_functions_verified(&self) -> (r: bool)
        ensures
            r == (self.functions@.len() > 0 && forall|i: int|
                0 <= i < self.functions@.len() ==> #[trigger] self.functions@[i].1.verified),
    {
        let n = self.functions.len();
        if n == 0 {
            return false;
        }
        let mut i: usize = 0;
        while i < n
            invariant
                n == self.functions@.len(),
                i <= n,
                forall|j: int| 0 <= j < i ==> #[trigger] self.functions@[j].1.verified,
            decreases n - i,
        {
            let (_, record) = self.functions.row(i);
            if !record.verified {
                return false;
            }
            i += 1;
        }
        true
    }

    /// Total conclusions checked across all functions.
    pub fn total_conclusions_checked(&self) -> (r: usize)
        requires
            checked_total(self.functions@) <= usize::MAX,
        ensures
            r == checked_total(self.functions@),
    {
        let n = self.functions.len();
        let mut total: usize = 0;
        let mut i: usize = 0;
        while i < n
            invariant
                n == self.functions@.len(),
                i <= n,
                checked_total(self.functions@) <= usize::MAX,
                total == checked_total(self.functions@.take(i as int)),
            decreases n - i,
        {
            let (_, record) = self.functions.row(i);
            proof {
                assert(self.functions@.take(i + 1).drop_last() =~= self.functions@.take(i as int));
                lemma_checked_total_prefix(self.functions@, i + 1);
            }
            total = total + record.conclusions_checked;
            i += 1;
        }
        assert(self.functions@.take(n as int) =~= self.functions@);
        total
    }
}

proof fn lemma_checked_total_prefix(rows: Seq<(Seq<char>, TelosFuncProof)>, n: int)
    requires
        0 <= n <= rows.len(),
    ensures
        checked_total(rows.take(n)) <= checked_total(rows),
    decreases rows.len() - n,
{
    if n < rows.len() {
        lemma_checked_total_prefix(rows, n + 1);
        assert(rows.take(n + 1).drop_last() =~= rows.take(n));
    } else {
        assert(rows.take(n) =~= rows);
    }
}

/// The verified names are a subsequence of the (ascending) row names, so they
/// ascend too.
proof fn lemma_verified_rows_sorted(rows: Seq<(Seq<char>, TelosFuncProof)>)
    requires
        strictly_sorted(row_names(rows)),
    ensures
        strictly_sorted(verified_rows(rows)),
        forall|x: Seq<char>| #[trigger] verified_rows(rows).contains(x) <==> exists|i: int|
            0 <= i < rows.len() && rows[i].1.verified && rows[i].0 == x,
    decreases rows.len(),
{
    if rows.len() > 0 {
        let prev = rows.drop_last();
        assert(row_names(prev) =~= row_names(rows).drop_last());
        lemma_verified_rows_sorted(prev);
        if rows.last().1.verified {
            let v = verified_rows(prev);
            let w = v.push(rows.last().0);
            assert forall|i: int, j: int| 0 <= i < j < w.len() implies lex_lt(
                #[trigger] w[i],
                #[trigger] w[j],
            ) by {
                if j < v.len() {
                } else {
                    assert(v.contains(v[i]));
                    let k = choose|k: int| 0 <= k < prev.len() && prev[k].0 == v[i];
                    assert(row_names(rows)[k] == v[i]);
                    assert(row_names(rows)[rows.len() - 1] == rows.last().0);
                }
            }
            assert forall|x: Seq<char>| #[trigger] w.contains(x) <==> exists|i: int|
                0 <= i < rows.len() && rows[i].1.verified && rows[i].0 == x by {
                if w.contains(x) {
                    let k = choose|k: int| 0 <= k < w.len() && w[k] == x;
                    if k < v.len() {
                        assert(v.contains(x));
                        let m = choose|m: int| 0 <= m < prev.len() && prev[m].1.verified && prev[m].0 == x;
                        assert(rows[m] == prev[m]);
                    } else {
                        assert(rows[rows.len() - 1].0 == x);
                    }
                }
                if exists|i: int| 0 <= i < rows.len() && rows[i].1.verified && rows[i].0 == x {
                    let m = choose|m: int| 0 <= m < rows.len() && rows[m].1.verified && rows[m].0 == x;
                    if m < prev.len() {
                        assert(prev[m] == rows[m]);
                        assert(v.contains(x));
                        let k = choose|k: int| 0 <= k < v.len() && v[k] == x;
                        assert(w[k] == x);
                    } else {
                        assert(w[v.len() as int] == x);
                    }
                }
            }
        } else {
            assert forall|x: Seq<char>| #[trigger] verified_rows(rows).contains(x) <==> exists|i: int|
                0 <= i < rows.len() && rows[i].1.verified && rows[i].0 == x by {
                if verified_rows(prev).contains(x) {
                    let m = choose|m: int| 0 <= m < prev.len() && prev[m].1.verified && prev[m].0 == x;
                    assert(rows[m] == prev[m]);
                }
                if exists|i: int| 0 <= i < rows.len() && rows[i].1.verified && rows[i].0 == x {
                    let m = choose|m: int| 0 <= m < rows.len() && rows[m].1.verified && rows[m].0 == x;
                    if m < prev.len() {
                        assert(prev[m] == rows[m]);
                    }
                }
            }
        }
    }
}

/// The checked total adds up over a concatenation of rows.
pub proof fn lemma_checked_total_adds(a: Seq<(Seq<char>, TelosFuncProof)>, b: Seq<(Seq<char>, TelosFuncProof)>)
    ensures
        checked_total(a + b) == checked_total(a) + checked_total(b),
    decreases b.len(),
{
    if b.len() == 0 {
        assert(a + b =~= a);
    } else {
        assert((a + b).drop_last() =~= a + b.drop_last());
        assert((a + b).last() == b.last());
        lemma_checked_total_adds(a, b.drop_last());
    }
}

/// A single row contributes the conclusions the tool checked for it (not
/// those that passed).
pub proof fn lemma_checked_total_single(row: (Seq<char>, TelosFuncProof))
    ensures
        checked_total(seq![row]) == row.1.conclusions_checked,
{
    let one = seq![row];
    assert(one.drop_last() =~= Seq::<(Seq<char>, TelosFuncProof)>::empty());
    assert(checked_total(one.drop_last()) == 0);
    assert(one.last() == row);
}

} // verus!
