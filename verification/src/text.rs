//! Character-level string helpers with exact specifications.
//!
//! Strings are reasoned about through their `Seq<char>` views.  The ordering
//! used for sorted name lists is the lexicographic order on Unicode scalar
//! values, which is the order `str`'s `Ord` gives (UTF-8 preserves code-point
//! order byte-wise).
use vstd::prelude::*;

verus! {

/// Unicode `White_Space`: the characters `char::is_whitespace` accepts.
pub open spec fn is_ws(c: char) -> bool {
    let u = c as int;
    (0x09 <= u && u <= 0x0D) || u == 0x20 || u == 0x85 || u == 0xA0 || u == 0x1680 || (0x2000
        <= u && u <= 0x200A) || u == 0x2028 || u == 0x2029 || u == 0x202F || u == 0x205F || u
        == 0x3000
}

/// Whether `c` is Unicode white space.
pub fn is_whitespace(c: char) -> (r: bool)
    ensures
        r == is_ws(c),
{
    let u = c as u32;
    (0x09 <= u && u <= 0x0D) || u == 0x20 || u == 0x85 || u == 0xA0 || u == 0x1680 || (0x2000
        <= u && u <= 0x200A) || u == 0x2028 || u == 0x2029 || u == 0x202F || u == 0x205F || u
        == 0x3000
}

/// `s` without its trailing white space.
pub open spec fn trim_end(s: Seq<char>) -> Seq<char>
    decreases s.len(),
{
    if s.len() > 0 && is_ws(s.last()) {
        trim_end(s.drop_last())
    } else {
        s
    }
}

/// `i` is the first position of `c` in `s`.
pub open spec fn first_at(s: Seq<char>, c: char, i: int) -> bool {
    0 <= i < s.len() && s[i] == c && forall|j: int| 0 <= j < i ==> s[j] != c
}

/// The text in front of the first `c`, or all of `s` when `c` does not occur.
pub open spec fn before_first(s: Seq<char>, c: char) -> Seq<char> {
    if exists|i: int| first_at(s, c, i) {
        s.take(choose|i: int| first_at(s, c, i))
    } else {
        s
    }
}

/// The text after the last `::` of `s` (all of `s` when there is none).
pub open spec fn last_path_segment(s: Seq<char>) -> Seq<char>
    decreases s.len(),
{
    if s.len() < 2 {
        s
    } else if s[s.len() - 2] == ':' && s[s.len() - 1] == ':' {
        Seq::empty()
    } else {
        last_path_segment(s.drop_last()).push(s.last())
    }
}

/// Strict lexicographic order on character sequences.
pub open spec fn lex_lt(a: Seq<char>, b: Seq<char>) -> bool {
    exists|k: int| #[trigger] lex_split(a, b, k)
}

/// `k` is the first position at which `a` and `b` differ, and there `a` is
/// the smaller (a proper prefix counts as smaller).
pub open spec fn lex_split(a: Seq<char>, b: Seq<char>, k: int) -> bool {
    &&& 0 <= k <= a.len()
    &&& k <= b.len()
    &&& forall|j: int| 0 <= j < k ==> a[j] == b[j]
    &&& ((k == a.len() && k < b.len()) || (k < a.len() && k < b.len() && (a[k] as int) < (
    b[k] as int)))
}

/// Every element is strictly smaller than every later one.
pub open spec fn strictly_sorted(s: Seq<Seq<char>>) -> bool {
    forall|i: int, j: int| 0 <= i < j < s.len() ==> lex_lt(#[trigger] s[i], #[trigger] s[j])
}

pub proof fn lemma_lex_irreflexive(a: Seq<char>)
    ensures
        !lex_lt(a, a),
{
}

pub proof fn lemma_lex_transitive(a: Seq<char>, b: Seq<char>, c: Seq<char>)
    requires
        lex_lt(a, b),
        lex_lt(b, c),
    ensures
        lex_lt(a, c),
{
    let k1 = choose|k: int| lex_split(a, b, k);
    let k2 = choose|k: int| lex_split(b, c, k);
    let k = if k1 < k2 {
        k1
    } else {
        k2
    };
    assert(lex_split(a, c, k));
}

pub proof fn lemma_lex_total(a: Seq<char>, b: Seq<char>)
    requires
        a != b,
    ensures
        lex_lt(a, b) || lex_lt(b, a),
{
    let n = if a.len() < b.len() {
        a.len()
    } else {
        b.len()
    };
    if forall|j: int| 0 <= j < n ==> a[j] == b[j] {
        if a.len() == b.len() {
            assert(a =~= b);
        } else if a.len() < b.len() {
            assert(lex_split(a, b, n as int));
        } else {
            assert(lex_split(b, a, n as int));
        }
    } else {
        let w = choose|j: int| 0 <= j < n && a[j] != b[j];
        lemma_first_difference(a, b, w);
    }
}

proof fn lemma_first_difference(a: Seq<char>, b: Seq<char>, w: int)
    requires
        0 <= w < a.len(),
        w < b.len(),
        a[w] != b[w],
    ensures
        lex_lt(a, b) || lex_lt(b, a),
    decreases w,
{
    if exists|j: int| 0 <= j < w && a[j] != b[j] {
        let j = choose|j: int| 0 <= j < w && a[j] != b[j];
        lemma_first_difference(a, b, j);
    } else {
        if (a[w] as int) < (b[w] as int) {
            assert(lex_split(a, b, w));
        } else {
            assert((a[w] as int) != (b[w] as int));
            assert(lex_split(b, a, w));
        }
    }
}

pub proof fn lemma_lex_asymmetric(a: Seq<char>, b: Seq<char>)
    requires
        lex_lt(a, b),
    ensures
        !lex_lt(b, a),
{
    if lex_lt(b, a) {
        lemma_lex_transitive(a, b, a);
    }
}

/// The characters of `s`, in order.
pub fn chars_of(s: &str) -> (r: Vec<char>)
    ensures
        r@ == s@,
{
    let mut out: Vec<char> = Vec::new();
    for c in it: s.chars()
        invariant
            out@ == it.seq().take(it.index() as int),
            it.seq() == s@,
    {
        out.push(c);
    }
    out
}

/// Whether two strings hold the same characters.
pub fn str_eq(a: &str, b: &str) -> (r: bool)
    ensures
        r == (a@ == b@),
{
    let x = chars_of(a);
    let y = chars_of(b);
    if x.len() != y.len() {
        return false;
    }
    let mut i: usize = 0;
    while i < x.len()
        invariant
            x@ == a@,
            y@ == b@,
            x.len() == y.len(),
            i <= x.len(),
            forall|j: int| 0 <= j < i ==> x@[j] == y@[j],
        decreases x.len() - i,
    {
        if x[i] != y[i] {
            return false;
        }
        i += 1;
    }
    assert(a@ =~= b@);
    true
}

/// Whether `a` comes strictly before `b` in lexicographic order.
pub fn str_lt(a: &str, b: &str) -> (r: bool)
    ensures
        r == lex_lt(a@, b@),
{
    let x = chars_of(a);
    let y = chars_of(b);
    let mut i: usize = 0;
    while i < x.len() && i < y.len() && x[i] == y[i]
        invariant
            x@ == a@,
            y@ == b@,
            i <= x.len(),
            i <= y.len(),
            forall|j: int| 0 <= j < i ==> x@[j] == y@[j],
        decreases x.len() - i,
    {
        i += 1;
    }
    let r = if i == x.len() {
        i < y.len()
    } else if i == y.len() {
        false
    } else {
        x[i] < y[i]
    };
    proof {
        if r {
            assert(lex_split(a@, b@, i as int));
        } else if lex_lt(a@, b@) {
            let k = choose|k: int| lex_split(a@, b@, k);
            assert(k == i);
        }
    }
    r
}

/// Appends `c` to `s`.
///
/// Trusted: `String::push`, which appends one character.
#[verifier::external_body]
pub fn push_char(s: &mut String, c: char)
    ensures
        final(s)@ == old(s)@.push(c),
{
    s.push(c);
}

/// A string holding exactly the given characters.
pub fn string_from_chars(v: &Vec<char>) -> (r: String)
    ensures
        r@ == v@,
{
    let mut s = String::new();
    let mut i: usize = 0;
    while i < v.len()
        invariant
            i <= v.len(),
            s@ == v@.take(i as int),
        decreases v.len() - i,
    {
        push_char(&mut s, v[i]);
        proof {
            assert(v@.take(i + 1) =~= v@.take(i as int).push(v@[i as int]));
        }
        i += 1;
    }
    assert(v@.take(v.len() as int) =~= v@);
    s
}

/// The decimal digit for `d`.
pub open spec fn digit(d: int) -> char {
    if d == 0 {
        '0'
    } else if d == 1 {
        '1'
    } else if d == 2 {
        '2'
    } else if d == 3 {
        '3'
    } else if d == 4 {
        '4'
    } else if d == 5 {
        '5'
    } else if d == 6 {
        '6'
    } else if d == 7 {
        '7'
    } else if d == 8 {
        '8'
    } else {
        '9'
    }
}

/// The decimal notation of `n`, without leading zeros.
pub open spec fn decimal(n: nat) -> Seq<char>
    decreases n,
{
    if n < 10 {
        seq![digit(n as int)]
    } else {
        decimal(n / 10).push(digit((n % 10) as int))
    }
}

fn digit_char(d: u64) -> (c: char)
    requires
        d < 10,
    ensures
        c == digit(d as int),
{
    if d == 0 {
        '0'
    } else if d == 1 {
        '1'
    } else if d == 2 {
        '2'
    } else if d == 3 {
        '3'
    } else if d == 4 {
        '4'
    } else if d == 5 {
        '5'
    } else if d == 6 {
        '6'
    } else if d == 7 {
        '7'
    } else if d == 8 {
        '8'
    } else {
        '9'
    }
}

/// The decimal digits of `n`.
pub fn decimal_chars(n: u64) -> (r: Vec<char>)
    ensures
        r@ == decimal(n as nat),
    decreases n,
{
    if n < 10 {
        let mut v: Vec<char> = Vec::new();
        v.push(digit_char(n));
        assert(v@ =~= seq![digit(n as int)]);
        v
    } else {
        let mut v = decimal_chars(n / 10);
        v.push(digit_char(n % 10));
        v
    }
}

/// `s` followed by the decimal notation of `n`.
pub fn append_decimal(s: &mut String, n: u64)
    ensures
        final(s)@ == old(s)@ + decimal(n as nat),
{
    let digits = decimal_chars(n);
    let text = string_from_chars(&digits);
    s.append(text.as_str());
}

/// A string with the characters of `s`.
pub fn owned(s: &str) -> (r: String)
    ensures
        r@ == s@,
{
    String::from_str(s)
}

/// Index of the first `c` in `s`, if any.
pub fn find_first(s: &Vec<char>, c: char) -> (r: Option<usize>)
    ensures
        r matches Some(i) ==> first_at(s@, c, i as int),
        r is None ==> forall|j: int| 0 <= j < s.len() ==> s@[j] != c,
{
    let mut i: usize = 0;
    while i < s.len()
        invariant
            i <= s.len(),
            forall|j: int| 0 <= j < i ==> s@[j] != c,
        decreases s.len() - i,
    {
        if s[i] == c {
            return Some(i);
        }
        i += 1;
    }
    None
}

/// Length of `s.take(n)` once trailing white space is removed.
pub fn trimmed_len(s: &Vec<char>, n: usize) -> (r: usize)
    requires
        n <= s.len(),
    ensures
        r <= n,
        s@.take(r as int) == trim_end(s@.take(n as int)),
{
    let mut k = n;
    while k > 0 && is_whitespace(s[k - 1])
        invariant
            k <= n <= s.len(),
            trim_end(s@.take(n as int)) == trim_end(s@.take(k as int)),
        decreases k,
    {
        assert(s@.take(k as int).drop_last() =~= s@.take(k - 1));
        k -= 1;
    }
    k
}

/// `list` joined with `sep` between consecutive elements.
pub open spec fn joined(list: Seq<Seq<char>>, sep: Seq<char>) -> Seq<char>
    decreases list.len(),
{
    if list.len() == 0 {
        Seq::empty()
    } else if list.len() == 1 {
        list[0]
    } else {
        joined(list.drop_last(), sep) + sep + list.last()
    }
}

/// The strings of `list` joined with `sep`.
pub fn join_strings(list: &Vec<String>, sep: &str) -> (r: String)
    ensures
        r@ == joined(list@.map_values(|s: String| s@), sep@),
{
    let ghost items = list@.map_values(|s: String| s@);
    let mut out = String::new();
    let mut i: usize = 0;
    while i < list.len()
        invariant
            i <= list.len(),
            items == list@.map_values(|s: String| s@),
            out@ == joined(items.take(i as int), sep@),
        decreases list.len() - i,
    {
        if i > 0 {
            out.append(sep);
        }
        out.append(list[i].as_str());
        proof {
            let t = items.take(i + 1);
            assert(t.drop_last() =~= items.take(i as int));
            assert(t.last() == list@[i as int]@);
            if i == 0 {
                assert(joined(t, sep@) == t[0]);
            }
        }
        i += 1;
    }
    assert(items.take(list.len() as int) =~= items);
    out
}

/// Whether one of the slices in `v` holds the characters of `s`.
pub fn contains_str(v: &Vec<&str>, s: &str) -> (r: bool)
    ensures
        r == views(v@).contains(s@),
{
    let mut i: usize = 0;
    while i < v.len()
        invariant
            i <= v.len(),
            forall|j: int| 0 <= j < i ==> v@[j]@ != s@,
        decreases v.len() - i,
    {
        if str_eq(v[i], s) {
            assert(views(v@)[i as int] == s@);
            return true;
        }
        i += 1;
    }
    proof {
        if views(v@).contains(s@) {
            let k = choose|k: int| 0 <= k < v.len() && views(v@)[k] == s@;
            assert(v@[k]@ == s@);
        }
    }
    false
}

/// The character views of a sequence of string slices.
pub open spec fn views(v: Seq<&str>) -> Seq<Seq<char>> {
    v.map_values(|s: &str| s@)
}

/// Two strictly sorted sequences with the same elements are equal.
pub proof fn lemma_sorted_unique(a: Seq<Seq<char>>, b: Seq<Seq<char>>)
    requires
        strictly_sorted(a),
        strictly_sorted(b),
        forall|x: Seq<char>| a.contains(x) <==> b.contains(x),
    ensures
        a == b,
    decreases a.len(),
{
    if a.len() == 0 {
        if b.len() > 0 {
            assert(b.contains(b[0]));
        }
        assert(a =~= b);
    } else {
        assert(a.contains(a[0]));
        let j = choose|j: int| 0 <= j < b.len() && b[j] == a[0];
        assert(b.contains(b[0]));
        let i = choose|i: int| 0 <= i < a.len() && a[i] == b[0];
        if j > 0 {
            assert(lex_lt(b[0], b[j]));
            if i == 0 {
                lemma_lex_irreflexive(a[0]);
            } else {
                assert(lex_lt(a[0], a[i]));
                lemma_lex_asymmetric(a[0], b[0]);
            }
        }
        assert(a[0] == b[0]);
        let a1 = a.drop_first();
        let b1 = b.drop_first();
        assert forall|x: Seq<char>| a1.contains(x) <==> b1.contains(x) by {
            if a1.contains(x) {
                let k = choose|k: int| 0 <= k < a1.len() && a1[k] == x;
                assert(lex_lt(a[0], a[k + 1]));
                assert(a.contains(x));
                let m = choose|m: int| 0 <= m < b.len() && b[m] == x;
                if m == 0 {
                    lemma_lex_irreflexive(x);
                }
                assert(b1[m - 1] == x);
            }
            if b1.contains(x) {
                let k = choose|k: int| 0 <= k < b1.len() && b1[k] == x;
                assert(lex_lt(b[0], b[k + 1]));
                assert(b.contains(x));
                let m = choose|m: int| 0 <= m < a.len() && a[m] == x;
                if m == 0 {
                    lemma_lex_irreflexive(x);
                }
                assert(a1[m - 1] == x);
            }
        }
        assert(strictly_sorted(a1)) by {
            assert forall|p: int, q: int| 0 <= p < q < a1.len() implies lex_lt(
                #[trigger] a1[p],
                #[trigger] a1[q],
            ) by {
                assert(a1[p] == a[p + 1] && a1[q] == a[q + 1]);
            }
        }
        assert(strictly_sorted(b1)) by {
            assert forall|p: int, q: int| 0 <= p < q < b1.len() implies lex_lt(
                #[trigger] b1[p],
                #[trigger] b1[q],
            ) by {
                assert(b1[p] == b[p + 1] && b1[q] == b[q + 1]);
            }
        }
        lemma_sorted_unique(a1, b1);
        assert(a =~= b) by {
            assert forall|k: int| 0 <= k < a.len() implies a[k] == b[k] by {
                if k > 0 {
                    assert(a[k] == a1[k - 1]);
                    assert(b[k] == b1[k - 1]);
                }
            }
        }
    }
}

/// The strictly sorted sequence holding exactly the elements of `s`.
pub open spec fn sorted_elements(s: Set<Seq<char>>) -> Seq<Seq<char>> {
    choose|q: Seq<Seq<char>>|
        strictly_sorted(q) && forall|x: Seq<char>| #[trigger] q.contains(x) <==> s.contains(x)
}

/// A sequence that is strictly sorted and holds exactly the elements of `s` is
/// `sorted_elements(s)`.
pub proof fn lemma_is_sorted_elements(q: Seq<Seq<char>>, s: Set<Seq<char>>)
    requires
        strictly_sorted(q),
        forall|x: Seq<char>| #[trigger] q.contains(x) <==> s.contains(x),
    ensures
        sorted_elements(s) == q,
{
    let r = sorted_elements(s);
    assert(strictly_sorted(r) && forall|x: Seq<char>| #[trigger] r.contains(x) <==> s.contains(x));
    lemma_sorted_unique(q, r);
}

/// Inserts `x` into the strictly sorted `v`, unless it is already there.
pub fn insert_sorted<'a>(v: &mut Vec<&'a str>, x: &'a str)
    requires
        strictly_sorted(views(old(v)@)),
    ensures
        strictly_sorted(views(final(v)@)),
        forall|y: Seq<char>| #[trigger]
            views(final(v)@).contains(y) <==> (views(old(v)@).contains(y) || y == x@),
{
    let ghost old_v = views(v@);
    let mut p: usize = 0;
    while p < v.len() && str_lt(v[p], x)
        invariant
            p <= v.len(),
            views(v@) == old_v,
            strictly_sorted(old_v),
            forall|j: int| 0 <= j < p ==> lex_lt(#[trigger] old_v[j], x@),
        decreases v.len() - p,
    {
        p += 1;
    }
    if p < v.len() && str_eq(v[p], x) {
        assert(old_v.contains(x@)) by {
            assert(old_v[p as int] == x@);
        }
        return;
    }
    proof {
        if p < v.len() {
            lemma_lex_total(old_v[p as int], x@);
            assert(lex_lt(x@, old_v[p as int]));
        }
    }
    v.insert(p, x);
    let ghost new_v = views(v@);
    proof {
        assert(new_v =~= old_v.insert(p as int, x@));
        assert forall|i: int, j: int| 0 <= i < j < new_v.len() implies lex_lt(
            #[trigger] new_v[i],
            #[trigger] new_v[j],
        ) by {
            if j < p {
            } else if j == p {
            } else if i < p {
                if j - 1 > p {
                    lemma_lex_transitive(x@, old_v[p as int], old_v[j - 1]);
                }
                lemma_lex_transitive(old_v[i], x@, old_v[j - 1]);
            } else if i == p {
                if j - 1 > p {
                    lemma_lex_transitive(x@, old_v[p as int], old_v[j - 1]);
                }
            } else {
            }
        }
        assert forall|y: Seq<char>| #[trigger]
            new_v.contains(y) <==> (old_v.contains(y) || y == x@) by {
            if new_v.contains(y) {
                let k = choose|k: int| 0 <= k < new_v.len() && new_v[k] == y;
                if k < p {
                    assert(old_v[k] == y);
                } else if k > p {
                    assert(old_v[k - 1] == y);
                }
            }
            if old_v.contains(y) {
                let k = choose|k: int| 0 <= k < old_v.len() && old_v[k] == y;
                if k < p {
                    assert(new_v[k] == y);
                } else {
                    assert(new_v[k + 1] == y);
                }
            }
            if y == x@ {
                assert(new_v[p as int] == y);
            }
        }
    }
}

} // verus!
