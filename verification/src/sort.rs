//! Lexicographic order on strings, and sorting.
//!
//! Strings compare by their characters' code points, the order in which
//! `str`'s `Ord` compares UTF-8 bytes.
use crate::text::{chars_of, views};
use vstd::prelude::*;

verus! {

/// `a` comes strictly before `b`.
pub open spec fn lex_lt(a: Seq<char>, b: Seq<char>) -> bool
    decreases a.len(),
{
    if a.len() == 0 {
        b.len() > 0
    } else if b.len() == 0 {
        false
    } else if (a[0] as int) < (b[0] as int) {
        true
    } else if (a[0] as int) > (b[0] as int) {
        false
    } else {
        lex_lt(a.drop_first(), b.drop_first())
    }
}

pub proof fn lemma_lex_irreflexive(a: Seq<char>)
    ensures
        !lex_lt(a, a),
    decreases a.len(),
{
    if a.len() > 0 {
        lemma_lex_irreflexive(a.drop_first());
    }
}

pub proof fn lemma_lex_transitive(a: Seq<char>, b: Seq<char>, c: Seq<char>)
    requires
        lex_lt(a, b),
        lex_lt(b, c),
    ensures
        lex_lt(a, c),
    decreases a.len(),
{
    if a.len() > 0 && b.len() > 0 && c.len() > 0 {
        if (a[0] as int) == (b[0] as int) && (b[0] as int) == (c[0] as int) {
            lemma_lex_transitive(a.drop_first(), b.drop_first(), c.drop_first());
        }
    }
}

pub proof fn lemma_lex_total(a: Seq<char>, b: Seq<char>)
    ensures
        a == b || lex_lt(a, b) || lex_lt(b, a),
    decreases a.len(),
{
    if a.len() > 0 && b.len() > 0 {
        if (a[0] as int) == (b[0] as int) {
            lemma_lex_total(a.drop_first(), b.drop_first());
            if a.drop_first() == b.drop_first() {
                assert(a =~= seq![a[0]] + a.drop_first());
                assert(b =~= seq![b[0]] + b.drop_first());
            }
        }
    } else if a.len() == 0 && b.len() == 0 {
        assert(a =~= b);
    }
}

pub proof fn lemma_lex_asymmetric(a: Seq<char>, b: Seq<char>)
    requires
        lex_lt(a, b),
    ensures
        !lex_lt(b, a),
{
    if lex_lt(b, a) {
        lemma_lex_transitive(a, b, a);
        lemma_lex_irreflexive(a);
    }
}

/// Each item comes strictly before the next.
pub open spec fn strictly_sorted(s: Seq<Seq<char>>) -> bool {
    forall|i: int, j: int| 0 <= i < j < s.len() ==> lex_lt(s[i], s[j])
}

/// Two strictly sorted sequences with the same items are equal.
pub proof fn lemma_sorted_unique(a: Seq<Seq<char>>, b: Seq<Seq<char>>)
    requires
        strictly_sorted(a),
        strictly_sorted(b),
        a.to_set() == b.to_set(),
    ensures
        a == b,
    decreases a.len(),
{
    if a.len() == 0 {
        if b.len() > 0 {
            assert(b.to_set().contains(b[0]));
        }
        assert(a =~= b);
    } else {
        assert(a.to_set().contains(a[0]));
        assert(b.to_set().contains(a[0]));
        let j = choose|j: int| 0 <= j < b.len() && b[j] == a[0];
        assert(b.to_set().contains(b[0]));
        assert(a.to_set().contains(b[0]));
        let k = choose|k: int| 0 <= k < a.len() && a[k] == b[0];
        if j > 0 {
            assert(lex_lt(b[0], b[j]));
            if k > 0 {
                assert(lex_lt(a[0], a[k]));
                lemma_lex_transitive(b[0], a[0], b[0]);
            }
            lemma_lex_irreflexive(b[0]);
        }
        assert(a[0] == b[0]);
        let a1 = a.drop_first();
        let b1 = b.drop_first();
        assert forall|e: Seq<char>| a1.to_set().contains(e) <==> b1.to_set().contains(e) by {
            if a1.contains(e) {
                let q = choose|q: int| 0 <= q < a1.len() && #[trigger] a1[q] == e;
                assert(a[q + 1] == e);
                assert(a.to_set().contains(e));
                assert(b.contains(e));
                let r = choose|r: int| 0 <= r < b.len() && #[trigger] b[r] == e;
                if r == 0 {
                    assert(lex_lt(a[0], a[q + 1]));
                    lemma_lex_irreflexive(a[0]);
                }
                assert(b1[r - 1] == e);
            }
            if b1.contains(e) {
                let q = choose|q: int| 0 <= q < b1.len() && #[trigger] b1[q] == e;
                assert(b[q + 1] == e);
                assert(b.to_set().contains(e));
                assert(a.contains(e));
                let r = choose|r: int| 0 <= r < a.len() && #[trigger] a[r] == e;
                if r == 0 {
                    assert(lex_lt(b[0], b[q + 1]));
                    lemma_lex_irreflexive(b[0]);
                }
                assert(a1[r - 1] == e);
            }
        }
        assert(a1.to_set() =~= b1.to_set());
        lemma_sorted_unique(a1, b1);
        assert(a =~= seq![a[0]] + a1);
        assert(b =~= seq![b[0]] + b1);
    }
}

/// The strictly sorted sequence of the items of a finite set (of `s`'s items).
pub open spec fn sorted_items(s: Seq<Seq<char>>) -> Seq<Seq<char>> {
    choose|r: Seq<Seq<char>>| strictly_sorted(r) && r.to_set() == s.to_set()
}

/// `x` put in its place in a strictly sorted sequence (which is kept as it
/// is when it holds `x` already).
pub open spec fn insert_sorted(r: Seq<Seq<char>>, x: Seq<char>) -> Seq<Seq<char>>
    decreases r.len(),
{
    if r.len() == 0 {
        seq![x]
    } else if lex_lt(x, r[0]) {
        seq![x] + r
    } else if x == r[0] {
        r
    } else {
        seq![r[0]] + insert_sorted(r.drop_first(), x)
    }
}

/// Putting an item in its place keeps a sequence strictly sorted and adds
/// the item to its items.
proof fn lemma_insert_sorted(r: Seq<Seq<char>>, x: Seq<char>)
    requires
        strictly_sorted(r),
    ensures
        strictly_sorted(insert_sorted(r, x)),
        forall|y: Seq<char>| #[trigger] insert_sorted(r, x).contains(y) <==> r.contains(y) || y == x,
    decreases r.len(),
{
    let q = insert_sorted(r, x);
    if r.len() == 0 {
        assert forall|y: Seq<char>| #[trigger] q.contains(y) <==> r.contains(y) || y == x by {
            if q.contains(y) {
                let k = choose|k: int| 0 <= k < q.len() && q[k] == y;
                assert(k == 0);
            }
            if y == x {
                assert(q[0] == x);
            }
        }
    } else if lex_lt(x, r[0]) {
        assert forall|i: int, j: int| 0 <= i < j < q.len() implies lex_lt(q[i], q[j]) by {
            if i == 0 {
                assert(q[j] == r[j - 1]);
                if j - 1 > 0 {
                    lemma_lex_transitive(x, r[0], r[j - 1]);
                }
            } else {
                assert(q[i] == r[i - 1] && q[j] == r[j - 1]);
            }
        }
        assert forall|y: Seq<char>| #[trigger] q.contains(y) <==> r.contains(y) || y == x by {
            if q.contains(y) {
                let k = choose|k: int| 0 <= k < q.len() && q[k] == y;
                if k > 0 {
                    assert(r[k - 1] == y);
                }
            }
            if r.contains(y) {
                let k = choose|k: int| 0 <= k < r.len() && r[k] == y;
                assert(q[k + 1] == y);
            }
            if y == x {
                assert(q[0] == x);
            }
        }
    } else if x == r[0] {
    } else {
        let t = r.drop_first();
        assert(strictly_sorted(t)) by {
            assert forall|i: int, j: int| 0 <= i < j < t.len() implies lex_lt(t[i], t[j]) by {
                assert(t[i] == r[i + 1] && t[j] == r[j + 1]);
            }
        }
        lemma_insert_sorted(t, x);
        let qt = insert_sorted(t, x);
        lemma_lex_total(x, r[0]);
        assert forall|i: int, j: int| 0 <= i < j < q.len() implies lex_lt(q[i], q[j]) by {
            if i == 0 {
                assert(q[j] == qt[j - 1]);
                assert(qt.contains(qt[j - 1]));
                if qt[j - 1] != x {
                    assert(t.contains(qt[j - 1]));
                    let k = choose|k: int| 0 <= k < t.len() && t[k] == qt[j - 1];
                    assert(r[k + 1] == qt[j - 1]);
                }
            } else {
                assert(q[i] == qt[i - 1] && q[j] == qt[j - 1]);
            }
        }
        assert forall|y: Seq<char>| #[trigger] q.contains(y) <==> r.contains(y) || y == x by {
            if q.contains(y) {
                let k = choose|k: int| 0 <= k < q.len() && q[k] == y;
                if k > 0 {
                    assert(qt[k - 1] == y);
                    assert(qt.contains(y));
                    if y != x {
                        let m = choose|m: int| 0 <= m < t.len() && t[m] == y;
                        assert(r[m + 1] == y);
                    }
                } else {
                    assert(r[0] == y);
                }
            }
            if r.contains(y) {
                let k = choose|k: int| 0 <= k < r.len() && r[k] == y;
                if k > 0 {
                    assert(t[k - 1] == y);
                    assert(qt.contains(y));
                    let m = choose|m: int| 0 <= m < qt.len() && qt[m] == y;
                    assert(q[m + 1] == y);
                } else {
                    assert(q[0] == y);
                }
            }
            if y == x {
                assert(qt.contains(x));
                let m = choose|m: int| 0 <= m < qt.len() && qt[m] == x;
                assert(q[m + 1] == x);
            }
        }
    }
}

/// Every sequence of strings has its items in strictly sorted order: what
/// `sorted_items` names exists.
pub proof fn lemma_sorted_items_exist(s: Seq<Seq<char>>)
    ensures
        strictly_sorted(sorted_items(s)),
        sorted_items(s).to_set() == s.to_set(),
    decreases s.len(),
{
    if s.len() == 0 {
        let e = Seq::<Seq<char>>::empty();
        assert(e.to_set() =~= s.to_set());
        assert(strictly_sorted(e));
    } else {
        let t = s.drop_last();
        lemma_sorted_items_exist(t);
        let r = sorted_items(t);
        lemma_insert_sorted(r, s.last());
        let w = insert_sorted(r, s.last());
        assert forall|y: Seq<char>| w.to_set().contains(y) <==> s.to_set().contains(y) by {
            assert(r.to_set().contains(y) == t.to_set().contains(y));
            if s.contains(y) {
                let k = choose|k: int| 0 <= k < s.len() && s[k] == y;
                if k < s.len() - 1 {
                    assert(t[k] == y);
                }
            }
            if t.contains(y) {
                let k = choose|k: int| 0 <= k < t.len() && t[k] == y;
                assert(s[k] == y);
            }
            assert(s[s.len() - 1] == s.last());
        }
        assert(w.to_set() =~= s.to_set());
    }
}

/// What `sorted_distinct` returns is `sorted_items`.
pub proof fn lemma_sorted_items(r: Seq<Seq<char>>, s: Seq<Seq<char>>)
    requires
        strictly_sorted(r),
        r.to_set() == s.to_set(),
    ensures
        sorted_items(s) == r,
{
    let q = sorted_items(s);
    assert(strictly_sorted(q) && q.to_set() == s.to_set());
    lemma_sorted_unique(q, r);
}

/// Whether `a` comes strictly before `b`.
pub fn str_lt(a: &str, b: &str) -> (r: bool)
    ensures
        r == lex_lt(a@, b@),
{
    let x = chars_of(a);
    let y = chars_of(b);
    let mut i: usize = 0;
    assert(x@.skip(0) =~= x@);
    assert(y@.skip(0) =~= y@);
    while i < x.len() && i < y.len()
        invariant
            i <= x.len(),
            i <= y.len(),
            x@ == a@,
            y@ == b@,
            lex_lt(a@, b@) == lex_lt(x@.skip(i as int), y@.skip(i as int)),
        decreases x.len() - i,
    {
        if x[i] < y[i] {
            assert(x@.skip(i as int)[0] == x@[i as int]);
            assert(y@.skip(i as int)[0] == y@[i as int]);
            return true;
        }
        if x[i] > y[i] {
            assert(x@.skip(i as int)[0] == x@[i as int]);
            assert(y@.skip(i as int)[0] == y@[i as int]);
            return false;
        }
        assert(x@.skip(i as int)[0] == x@[i as int]);
        assert(y@.skip(i as int)[0] == y@[i as int]);
        assert(x@.skip(i as int).drop_first() =~= x@.skip(i + 1));
        assert(y@.skip(i as int).drop_first() =~= y@.skip(i + 1));
        i += 1;
    }
    i == x.len() && i < y.len()
}

/// The distinct items of `items`, sorted.
pub fn sorted_distinct(items: &Vec<String>) -> (r: Vec<String>)
    ensures
        strictly_sorted(views(r@)),
        views(r@).to_set() == views(items@).to_set(),
        views(r@) == sorted_items(views(items@)),
{
    let mut out: Vec<String> = Vec::new();
    let mut i: usize = 0;
    while i < items.len()
        invariant
            i <= items.len(),
            strictly_sorted(views(out@)),
            views(out@).to_set() == views(items@.take(i as int)).to_set(),
        decreases items.len() - i,
    {
        let x = &items[i];
        // find the first position whose item does not come before x
        let mut p: usize = 0;
        while p < out.len() && str_lt(out[p].as_str(), x.as_str())
            invariant
                p <= out.len(),
                forall|q: int| 0 <= q < p ==> lex_lt(out@[q]@, x@),
            decreases out.len() - p,
        {
            p += 1;
        }
        let ghost vo = views(out@);
        proof {
            let ghost prev = views(items@.take(i as int));
            let ghost next = views(items@.take(i + 1));
            assert(next =~= prev.push(x@));
            assert forall|e: Seq<char>| next.to_set().contains(e) <==> prev.to_set().insert(x@).contains(e) by {
                if next.contains(e) {
                    let k = choose|k: int| 0 <= k < next.len() && #[trigger] next[k] == e;
                    if k < i {
                        assert(prev[k] == e);
                    }
                }
                if prev.contains(e) {
                    let k = choose|k: int| 0 <= k < prev.len() && #[trigger] prev[k] == e;
                    assert(next[k] == e);
                }
                if e == x@ {
                    assert(next[i as int] == e);
                }
            }
            assert(next.to_set() =~= prev.to_set().insert(x@));
        }
        if p < out.len() && crate::text::str_eq(out[p].as_str(), x.as_str()) {
            // already present
            proof {
                assert(vo[p as int] == x@);
                assert(vo.to_set().insert(x@) =~= vo.to_set());
            }
        } else {
            proof {
                if p < out@.len() {
                    lemma_lex_total(out@[p as int]@, x@);
                }
            }
            out.insert(p, x.clone());
            proof {
                let vn = views(out@);
                assert(vn =~= vo.insert(p as int, x@));
                assert forall|a: int, b: int| 0 <= a < b < vn.len() implies lex_lt(vn[a], vn[b]) by {
                    if b < p {
                        assert(vn[a] == vo[a] && vn[b] == vo[b]);
                    } else if b == p {
                        assert(vn[a] == vo[a]);
                    } else if a == p {
                        assert(vn[b] == vo[b - 1]);
                        if b - 1 > p {
                            assert(lex_lt(vo[p as int], vo[b - 1]));
                            lemma_lex_transitive(x@, vo[p as int], vo[b - 1]);
                        }
                    } else if a < p {
                        assert(vn[a] == vo[a] && vn[b] == vo[b - 1]);
                        if a < b - 1 {
                        }
                        assert(lex_lt(vo[a], x@));
                        if b - 1 == p as int {
                        } else {
                            assert(lex_lt(vo[p as int], vo[b - 1]));
                            lemma_lex_transitive(x@, vo[p as int], vo[b - 1]);
                            lemma_lex_transitive(vo[a], x@, vo[b - 1]);
                        }
                        if b - 1 == p as int {
                            lemma_lex_transitive(vo[a], x@, vo[p as int]);
                        }
                    } else {
                        assert(vn[a] == vo[a - 1] && vn[b] == vo[b - 1]);
                    }
                }
                assert forall|e: Seq<char>| vn.to_set().contains(e) <==> vo.to_set().insert(x@).contains(e) by {
                    if vn.contains(e) {
                        let k = choose|k: int| 0 <= k < vn.len() && #[trigger] vn[k] == e;
                        if k < p {
                            assert(vo[k] == e);
                        } else if k > p {
                            assert(vo[k - 1] == e);
                        }
                    }
                    if vo.contains(e) {
                        let k = choose|k: int| 0 <= k < vo.len() && #[trigger] vo[k] == e;
                        if k < p {
                            assert(vn[k] == e);
                        } else {
                            assert(vn[k + 1] == e);
                        }
                    }
                    if e == x@ {
                        assert(vn[p as int] == e);
                    }
                }
                assert(vn.to_set() =~= vo.to_set().insert(x@));
            }
        }
        i += 1;
    }
    assert(items@.take(items@.len() as int) =~= items@);
    proof {
        lemma_sorted_items(views(out@), views(items@));
    }
    out
}

/// `a` comes before `b` or is `b`.
pub open spec fn lex_le(a: Seq<char>, b: Seq<char>) -> bool {
    a == b || lex_lt(a, b)
}

/// The order of strings, as a relation.
pub open spec fn str_order() -> spec_fn(Seq<char>, Seq<char>) -> bool {
    |a: Seq<char>, b: Seq<char>| lex_le(a, b)
}

/// Pairs of strings ordered by their first string, then their second.
pub open spec fn pair_le(a: (Seq<char>, Seq<char>), b: (Seq<char>, Seq<char>)) -> bool {
    lex_lt(a.0, b.0) || (a.0 == b.0 && lex_le(a.1, b.1))
}

/// The order of pairs of strings, as a relation.
pub open spec fn pair_order() -> spec_fn((Seq<char>, Seq<char>), (Seq<char>, Seq<char>)) -> bool {
    |a: (Seq<char>, Seq<char>), b: (Seq<char>, Seq<char>)| pair_le(a, b)
}

/// The order of strings is a total order.
pub proof fn lemma_str_order_total()
    ensures
        vstd::relations::total_ordering(str_order()),
{
    let r = str_order();
    assert forall|a: Seq<char>, b: Seq<char>| #[trigger] r(a, b) && r(b, a) implies a == b by {
        if a != b {
            lemma_lex_asymmetric(a, b);
        }
    }
    assert forall|a: Seq<char>, b: Seq<char>, c: Seq<char>| #[trigger] r(a, b) && #[trigger] r(b, c) implies r(a, c) by {
        if a != b && b != c {
            lemma_lex_transitive(a, b, c);
        }
    }
    assert forall|a: Seq<char>, b: Seq<char>| #[trigger] r(a, b) || r(b, a) by {
        lemma_lex_total(a, b);
    }
}

/// The order of pairs of strings is a total order.
pub proof fn lemma_pair_order_total()
    ensures
        vstd::relations::total_ordering(pair_order()),
{
    let r = pair_order();
    assert forall|a: (Seq<char>, Seq<char>)| #[trigger] r(a, a) by {}
    assert forall|a: (Seq<char>, Seq<char>), b: (Seq<char>, Seq<char>)| #[trigger] r(a, b) && r(b, a) implies a == b by {
        if lex_lt(a.0, b.0) {
            lemma_lex_asymmetric(a.0, b.0);
            if a.0 == b.0 {
                lemma_lex_irreflexive(a.0);
            }
        } else if lex_lt(b.0, a.0) {
            lemma_lex_asymmetric(b.0, a.0);
        } else if a.1 != b.1 {
            lemma_lex_asymmetric(a.1, b.1);
        }
    }
    assert forall|a: (Seq<char>, Seq<char>), b: (Seq<char>, Seq<char>), c: (Seq<char>, Seq<char>)|
        #[trigger] r(a, b) && #[trigger] r(b, c) implies r(a, c) by {
        if lex_lt(a.0, b.0) && lex_lt(b.0, c.0) {
            lemma_lex_transitive(a.0, b.0, c.0);
        }
        if a.0 == b.0 && b.0 == c.0 && a.1 != b.1 && b.1 != c.1 {
            lemma_lex_transitive(a.1, b.1, c.1);
        }
    }
    assert forall|a: (Seq<char>, Seq<char>), b: (Seq<char>, Seq<char>)| #[trigger] r(a, b) || r(b, a) by {
        lemma_lex_total(a.0, b.0);
        lemma_lex_total(a.1, b.1);
    }
}

/// The pairs of views of a list of string pairs.
pub open spec fn pair_seq(s: Seq<(String, String)>) -> Seq<(Seq<char>, Seq<char>)> {
    s.map_values(|p: (String, String)| (p.0@, p.1@))
}

/// Strings sorted.
pub fn sort_strings(v: &Vec<String>) -> (r: Vec<String>)
    ensures
        views(r@) == views(v@).sort_by(str_order()),
{
    broadcast use vstd::seq_lib::group_to_multiset_ensures;
    proof {
        lemma_str_order_total();
    }
    let ghost leq = str_order();
    let mut r: Vec<String> = Vec::new();
    let mut i: usize = 0;
    while i < v.len()
        invariant
            i <= v@.len(),
            leq == str_order(),
            vstd::relations::total_ordering(leq),
            vstd::relations::sorted_by(views(r@), leq),
            views(r@).to_multiset() == views(v@).take(i as int).to_multiset(),
        decreases v@.len() - i,
    {
        let x = &v[i];
        let mut j: usize = 0;
        while j < r.len() && !str_lt(x.as_str(), r[j].as_str())
            invariant
                j <= r@.len(),
                forall|k: int| 0 <= k < j ==> !lex_lt(x@, #[trigger] r@[k]@),
            decreases r@.len() - j,
        {
            j += 1;
        }
        let ghost old_r = views(r@);
        r.insert(j, x.clone());
        assert(views(r@) =~= old_r.insert(j as int, x@));
        assert(views(v@).take(i + 1) =~= views(v@).take(i as int).push(x@));
        proof {
            vstd::seq_lib::to_multiset_insert(old_r, j as int, x@);
            vstd::seq_lib::to_multiset_build(views(v@).take(i as int), x@);
        }
        assert(vstd::relations::sorted_by(views(r@), leq)) by {
            assert forall|a: int, b: int| 0 <= a < b < views(r@).len() implies #[trigger] leq(views(r@)[a], views(r@)[b]) by {
                let ra = views(r@)[a];
                let rb = views(r@)[b];
                if a < j && b < j {
                    assert(leq(old_r[a], old_r[b]));
                } else if a < j && b == j {
                    lemma_lex_total(old_r[a], x@);
                } else if a < j {
                    assert(leq(old_r[a], old_r[b - 1]));
                } else if a == j {
                    assert(lex_lt(x@, old_r[j as int]));
                    if b - 1 > j {
                        assert(leq(old_r[j as int], old_r[b - 1]));
                        if old_r[j as int] != old_r[b - 1] {
                            lemma_lex_transitive(x@, old_r[j as int], old_r[b - 1]);
                        }
                    }
                } else {
                    assert(leq(old_r[a - 1], old_r[b - 1]));
                }
            }
        }
        i += 1;
    }
    proof {
        assert(views(v@).take(v@.len() as int) =~= views(v@));
        views(v@).lemma_sort_by_ensures(leq);
        vstd::seq_lib::lemma_sorted_unique(views(r@), views(v@).sort_by(leq), leq);
    }
    r
}

/// Pairs of strings sorted by their first string, then their second.
pub fn sort_pairs(v: &Vec<(String, String)>) -> (r: Vec<(String, String)>)
    ensures
        pair_seq(r@) == pair_seq(v@).sort_by(pair_order()),
{
    broadcast use vstd::seq_lib::group_to_multiset_ensures;
    proof {
        lemma_pair_order_total();
    }
    let ghost leq = pair_order();
    let mut r: Vec<(String, String)> = Vec::new();
    let mut i: usize = 0;
    while i < v.len()
        invariant
            i <= v@.len(),
            leq == pair_order(),
            vstd::relations::total_ordering(leq),
            vstd::relations::sorted_by(pair_seq(r@), leq),
            pair_seq(r@).to_multiset() == pair_seq(v@).take(i as int).to_multiset(),
        decreases v@.len() - i,
    {
        let x = &v[i];
        let ghost xv = (x.0@, x.1@);
        let mut j: usize = 0;
        while j < r.len() && !(str_lt(x.0.as_str(), r[j].0.as_str()) || (crate::text::str_eq(x.0.as_str(), r[j].0.as_str()) && str_lt(x.1.as_str(), r[j].1.as_str())))
            invariant
                j <= r@.len(),
                xv == (x.0@, x.1@),
                forall|k: int| 0 <= k < j ==> !(lex_lt(xv.0, #[trigger] r@[k].0@) || (xv.0 == r@[k].0@ && lex_lt(xv.1, r@[k].1@))),
            decreases r@.len() - j,
        {
            j += 1;
        }
        let ghost old_r = pair_seq(r@);
        r.insert(j, (x.0.clone(), x.1.clone()));
        assert(pair_seq(r@) =~= old_r.insert(j as int, xv));
        assert(pair_seq(v@).take(i + 1) =~= pair_seq(v@).take(i as int).push(xv));
        proof {
            vstd::seq_lib::to_multiset_insert(old_r, j as int, xv);
            vstd::seq_lib::to_multiset_build(pair_seq(v@).take(i as int), xv);
        }
        assert(vstd::relations::sorted_by(pair_seq(r@), leq)) by {
            assert forall|a: int, b: int| 0 <= a < b < pair_seq(r@).len() implies #[trigger] leq(pair_seq(r@)[a], pair_seq(r@)[b]) by {
                if a < j && b < j {
                    assert(leq(old_r[a], old_r[b]));
                } else if a < j && b == j {
                    assert(!(lex_lt(xv.0, old_r[a].0) || (xv.0 == old_r[a].0 && lex_lt(xv.1, old_r[a].1))));
                    lemma_lex_total(old_r[a].0, xv.0);
                    lemma_lex_total(old_r[a].1, xv.1);
                } else if a < j {
                    assert(leq(old_r[a], old_r[b - 1]));
                } else if a == j {
                    let y = old_r[j as int];
                    assert(lex_lt(xv.0, y.0) || (xv.0 == y.0 && lex_lt(xv.1, y.1)));
                    assert(leq(xv, y));
                    if b - 1 > j {
                        assert(leq(y, old_r[b - 1]));
                    }
                } else {
                    assert(leq(old_r[a - 1], old_r[b - 1]));
                }
            }
        }
        i += 1;
    }
    proof {
        assert(pair_seq(v@).take(v@.len() as int) =~= pair_seq(v@));
        pair_seq(v@).lemma_sort_by_ensures(leq);
        vstd::seq_lib::lemma_sorted_unique(pair_seq(r@), pair_seq(v@).sort_by(leq), leq);
    }
    r
}

} // verus!
