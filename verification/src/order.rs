//! Orders used in reports: text in code point order, and the fact that a
//! strictly sorted arrangement of given elements is unique.

use vstd::prelude::*;
use crate::text::chars_of;

verus! {

/// Whether every element comes strictly before the next ones.
pub open spec fn sorted_by<A>(s: Seq<A>, lt: spec_fn(A, A) -> bool) -> bool {
    forall|i: int, j: int| 0 <= i < j < s.len() ==> lt(#[trigger] s[i], #[trigger] s[j])
}

/// `lt` is a strict order.
pub open spec fn strict_order<A>(lt: spec_fn(A, A) -> bool) -> bool {
    &&& forall|x: A| !#[trigger] lt(x, x)
    &&& forall|x: A, y: A, z: A| #[trigger] lt(x, y) && #[trigger] lt(y, z) ==> lt(x, z)
}

/// Two sequences with the same elements, both sorted by the same strict
/// order, are the same sequence.
pub proof fn lemma_sorted_unique<A>(a: Seq<A>, b: Seq<A>, lt: spec_fn(A, A) -> bool)
    requires
        strict_order(lt),
        sorted_by(a, lt),
        sorted_by(b, lt),
        forall|x: A| a.contains(x) <==> b.contains(x),
    ensures
        a == b,
    decreases a.len(),
{
    if a.len() == 0 {
        if b.len() > 0 {
            assert(b.contains(b[0]));
        }
        assert(a =~= b);
    } else {
        assert(a.contains(a[0]));
        let j = choose|j: int| 0 <= j < b.len() && b[j] == a[0];
        assert(b.contains(b[0]));
        let i = choose|i: int| 0 <= i < a.len() && a[i] == b[0];
        if j > 0 {
            assert(lt(b[0], b[j]));
            if i == 0 {
                assert(lt(a[0], a[0]));
            } else {
                assert(lt(a[0], a[i]));
                assert(lt(b[j], b[0]));
                assert(lt(b[0], b[0]));
            }
        }
        assert(b[0] == a[0]);
        let a1 = a.drop_first();
        let b1 = b.drop_first();
        assert forall|x: A| a1.contains(x) <==> b1.contains(x) by {
            if a1.contains(x) {
                let k = choose|k: int| 0 <= k < a1.len() && a1[k] == x;
                assert(a[k + 1] == x);
                assert(lt(a[0], a[k + 1]));
                assert(a.contains(x));
                let m = choose|m: int| 0 <= m < b.len() && b[m] == x;
                if m == 0 {
                    assert(lt(x, x));
                }
                assert(b1[m - 1] == x);
            }
            if b1.contains(x) {
                let k = choose|k: int| 0 <= k < b1.len() && b1[k] == x;
                assert(b[k + 1] == x);
                assert(lt(b[0], b[k + 1]));
                assert(b.contains(x));
                let m = choose|m: int| 0 <= m < a.len() && a[m] == x;
                if m == 0 {
                    assert(lt(x, x));
                }
                assert(a1[m - 1] == x);
            }
        }
        assert(sorted_by(a1, lt)) by {
            assert forall|p: int, q: int| 0 <= p < q < a1.len() implies lt(#[trigger] a1[p], #[trigger] a1[q]) by {
                assert(a1[p] == a[p + 1] && a1[q] == a[q + 1]);
            }
        }
        assert(sorted_by(b1, lt)) by {
            assert forall|p: int, q: int| 0 <= p < q < b1.len() implies lt(#[trigger] b1[p], #[trigger] b1[q]) by {
                assert(b1[p] == b[p + 1] && b1[q] == b[q + 1]);
            }
        }
        lemma_sorted_unique(a1, b1, lt);
        assert(a =~= b) by {
            assert forall|k: int| 0 <= k < a.len() implies a[k] == b[k] by {
                if k > 0 {
                    assert(a[k] == a1[k - 1]);
                    assert(b[k] == b1[k - 1]);
                }
            }
        }
    }
}

/// Text order: by code points, a proper prefix first.
pub open spec fn chars_lt(a: Seq<char>, b: Seq<char>) -> bool
    decreases a.len(),
{
    if a.len() == 0 {
        b.len() > 0
    } else if b.len() == 0 {
        false
    } else if a[0] != b[0] {
        (a[0] as int) < (b[0] as int)
    } else {
        chars_lt(a.drop_first(), b.drop_first())
    }
}

pub proof fn lemma_chars_lt_irreflexive(a: Seq<char>)
    ensures
        !chars_lt(a, a),
    decreases a.len(),
{
    if a.len() > 0 {
        lemma_chars_lt_irreflexive(a.drop_first());
    }
}

pub proof fn lemma_chars_lt_transitive(a: Seq<char>, b: Seq<char>, c: Seq<char>)
    requires
        chars_lt(a, b),
        chars_lt(b, c),
    ensures
        chars_lt(a, c),
    decreases a.len(),
{
    if a.len() > 0 && b.len() > 0 && c.len() > 0 {
        if a[0] == b[0] && b[0] == c[0] {
            lemma_chars_lt_transitive(a.drop_first(), b.drop_first(), c.drop_first());
        }
    }
}

pub proof fn lemma_chars_lt_total(a: Seq<char>, b: Seq<char>)
    requires
        a != b,
    ensures
        chars_lt(a, b) || chars_lt(b, a),
    decreases a.len(),
{
    if a.len() > 0 && b.len() > 0 {
        if a[0] == b[0] {
            if a.drop_first() == b.drop_first() {
                assert(a =~= seq![a[0]] + a.drop_first());
                assert(b =~= seq![b[0]] + b.drop_first());
            }
            lemma_chars_lt_total(a.drop_first(), b.drop_first());
        } else {
        }
    } else if a.len() == 0 && b.len() == 0 {
        assert(a =~= b);
    }
}

/// Whether `a` comes before `b` in text order.
pub fn str_lt(a: &str, b: &str) -> (r: bool)
    ensures
        r == chars_lt(a@, b@),
{
    let x = chars_of(a);
    let y = chars_of(b);
    let mut i: usize = 0;
    assert(a@.skip(0) =~= a@);
    assert(b@.skip(0) =~= b@);
    while i < x.len() && i < y.len() && x[i] == y[i]
        invariant
            i <= x@.len(),
            i <= y@.len(),
            x@ == a@,
            y@ == b@,
            chars_lt(a@, b@) == chars_lt(a@.skip(i as int), b@.skip(i as int)),
        decreases x@.len() - i,
    {
        assert(a@.skip(i as int).drop_first() =~= a@.skip(i + 1));
        assert(b@.skip(i as int).drop_first() =~= b@.skip(i + 1));
        i = i + 1;
    }
    if i == x.len() {
        i < y.len()
    } else if i == y.len() {
        false
    } else {
        x[i] < y[i]
    }
}


/// Inserting `x` where everything before it is smaller and the next
/// element larger keeps a sequence sorted, and adds just `x`.
pub proof fn lemma_insert_sorted<A>(t: Seq<A>, x: A, p: int, lt: spec_fn(A, A) -> bool)
    requires
        strict_order(lt),
        sorted_by(t, lt),
        0 <= p <= t.len(),
        forall|q: int| 0 <= q < p ==> lt(#[trigger] t[q], x),
        p < t.len() ==> lt(x, t[p]),
    ensures
        sorted_by(t.insert(p, x), lt),
        forall|y: A| t.insert(p, x).contains(y) <==> (t.contains(y) || y == x),
{
    let u = t.insert(p, x);
    assert(u.len() == t.len() + 1);
    assert forall|a: int| 0 <= a < p implies #[trigger] u[a] == t[a] by {}
    assert(u[p] == x);
    assert forall|a: int| p < a < u.len() implies #[trigger] u[a] == t[a - 1] by {}
    assert forall|a: int, b: int| 0 <= a < b < u.len() implies lt(#[trigger] u[a], #[trigger] u[b]) by {
        if b < p {
            assert(lt(t[a], t[b]));
        } else if b == p {
            assert(lt(t[a], x));
        } else if a < p {
            assert(lt(t[a], t[b - 1]));
        } else if a == p {
            assert(lt(x, t[p]));
            if b - 1 > p {
                assert(lt(t[p], t[b - 1]));
            }
        } else {
            assert(lt(t[a - 1], t[b - 1]));
        }
    }
    assert forall|y: A| u.contains(y) <==> (t.contains(y) || y == x) by {
        if u.contains(y) {
            let a = choose|a: int| 0 <= a < u.len() && u[a] == y;
            if a < p {
                assert(t[a] == y);
            } else if a > p {
                assert(t[a - 1] == y);
            }
        }
        if t.contains(y) {
            let a = choose|a: int| 0 <= a < t.len() && t[a] == y;
            if a < p {
                assert(u[a] == y);
            } else {
                assert(u[a + 1] == y);
            }
        }
        if y == x {
            assert(u[p] == y);
        }
    }
}
} // verus!
