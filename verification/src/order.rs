//! The order of names: that of the characters at the first place where
//! two names differ, a name coming before every name that goes on from it.

use vstd::prelude::*;
use vstd::std_specs::iter::IteratorSpec;

verus! {

/// Whether `a` and `b` agree before place `k` and `a` is smaller there:
/// it has the smaller character, or it ends and `b` goes on.
pub open spec fn is_lt_witness(a: Seq<char>, b: Seq<char>, k: int) -> bool {
    &&& 0 <= k <= a.len()
    &&& k < b.len()
    &&& a.take(k) == b.take(k)
    &&& (k < a.len() ==> a[k] < b[k])
}

/// Whether `a` comes before `b`.
pub open spec fn name_lt(a: Seq<char>, b: Seq<char>) -> bool {
    exists|k: int| is_lt_witness(a, b, k)
}

/// The first place where `a` and `b` differ, or the length of the shorter
/// if one goes on from the other.
pub open spec fn first_difference(a: Seq<char>, b: Seq<char>) -> int
    decreases a.len(),
{
    if a.len() == 0 || b.len() == 0 || a[0] != b[0] {
        0
    } else {
        1 + first_difference(a.drop_first(), b.drop_first())
    }
}

proof fn lemma_first_difference(a: Seq<char>, b: Seq<char>)
    ensures
        0 <= first_difference(a, b) <= a.len(),
        first_difference(a, b) <= b.len(),
        a.take(first_difference(a, b)) == b.take(first_difference(a, b)),
        first_difference(a, b) < a.len() && first_difference(a, b) < b.len() ==> a[first_difference(
            a,
            b,
        )] != b[first_difference(a, b)],
    decreases a.len(),
{
    let d = first_difference(a, b);
    if a.len() == 0 || b.len() == 0 || a[0] != b[0] {
        assert(a.take(0) =~= b.take(0));
    } else {
        let a1 = a.drop_first();
        let b1 = b.drop_first();
        lemma_first_difference(a1, b1);
        let d1 = first_difference(a1, b1);
        assert(a.take(d) =~= seq![a[0]] + a1.take(d1));
        assert(b.take(d) =~= seq![b[0]] + b1.take(d1));
        if d < a.len() && d < b.len() {
            assert(a[d] == a1[d1]);
            assert(b[d] == b1[d1]);
        }
    }
}

/// A witness can only stand at the first difference.
proof fn lemma_witness_is_first_difference(a: Seq<char>, b: Seq<char>, k: int)
    requires
        is_lt_witness(a, b, k),
    ensures
        k == first_difference(a, b),
{
    lemma_first_difference(a, b);
    let d = first_difference(a, b);
    if k < d {
        assert(a.take(d)[k] == b.take(d)[k]);
    } else if d < k {
        assert(a.take(k)[d] == b.take(k)[d]);
    }
}

/// Of two names one comes before the other, or they are the same name.
pub proof fn lemma_name_order_total(a: Seq<char>, b: Seq<char>)
    ensures
        name_lt(a, b) || name_lt(b, a) || a == b,
{
    lemma_first_difference(a, b);
    let d = first_difference(a, b);
    if d == a.len() && d == b.len() {
        assert(a.take(d) =~= a);
        assert(b.take(d) =~= b);
    } else if d == a.len() {
        assert(is_lt_witness(a, b, d));
    } else if d == b.len() {
        assert(is_lt_witness(b, a, d));
    } else if a[d] < b[d] {
        assert(is_lt_witness(a, b, d));
    } else {
        assert(is_lt_witness(b, a, d));
    }
}

/// No name comes before itself, and of two names not each before the other.
pub proof fn lemma_name_order_asymmetric(a: Seq<char>, b: Seq<char>)
    ensures
        !(name_lt(a, b) && name_lt(b, a)),
        !name_lt(a, a),
{
    if name_lt(a, b) && name_lt(b, a) {
        let k = choose|k: int| is_lt_witness(a, b, k);
        let j = choose|j: int| is_lt_witness(b, a, j);
        lemma_witness_is_first_difference(a, b, k);
        lemma_witness_is_first_difference(b, a, j);
        lemma_first_difference(a, b);
        lemma_first_difference(b, a);
        let d = first_difference(b, a);
        if k < d {
            assert(b.take(d)[k] == a.take(d)[k]);
        } else if d < k {
            assert(a.take(k)[d] == b.take(k)[d]);
        }
    }
    if name_lt(a, a) {
        let k = choose|k: int| is_lt_witness(a, a, k);
    }
}

/// What comes before a name comes before all that the name comes before.
pub proof fn lemma_name_order_transitive(a: Seq<char>, b: Seq<char>, c: Seq<char>)
    requires
        name_lt(a, b),
        name_lt(b, c),
    ensures
        name_lt(a, c),
{
    let k = choose|k: int| is_lt_witness(a, b, k);
    let j = choose|j: int| is_lt_witness(b, c, j);
    let m = if k <= j {
        k
    } else {
        j
    };
    assert(a.take(m) =~= c.take(m)) by {
        assert forall|i: int| 0 <= i < m implies a[i] == c[i] by {
            assert(a.take(k)[i] == b.take(k)[i]);
            assert(b.take(j)[i] == c.take(j)[i]);
        }
    }
    if k < j {
        assert(b.take(j)[k] == c.take(j)[k]);
        assert(is_lt_witness(a, c, m));
    } else if j < k {
        assert(a.take(k)[j] == b.take(k)[j]);
        assert(is_lt_witness(a, c, m));
    } else {
        assert(is_lt_witness(a, c, m));
    }
}

/// What does not come after a name does not come after what the name
/// does not come after.
pub proof fn lemma_name_order_chain(a: Seq<char>, b: Seq<char>, c: Seq<char>)
    requires
        !name_lt(b, a),
        !name_lt(c, b),
    ensures
        !name_lt(c, a),
{
    if name_lt(c, a) {
        lemma_name_order_total(a, b);
        lemma_name_order_total(b, c);
        if a == b {
        } else if b == c {
        } else {
            lemma_name_order_transitive(c, a, b);
        }
    }
}

/// Whether the name `a` comes before the name `b`.
pub fn name_less(a: &str, b: &str) -> (r: bool)
    ensures
        r == name_lt(a@, b@),
{
    let mut ia = a.chars();
    let mut ib = b.chars();
    let ghost mut k: int = 0;
    loop
        invariant
            0 <= k <= a@.len(),
            k <= b@.len(),
            a@.take(k) == b@.take(k),
            ia.remaining() == a@.skip(k),
            ib.remaining() == b@.skip(k),
            ia.obeys_prophetic_iter_laws(),
            ib.obeys_prophetic_iter_laws(),
            ia.decrease() is Some,
        decreases ia.decrease()->0,
    {
        let x = ia.next();
        let y = ib.next();
        match (x, y) {
            (_, None) => {
                proof {
                    assert(k == b@.len());
                    assert forall|j: int| !is_lt_witness(a@, b@, j) by {
                        if is_lt_witness(a@, b@, j) {
                            assert(a@.take(k)[j] == b@.take(k)[j]);
                        }
                    }
                }
                return false;
            },
            (None, Some(_)) => {
                proof {
                    assert(is_lt_witness(a@, b@, k));
                }
                return true;
            },
            (Some(p), Some(q)) => {
                proof {
                    assert(p == a@[k]);
                    assert(q == b@[k]);
                }
                if p < q {
                    proof {
                        assert(is_lt_witness(a@, b@, k));
                    }
                    return true;
                }
                if q < p {
                    proof {
                        assert forall|j: int| !is_lt_witness(a@, b@, j) by {
                            if is_lt_witness(a@, b@, j) {
                                if j > k {
                                    assert(a@.take(j)[k] == b@.take(j)[k]);
                                } else if j < k {
                                    assert(a@.take(k)[j] == b@.take(k)[j]);
                                }
                            }
                        }
                    }
                    return false;
                }
                proof {
                    assert(a@.take(k + 1) =~= a@.take(k).push(p));
                    assert(b@.take(k + 1) =~= b@.take(k).push(q));
                    assert(a@.skip(k).drop_first() =~= a@.skip(k + 1));
                    assert(b@.skip(k).drop_first() =~= b@.skip(k + 1));
                    k = k + 1;
                }
            },
        }
    }
}

} // verus!
