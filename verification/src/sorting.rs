use vstd::prelude::*;

verus! {

/// Every id is smaller than the next one.
pub open spec fn strictly_ascending(s: Seq<u32>) -> bool {
    forall|i: int, j: int| 0 <= i < j < s.len() ==> s[i] < s[j]
}

/// The ids of the finite set `s` in ascending order.
pub open spec fn ascending_ids(s: Set<u32>) -> Seq<u32> {
    choose|q: Seq<u32>| strictly_ascending(q) && q.to_set() == s
}

/// Two ascending sequences with the same elements are equal.
pub proof fn lemma_ascending_unique(a: Seq<u32>, b: Seq<u32>)
    requires
        strictly_ascending(a),
        strictly_ascending(b),
        a.to_set() == b.to_set(),
    ensures
        a == b,
    decreases a.len(),
{
    if a.len() == 0 {
        if b.len() > 0 {
            assert(b.to_set().contains(b[0]));
        }
        assert(a =~= b);
    } else if b.len() == 0 {
        assert(a.to_set().contains(a[0]));
    } else {
        // The first items are both the minimum.
        assert(b.to_set().contains(a[0]));
        let ja = choose|j: int| 0 <= j < b.len() && b[j] == a[0];
        assert(a.to_set().contains(b[0]));
        let jb = choose|j: int| 0 <= j < a.len() && a[j] == b[0];
        if ja > 0 {
            assert(b[0] < b[ja]);
            if jb > 0 {
                assert(a[0] < a[jb]);
            }
        }
        assert(a[0] == b[0]);
        let ta = a.drop_first();
        let tb = b.drop_first();
        assert forall|v: u32| ta.to_set().contains(v) implies tb.to_set().contains(v) by {
            let i = choose|i: int| 0 <= i < ta.len() && ta[i] == v;
            assert(a[i + 1] == v);
            assert(b.to_set().contains(v));
            let j = choose|j: int| 0 <= j < b.len() && b[j] == v;
            if j == 0 {
                assert(a[0] < a[i + 1]);
            }
            assert(tb[j - 1] == v);
        }
        assert forall|v: u32| tb.to_set().contains(v) implies ta.to_set().contains(v) by {
            let i = choose|i: int| 0 <= i < tb.len() && tb[i] == v;
            assert(b[i + 1] == v);
            assert(a.to_set().contains(v));
            let j = choose|j: int| 0 <= j < a.len() && a[j] == v;
            if j == 0 {
                assert(b[0] < b[i + 1]);
            }
            assert(ta[j - 1] == v);
        }
        assert(ta.to_set() =~= tb.to_set());
        lemma_ascending_unique(ta, tb);
        assert(a =~= seq![a[0]] + ta);
        assert(b =~= seq![b[0]] + tb);
    }
}

/// An ascending sequence is what `ascending_ids` gives for its elements.
pub proof fn lemma_is_ascending_ids(q: Seq<u32>)
    requires
        strictly_ascending(q),
    ensures
        ascending_ids(q.to_set()) == q,
        q.no_duplicates(),
{
    let c = ascending_ids(q.to_set());
    assert(strictly_ascending(c) && c.to_set() == q.to_set());
    lemma_ascending_unique(c, q);
}

proof fn lemma_has_max(s: Set<u32>)
    requires
        s.finite(),
        s.len() > 0,
    ensures
        exists|m: u32| s.contains(m) && forall|x: u32| s.contains(x) ==> x <= m,
    decreases s.len(),
{
    let x = s.choose();
    let rest = s.remove(x);
    if rest.len() == 0 {
        assert forall|y: u32| s.contains(y) implies y <= x by {
            if y != x {
                assert(rest.contains(y));
            }
        }
    } else {
        lemma_has_max(rest);
        let m = choose|m: u32| rest.contains(m) && forall|y: u32| rest.contains(y) ==> y <= m;
        if x <= m {
            assert forall|y: u32| s.contains(y) implies y <= m by {
                if y != x {
                    assert(rest.contains(y));
                }
            }
        } else {
            assert forall|y: u32| s.contains(y) implies y <= x by {
                if y != x {
                    assert(rest.contains(y));
                }
            }
        }
    }
}

/// Every finite set of ids has an ascending enumeration.
pub proof fn lemma_ascending_ids(s: Set<u32>)
    requires
        s.finite(),
    ensures
        strictly_ascending(ascending_ids(s)),
        ascending_ids(s).to_set() == s,
        ascending_ids(s).no_duplicates(),
        ascending_ids(s).len() == s.len(),
    decreases s.len(),
{
    if s.len() == 0 {
        let q = Seq::<u32>::empty();
        assert(q.to_set() =~= s);
        lemma_is_ascending_ids(q);
    } else {
        lemma_has_max(s);
        let m = choose|m: u32| s.contains(m) && forall|x: u32| s.contains(x) ==> x <= m;
        let rest = s.remove(m);
        lemma_ascending_ids(rest);
        let q0 = ascending_ids(rest);
        let q = q0.push(m);
        assert forall|i: int, j: int| 0 <= i < j < q.len() implies q[i] < q[j] by {
            if j < q0.len() {
                assert(q[i] == q0[i] && q[j] == q0[j]);
            } else {
                assert(q[i] == q0[i]);
                assert(q0.to_set().contains(q0[i]));
                assert(rest.contains(q0[i]));
            }
        }
        assert forall|v: u32| q.to_set().contains(v) <==> s.contains(v) by {
            if q.to_set().contains(v) {
                let k = choose|k: int| 0 <= k < q.len() && q[k] == v;
                if k < q0.len() {
                    assert(q0[k] == v);
                    assert(q0.to_set().contains(v));
                }
            }
            if s.contains(v) {
                if v == m {
                    assert(q[q0.len() as int] == v);
                } else {
                    assert(rest.contains(v));
                    assert(q0.to_set().contains(v));
                    let k = choose|k: int| 0 <= k < q0.len() && q0[k] == v;
                    assert(q[k] == v);
                }
            }
        }
        assert(q.to_set() =~= s);
        lemma_is_ascending_ids(q);
        q.unique_seq_to_set();
    }
}

/// The ids of `v` in ascending order (insertion sort).
pub fn sort_ids(v: &Vec<u32>) -> (r: Vec<u32>)
    requires
        v@.no_duplicates(),
    ensures
        strictly_ascending(r@),
        r@.to_set() == v@.to_set(),
        r@.len() == v@.len(),
{
    let mut r: Vec<u32> = Vec::new();
    let mut i: usize = 0;
    while i < v.len()
        invariant
            i <= v@.len(),
            v@.no_duplicates(),
            strictly_ascending(r@),
            r@.to_set() == v@.take(i as int).to_set(),
            r@.len() == i,
        decreases v@.len() - i,
    {
        let x = v[i];
        let mut p: usize = 0;
        while p < r.len() && r[p] < x
            invariant
                p <= r@.len(),
                forall|k: int| 0 <= k < p ==> r@[k] < x,
            decreases r@.len() - p,
        {
            p = p + 1;
        }
        let ghost r0 = r@;
        proof {
            assert(!r0.to_set().contains(x)) by {
                if r0.to_set().contains(x) {
                    assert(v@.take(i as int).to_set().contains(x));
                    let k = choose|k: int| 0 <= k < i && v@.take(i as int)[k] == x;
                    assert(v@[k] == v@[i as int]);
                }
            }
            if p < r0.len() {
                assert(r0[p as int] != x) by {
                    assert(r0.to_set().contains(r0[p as int]));
                }
            }
        }
        r.insert(p, x);
        proof {
            let r1 = r@;
            assert forall|a: int, b: int| 0 <= a < b < r1.len() implies r1[a] < r1[b] by {
                if b < p {
                } else if b == p {
                    assert(r1[a] == r0[a]);
                } else if a < p {
                    assert(r1[b] == r0[b - 1]);
                    if p < r0.len() {
                        assert(r0[p as int] <= r0[b - 1]);
                    }
                } else if a == p {
                    assert(r1[b] == r0[b - 1]);
                    assert(r0[p as int] <= r0[b - 1]);
                } else {
                    assert(r1[a] == r0[a - 1] && r1[b] == r0[b - 1]);
                }
            }
            let t0 = v@.take(i as int);
            let t1 = v@.take(i + 1);
            assert(t1 == t0.push(x));
            assert forall|y: u32| r1.to_set().contains(y) <==> t1.to_set().contains(y) by {
                if r1.to_set().contains(y) {
                    let k = choose|k: int| 0 <= k < r1.len() && r1[k] == y;
                    if k < p {
                        assert(r0[k] == y);
                        assert(r0.to_set().contains(y));
                    } else if k > p {
                        assert(r0[k - 1] == y);
                        assert(r0.to_set().contains(y));
                    }
                    if y != x {
                        assert(t0.to_set().contains(y));
                        let m = choose|m: int| 0 <= m < i && t0[m] == y;
                        assert(t1[m] == y);
                    } else {
                        assert(t1[i as int] == y);
                    }
                }
                if t1.to_set().contains(y) {
                    let m = choose|m: int| 0 <= m < i + 1 && t1[m] == y;
                    if m < i {
                        assert(t0[m] == y);
                        assert(r0.to_set().contains(y));
                        let k = choose|k: int| 0 <= k < r0.len() && r0[k] == y;
                        if k < p {
                            assert(r1[k] == y);
                        } else {
                            assert(r1[k + 1] == y);
                        }
                    } else {
                        assert(r1[p as int] == y);
                    }
                }
            }
            assert(r1.to_set() =~= v@.take(i + 1).to_set());
        }
        i = i + 1;
    }
    assert(v@.take(v@.len() as int) == v@);
    r
}

} // verus!
