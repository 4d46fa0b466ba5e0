//! Sequences of key/value string pairs with distinct keys, standing for
//! maps: the settings of a program's environment and the language server's
//! open documents.

use vstd::prelude::*;

use crate::text::{chars_of, eq_str};

verus! {

/// The texts of configuration pairs.
pub open spec fn pairs_view(v: Seq<(String, String)>) -> Seq<(Seq<char>, Seq<char>)> {
    v.map_values(|p: (String, String)| (p.0@, p.1@))
}

/// Whether no key occurs twice among the pairs.
pub open spec fn keys_distinct(p: Seq<(Seq<char>, Seq<char>)>) -> bool {
    forall|i: int, j: int| 0 <= i < p.len() && 0 <= j < p.len() && i != j ==> #[trigger] p[i].0 != #[trigger] p[j].0
}

/// The map that a sequence of pairs with distinct keys stands for.
pub open spec fn pairs_map(p: Seq<(Seq<char>, Seq<char>)>) -> Map<Seq<char>, Seq<char>> {
    Map::new(
        |k: Seq<char>| exists|i: int| 0 <= i < p.len() && #[trigger] p[i].0 == k,
        |k: Seq<char>| p[choose|i: int| 0 <= i < p.len() && #[trigger] p[i].0 == k].1,
    )
}

/// Whether text `a` comes strictly before text `b`, comparing the code
/// points of their characters from the first on; a proper prefix comes
/// before the longer text.
pub open spec fn key_less(a: Seq<char>, b: Seq<char>) -> bool
    decreases a.len(),
{
    if a.len() == 0 {
        b.len() > 0
    } else if b.len() == 0 {
        false
    } else if a[0] != b[0] {
        a[0] < b[0]
    } else {
        key_less(a.drop_first(), b.drop_first())
    }
}

/// Whether the keys of the pairs increase strictly from first to last.
pub open spec fn keys_sorted(p: Seq<(Seq<char>, Seq<char>)>) -> bool {
    forall|i: int, j: int| 0 <= i < j < p.len() ==> key_less(#[trigger] p[i].0, #[trigger] p[j].0)
}

pub proof fn lemma_key_less_irreflexive(a: Seq<char>)
    ensures
        !key_less(a, a),
    decreases a.len(),
{
    if a.len() > 0 {
        lemma_key_less_irreflexive(a.drop_first());
    }
}

pub proof fn lemma_key_less_total(a: Seq<char>, b: Seq<char>)
    ensures
        a == b || key_less(a, b) || key_less(b, a),
    decreases a.len(),
{
    if a.len() == 0 && b.len() == 0 {
        assert(a =~= b);
    } else if a.len() > 0 && b.len() > 0 {
        if a[0] == b[0] {
            lemma_key_less_total(a.drop_first(), b.drop_first());
            if a.drop_first() == b.drop_first() {
                assert(a.len() == b.len());
                assert forall|i: int| 0 <= i < a.len() implies a[i] == b[i] by {
                    if i > 0 {
                        assert(a[i] == a.drop_first()[i - 1]);
                        assert(b[i] == b.drop_first()[i - 1]);
                    }
                }
                assert(a =~= b);
            }
        }
    }
}

pub proof fn lemma_key_less_asymmetric(a: Seq<char>, b: Seq<char>)
    ensures
        !(key_less(a, b) && key_less(b, a)),
    decreases a.len(),
{
    if a.len() > 0 && b.len() > 0 && a[0] == b[0] {
        lemma_key_less_asymmetric(a.drop_first(), b.drop_first());
    }
}

pub proof fn lemma_key_less_transitive(a: Seq<char>, b: Seq<char>, c: Seq<char>)
    requires
        key_less(a, b),
        key_less(b, c),
    ensures
        key_less(a, c),
    decreases a.len(),
{
    if a.len() > 0 && b.len() > 0 && c.len() > 0 && a[0] == b[0] && b[0] == c[0] {
        lemma_key_less_transitive(a.drop_first(), b.drop_first(), c.drop_first());
    }
}

pub proof fn lemma_sorted_distinct(p: Seq<(Seq<char>, Seq<char>)>)
    requires
        keys_sorted(p),
    ensures
        keys_distinct(p),
{
    assert forall|i: int, j: int| 0 <= i < p.len() && 0 <= j < p.len() && i != j implies #[trigger] p[i].0
        != #[trigger] p[j].0 by {
        if i < j {
            assert(key_less(p[i].0, p[j].0));
        } else {
            assert(key_less(p[j].0, p[i].0));
        }
        lemma_key_less_irreflexive(p[i].0);
    }
}

/// Whether `a` comes strictly before `b` (see `key_less`).
pub fn less_key(a: &str, b: &str) -> (r: bool)
    ensures
        r == key_less(a@, b@),
{
    let x = chars_of(a);
    let y = chars_of(b);
    let mut k: usize = 0;
    assert(a@.skip(0) =~= a@);
    assert(b@.skip(0) =~= b@);
    while k < x.len() && k < y.len() && x[k] == y[k]
        invariant
            x@ == a@,
            y@ == b@,
            k <= x@.len(),
            k <= y@.len(),
            key_less(a@, b@) == key_less(a@.skip(k as int), b@.skip(k as int)),
        decreases x@.len() - k,
    {
        proof {
            let u = a@.skip(k as int);
            let v = b@.skip(k as int);
            assert(u.drop_first() =~= a@.skip(k + 1));
            assert(v.drop_first() =~= b@.skip(k + 1));
        }
        k = k + 1;
    }
    let ghost u = a@.skip(k as int);
    let ghost v = b@.skip(k as int);
    if k == x.len() {
        assert(u.len() == 0);
        k < y.len()
    } else if k == y.len() {
        assert(v.len() == 0);
        false
    } else {
        assert(u[0] == x@[k as int] && v[0] == y@[k as int]);
        x[k] < y[k]
    }
}

proof fn lemma_pairs_map_insert_at(p: Seq<(Seq<char>, Seq<char>)>, idx: int, k: Seq<char>, v: Seq<char>)
    requires
        keys_distinct(p),
        0 <= idx <= p.len(),
        forall|i: int| 0 <= i < p.len() ==> p[i].0 != k,
    ensures
        pairs_map(p.insert(idx, (k, v))) == pairs_map(p).insert(k, v),
{
    let q = p.insert(idx, (k, v));
    assert forall|x: Seq<char>| #[trigger] pairs_map(q).contains_key(x) <==> pairs_map(p).insert(k, v).contains_key(
        x,
    ) by {
        if exists|i: int| 0 <= i < p.len() && #[trigger] p[i].0 == x {
            let i = choose|i: int| 0 <= i < p.len() && #[trigger] p[i].0 == x;
            let i1 = if i < idx { i } else { i + 1 };
            assert(q[i1] == p[i]);
        }
        if exists|i: int| 0 <= i < q.len() && #[trigger] q[i].0 == x {
            let i = choose|i: int| 0 <= i < q.len() && #[trigger] q[i].0 == x;
            if i < idx {
                assert(q[i] == p[i]);
            } else if i > idx {
                assert(q[i] == p[i - 1]);
            }
        }
        assert(q[idx].0 == k);
    }
    assert forall|x: Seq<char>| pairs_map(q).contains_key(x) implies #[trigger] pairs_map(q)[x] == pairs_map(
        p,
    ).insert(k, v)[x] by {
        let i = choose|i: int| 0 <= i < q.len() && #[trigger] q[i].0 == x;
        assert(q[i].0 == x);
        if i == idx {
            assert(x == k);
        } else {
            let i0 = if i < idx { i } else { i - 1 };
            assert(q[i] == p[i0]);
            assert(x != k);
            let j = choose|j: int| 0 <= j < p.len() && #[trigger] p[j].0 == x;
            assert(i0 == j) by {
                if i0 != j {
                    assert(p[i0].0 != p[j].0);
                }
            }
        }
    }
    assert(pairs_map(q) =~= pairs_map(p).insert(k, v));
}

/// Inserts a key and its value into pairs kept in increasing order of key:
/// replaces the value of an existing key in place, or puts the new pair
/// where its key belongs in that order.
pub fn insert_pair(config: &mut Vec<(String, String)>, key: String, value: String)
    requires
        keys_sorted(pairs_view(old(config)@)),
    ensures
        keys_sorted(pairs_view(final(config)@)),
        keys_distinct(pairs_view(final(config)@)),
        pairs_map(pairs_view(final(config)@)) == pairs_map(pairs_view(old(config)@)).insert(key@, value@),
{
    let ghost p0 = pairs_view(config@);
    proof {
        lemma_sorted_distinct(p0);
    }
    let n = config.len();
    let mut i: usize = 0;
    while i < n && less_key(config[i].0.as_str(), key.as_str())
        invariant
            n == config@.len(),
            config@ == old(config)@,
            p0 == pairs_view(config@),
            keys_sorted(p0),
            keys_distinct(p0),
            i <= n,
            forall|k: int| 0 <= k < i ==> key_less(#[trigger] p0[k].0, key@),
        decreases n - i,
    {
        i = i + 1;
    }
    assert forall|k: int| 0 <= k < i implies #[trigger] p0[k].0 != key@ by {
        lemma_key_less_irreflexive(key@);
    }
    if i < n && config[i].0 == key {
        let ghost idx = i as int;
        assert(p0[idx].0 == key@);
        config.set(i, (key, value));
        proof {
            let p1 = pairs_view(config@);
            assert(p1 =~= p0.update(idx, (key@, value@)));
            assert forall|a: int, b: int| 0 <= a < b < p1.len() implies key_less(#[trigger] p1[a].0, #[trigger] p1[b].0) by {
                assert(p1[a].0 == p0[a].0 && p1[b].0 == p0[b].0);
            }
            lemma_sorted_distinct(p1);
            lemma_pairs_map_update(p0, idx, key@, value@);
        }
        return;
    }
    let ghost idx = i as int;
    proof {
        if i < n {
            lemma_key_less_total(p0[idx].0, key@);
            assert(key_less(key@, p0[idx].0));
        }
        assert forall|k: int| 0 <= k < p0.len() implies #[trigger] p0[k].0 != key@ by {
            if k >= idx {
                lemma_key_less_irreflexive(key@);
                if k > idx {
                    lemma_key_less_transitive(key@, p0[idx].0, p0[k].0);
                }
            }
        }
    }
    config.insert(i, (key, value));
    proof {
        let p1 = pairs_view(config@);
        assert(p1 =~= p0.insert(idx, (key@, value@)));
        assert forall|a: int, b: int| 0 <= a < b < p1.len() implies key_less(#[trigger] p1[a].0, #[trigger] p1[b].0) by {
            if b < idx {
                assert(p1[a] == p0[a] && p1[b] == p0[b]);
            } else if b == idx {
                assert(p1[a] == p0[a]);
            } else if a < idx {
                assert(p1[a] == p0[a] && p1[b] == p0[b - 1]);
                if b - 1 > idx {
                    lemma_key_less_transitive(key@, p0[idx].0, p0[b - 1].0);
                }
                lemma_key_less_transitive(p0[a].0, key@, p0[b - 1].0);
            } else if a == idx {
                assert(p1[b] == p0[b - 1]);
                if b - 1 > idx {
                    lemma_key_less_transitive(key@, p0[idx].0, p0[b - 1].0);
                }
            } else {
                assert(p1[a] == p0[a - 1] && p1[b] == p0[b - 1]);
            }
        }
        lemma_sorted_distinct(p1);
        lemma_pairs_map_insert_at(p0, idx, key@, value@);
    }
}

proof fn lemma_pairs_map_update(p: Seq<(Seq<char>, Seq<char>)>, idx: int, k: Seq<char>, v: Seq<char>)
    requires
        keys_distinct(p),
        0 <= idx < p.len(),
        p[idx].0 == k,
    ensures
        pairs_map(p.update(idx, (k, v))) == pairs_map(p).insert(k, v),
{
    let q = p.update(idx, (k, v));
    assert forall|x: Seq<char>| #[trigger] pairs_map(q).contains_key(x) <==> pairs_map(p).insert(k, v).contains_key(x) by {
        if exists|i: int| 0 <= i < p.len() && #[trigger] p[i].0 == x {
            let i = choose|i: int| 0 <= i < p.len() && #[trigger] p[i].0 == x;
            assert(q[i].0 == x);
        }
        if exists|i: int| 0 <= i < q.len() && #[trigger] q[i].0 == x {
            let i = choose|i: int| 0 <= i < q.len() && #[trigger] q[i].0 == x;
            assert(p[i].0 == x);
        }
        assert(q[idx].0 == k);
    }
    assert forall|x: Seq<char>| pairs_map(q).contains_key(x) implies #[trigger] pairs_map(q)[x] == pairs_map(p).insert(k, v)[x] by {
        let i = choose|i: int| 0 <= i < q.len() && #[trigger] q[i].0 == x;
        assert(q[i].0 == x);
        if x == k {
            assert(i == idx) by {
                if i != idx {
                    assert(p[i].0 != p[idx].0);
                }
            }
        } else {
            assert(p[i].0 == x);
            let j = choose|j: int| 0 <= j < p.len() && #[trigger] p[j].0 == x;
            assert(i == j) by {
                if i != j {
                    assert(p[i].0 != p[j].0);
                }
            }
        }
    }
    assert(pairs_map(q) =~= pairs_map(p).insert(k, v));
}

proof fn lemma_pairs_map_push(p: Seq<(Seq<char>, Seq<char>)>, k: Seq<char>, v: Seq<char>)
    requires
        keys_distinct(p),
        forall|i: int| 0 <= i < p.len() ==> p[i].0 != k,
    ensures
        keys_distinct(p.push((k, v))),
        pairs_map(p.push((k, v))) == pairs_map(p).insert(k, v),
{
    let q = p.push((k, v));
    assert forall|a: int, b: int| 0 <= a < q.len() && 0 <= b < q.len() && a != b implies #[trigger] q[a].0 != #[trigger] q[b].0 by {
        if a < p.len() && b < p.len() {
            assert(p[a].0 != p[b].0);
        } else if a < p.len() {
            assert(p[a].0 != k);
        } else {
            assert(p[b].0 != k);
        }
    }
    assert forall|x: Seq<char>| #[trigger] pairs_map(q).contains_key(x) <==> pairs_map(p).insert(k, v).contains_key(x) by {
        if exists|i: int| 0 <= i < p.len() && #[trigger] p[i].0 == x {
            let i = choose|i: int| 0 <= i < p.len() && #[trigger] p[i].0 == x;
            assert(q[i].0 == x);
        }
        if exists|i: int| 0 <= i < q.len() && #[trigger] q[i].0 == x {
            let i = choose|i: int| 0 <= i < q.len() && #[trigger] q[i].0 == x;
            if i < p.len() {
                assert(p[i].0 == x);
            }
        }
        assert(q[p.len() as int].0 == k);
    }
    assert forall|x: Seq<char>| pairs_map(q).contains_key(x) implies #[trigger] pairs_map(q)[x] == pairs_map(p).insert(k, v)[x] by {
        let i = choose|i: int| 0 <= i < q.len() && #[trigger] q[i].0 == x;
        assert(q[i].0 == x);
        if x == k {
            assert(i == p.len()) by {
                if i < p.len() {
                    assert(p[i].0 == k);
                }
            }
        } else {
            assert(i < p.len());
            assert(p[i].0 == x);
            let j = choose|j: int| 0 <= j < p.len() && #[trigger] p[j].0 == x;
            assert(i == j) by {
                if i != j {
                    assert(p[i].0 != p[j].0);
                }
            }
        }
    }
    assert(pairs_map(q) =~= pairs_map(p).insert(k, v));
}

/// The index of the pair whose key is `key`, if there is one.
pub fn find_pair(pairs: &Vec<(String, String)>, key: &str) -> (r: Option<usize>)
    requires
        keys_distinct(pairs_view(pairs@)),
    ensures
        match r {
            Some(i) => i < pairs@.len() && pairs@[i as int].0@ == key@
                && pairs_map(pairs_view(pairs@)).contains_key(key@)
                && pairs_map(pairs_view(pairs@))[key@] == pairs@[i as int].1@,
            None => !pairs_map(pairs_view(pairs@)).contains_key(key@),
        },
{
    let ghost p = pairs_view(pairs@);
    let n = pairs.len();
    let mut i: usize = 0;
    while i < n
        invariant
            n == pairs@.len(),
            p == pairs_view(pairs@),
            keys_distinct(p),
            i <= n,
            forall|k: int| 0 <= k < i ==> p[k].0 != key@,
        decreases n - i,
    {
        if eq_str(&chars_of(pairs[i].0.as_str()), key) {
            proof {
                assert(p[i as int].0 == key@);
                let j = choose|j: int| 0 <= j < p.len() && #[trigger] p[j].0 == key@;
                if j != i {
                    assert(p[j].0 != p[i as int].0);
                }
            }
            return Some(i);
        }
        i = i + 1;
    }
    proof {
        if pairs_map(p).contains_key(key@) {
            let j = choose|j: int| 0 <= j < p.len() && #[trigger] p[j].0 == key@;
            assert(p[j].0 != key@);
        }
    }
    None
}

/// Removes the pair whose key is `key`, if there is one.
pub fn remove_pair(pairs: &mut Vec<(String, String)>, key: &str)
    requires
        keys_distinct(pairs_view(old(pairs)@)),
    ensures
        keys_distinct(pairs_view(final(pairs)@)),
        keys_sorted(pairs_view(old(pairs)@)) ==> keys_sorted(pairs_view(final(pairs)@)),
        pairs_map(pairs_view(final(pairs)@)) == pairs_map(pairs_view(old(pairs)@)).remove(key@),
{
    let ghost p0 = pairs_view(pairs@);
    match find_pair(pairs, key) {
        None => {
            assert(pairs_map(p0).remove(key@) =~= pairs_map(p0));
        },
        Some(i) => {
            pairs.remove(i);
            proof {
                let p1 = pairs_view(pairs@);
                assert(p1 =~= p0.remove(i as int));
                lemma_pairs_map_remove(p0, i as int);
                if keys_sorted(p0) {
                    let idx = i as int;
                    assert forall|a: int, b: int| 0 <= a < b < p1.len() implies key_less(
                        #[trigger] p1[a].0,
                        #[trigger] p1[b].0,
                    ) by {
                        let a1 = if a < idx { a } else { a + 1 };
                        let b1 = if b < idx { b } else { b + 1 };
                        assert(p1[a] == p0[a1] && p1[b] == p0[b1]);
                    }
                }
            }
        },
    }
}

proof fn lemma_pairs_map_remove(p: Seq<(Seq<char>, Seq<char>)>, idx: int)
    requires
        keys_distinct(p),
        0 <= idx < p.len(),
    ensures
        keys_distinct(p.remove(idx)),
        pairs_map(p.remove(idx)) == pairs_map(p).remove(p[idx].0),
{
    let q = p.remove(idx);
    let k = p[idx].0;
    assert forall|a: int, b: int| 0 <= a < q.len() && 0 <= b < q.len() && a != b implies #[trigger] q[a].0 != #[trigger] q[b].0 by {
        let a1 = if a < idx { a } else { a + 1 };
        let b1 = if b < idx { b } else { b + 1 };
        assert(q[a] == p[a1] && q[b] == p[b1]);
        assert(p[a1].0 != p[b1].0);
    }
    assert forall|x: Seq<char>| #[trigger] pairs_map(q).contains_key(x) <==> pairs_map(p).remove(k).contains_key(x) by {
        if exists|i: int| 0 <= i < q.len() && #[trigger] q[i].0 == x {
            let i = choose|i: int| 0 <= i < q.len() && #[trigger] q[i].0 == x;
            let i1 = if i < idx { i } else { i + 1 };
            assert(q[i] == p[i1]);
            assert(p[i1].0 == x);
            assert(i1 != idx);
            assert(x != k) by {
                if x == k {
                    assert(p[i1].0 != p[idx].0);
                }
            }
        }
        if exists|i: int| 0 <= i < p.len() && #[trigger] p[i].0 == x {
            let i = choose|i: int| 0 <= i < p.len() && #[trigger] p[i].0 == x;
            if x != k {
                assert(i != idx);
                let i1 = if i < idx { i } else { i - 1 };
                assert(q[i1] == p[i]);
            }
        }
    }
    assert forall|x: Seq<char>| pairs_map(q).contains_key(x) implies #[trigger] pairs_map(q)[x] == pairs_map(p).remove(k)[x] by {
        let i = choose|i: int| 0 <= i < q.len() && #[trigger] q[i].0 == x;
        let i1 = if i < idx { i } else { i + 1 };
        assert(q[i] == p[i1]);
        assert(p[i1].0 == x);
        let j = choose|j: int| 0 <= j < p.len() && #[trigger] p[j].0 == x;
        assert(i1 == j) by {
            if i1 != j {
                assert(p[i1].0 != p[j].0);
            }
        }
    }
    assert(pairs_map(q) =~= pairs_map(p).remove(k));
}

/// Pairs kept in increasing order of key are determined by the map they
/// stand for: two such sequences that stand for the same map are equal.
pub proof fn lemma_sorted_pairs_unique(p: Seq<(Seq<char>, Seq<char>)>, q: Seq<(Seq<char>, Seq<char>)>)
    requires
        keys_sorted(p),
        keys_sorted(q),
        pairs_map(p) == pairs_map(q),
    ensures
        p == q,
    decreases p.len(),
{
    lemma_sorted_distinct(p);
    lemma_sorted_distinct(q);
    if p.len() == 0 {
        if q.len() > 0 {
            assert(pairs_map(q).contains_key(q[0].0));
        }
        assert(p =~= q);
    } else if q.len() == 0 {
        assert(pairs_map(p).contains_key(p[0].0));
    } else {
        let kp = p[0].0;
        let kq = q[0].0;
        assert(pairs_map(p).contains_key(kp));
        assert(pairs_map(q).contains_key(kq));
        let j = choose|j: int| 0 <= j < q.len() && #[trigger] q[j].0 == kp;
        let i = choose|i: int| 0 <= i < p.len() && #[trigger] p[i].0 == kq;
        if kp != kq {
            assert(j > 0);
            assert(i > 0);
            assert(key_less(kq, kp));
            assert(key_less(kp, kq));
            lemma_key_less_asymmetric(kp, kq);
        }
        assert(p[0].1 == pairs_map(p)[kp]) by {
            let c = choose|c: int| 0 <= c < p.len() && #[trigger] p[c].0 == kp;
            if c != 0 {
                assert(p[c].0 != p[0].0);
            }
        }
        assert(q[0].1 == pairs_map(q)[kq]) by {
            let c = choose|c: int| 0 <= c < q.len() && #[trigger] q[c].0 == kq;
            if c != 0 {
                assert(q[c].0 != q[0].0);
            }
        }
        lemma_pairs_map_remove(p, 0);
        lemma_pairs_map_remove(q, 0);
        let p1 = p.remove(0);
        let q1 = q.remove(0);
        assert forall|a: int, b: int| 0 <= a < b < p1.len() implies key_less(#[trigger] p1[a].0, #[trigger] p1[b].0) by {
            assert(p1[a] == p[a + 1] && p1[b] == p[b + 1]);
        }
        assert forall|a: int, b: int| 0 <= a < b < q1.len() implies key_less(#[trigger] q1[a].0, #[trigger] q1[b].0) by {
            assert(q1[a] == q[a + 1] && q1[b] == q[b + 1]);
        }
        lemma_sorted_pairs_unique(p1, q1);
        assert(p =~= seq![p[0]] + p1);
        assert(q =~= seq![q[0]] + q1);
    }
}

} // verus!
