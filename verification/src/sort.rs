//! Stable sorting by keys made of text and a number.

use vstd::prelude::*;

verus! {

/// Three-way comparison of character sequences in lexicographic order
/// (the order of `str`): -1, 0 or 1.
pub open spec fn seq_order(x: Seq<char>, y: Seq<char>) -> int
    decreases x.len(),
{
    if x.len() == 0 && y.len() == 0 {
        0
    } else if x.len() == 0 {
        -1
    } else if y.len() == 0 {
        1
    } else if x[0] < y[0] {
        -1
    } else if x[0] > y[0] {
        1
    } else {
        seq_order(x.drop_first(), y.drop_first())
    }
}

/// A sort key: two texts, then a number, compared in that order.
pub struct SortKey {
    pub first: Vec<char>,
    pub second: Vec<char>,
    pub num: u64,
}

/// The contents of a [`SortKey`].
pub struct KeyView {
    pub first: Seq<char>,
    pub second: Seq<char>,
    pub num: u64,
}

impl View for SortKey {
    type V = KeyView;

    open spec fn view(&self) -> KeyView {
        KeyView { first: self.first@, second: self.second@, num: self.num }
    }
}

/// Three-way comparison of keys.
pub open spec fn key_order(x: KeyView, y: KeyView) -> int {
    let c = seq_order(x.first, y.first);
    if c != 0 {
        c
    } else {
        let d = seq_order(x.second, y.second);
        if d != 0 {
            d
        } else if x.num < y.num {
            -1
        } else if x.num > y.num {
            1
        } else {
            0
        }
    }
}

/// The views of a sequence of keys.
pub open spec fn key_views(v: Seq<SortKey>) -> Seq<KeyView> {
    v.map_values(|k: SortKey| k@)
}

/// Whether `perm` lists each index below `n` exactly once.
pub open spec fn is_perm(perm: Seq<int>, n: int) -> bool {
    &&& perm.len() == n
    &&& forall|k: int| 0 <= k < n ==> 0 <= #[trigger] perm[k] < n
    &&& forall|k1: int, k2: int| 0 <= k1 < n && 0 <= k2 < n && k1 != k2 ==> perm[k1] != perm[k2]
    &&& forall|v: int| 0 <= v < n ==> #[trigger] occurs(perm, n, v)
}

/// Whether `v` is among the first `n` entries of `perm`.
pub open spec fn occurs(perm: Seq<int>, n: int, v: int) -> bool {
    exists|k: int| 0 <= k < n && #[trigger] perm[k] == v
}

/// Whether the position `k1` comes before `k2` in the stable order: a
/// smaller key, or an equal key and an earlier original position.
pub open spec fn before(keys: Seq<KeyView>, perm: Seq<int>, k1: int, k2: int) -> bool {
    key_order(keys[perm[k1]], keys[perm[k2]]) < 0 || (key_order(keys[perm[k1]], keys[perm[k2]]) == 0
        && perm[k1] < perm[k2])
}

/// Whether `out` is `items` rearranged by `perm` into the stable order of
/// `keys`.
pub open spec fn stably_sorted_by<T>(items: Seq<T>, keys: Seq<KeyView>, out: Seq<T>, perm: Seq<int>) -> bool {
    let n = items.len() as int;
    &&& is_perm(perm, n)
    &&& out.len() == n
    &&& forall|k: int| 0 <= k < n ==> #[trigger] out[k] == items[perm[k]]
    &&& forall|k1: int, k2: int| 0 <= k1 < k2 < n ==> before(keys, perm, k1, k2)
}

/// Whether `out` is `items` sorted stably by `keys`.
pub open spec fn is_stable_sort<T>(items: Seq<T>, keys: Seq<KeyView>, out: Seq<T>) -> bool {
    exists|perm: Seq<int>| stably_sorted_by(items, keys, out, perm)
}

pub proof fn lemma_seq_order_antisym(x: Seq<char>, y: Seq<char>)
    ensures
        seq_order(x, y) == -seq_order(y, x),
        -1 <= seq_order(x, y) <= 1,
        seq_order(x, y) == 0 ==> x == y,
    decreases x.len(),
{
    if x.len() > 0 && y.len() > 0 && x[0] == y[0] {
        lemma_seq_order_antisym(x.drop_first(), y.drop_first());
        if seq_order(x, y) == 0 {
            assert(x =~= seq![x[0]] + x.drop_first());
            assert(y =~= seq![y[0]] + y.drop_first());
        }
    }
}

pub proof fn lemma_seq_order_refl(x: Seq<char>)
    ensures
        seq_order(x, x) == 0,
    decreases x.len(),
{
    if x.len() > 0 {
        lemma_seq_order_refl(x.drop_first());
    }
}

pub proof fn lemma_seq_order_trans(x: Seq<char>, y: Seq<char>, z: Seq<char>)
    requires
        seq_order(x, y) <= 0,
        seq_order(y, z) <= 0,
    ensures
        seq_order(x, z) <= 0,
        seq_order(x, y) < 0 || seq_order(y, z) < 0 ==> seq_order(x, z) < 0,
    decreases x.len(),
{
    lemma_seq_order_antisym(x, y);
    lemma_seq_order_antisym(y, z);
    lemma_seq_order_antisym(x, z);
    if x.len() > 0 && y.len() > 0 && z.len() > 0 && x[0] == y[0] && y[0] == z[0] {
        lemma_seq_order_trans(x.drop_first(), y.drop_first(), z.drop_first());
    }
}

pub proof fn lemma_key_order_props(x: KeyView, y: KeyView)
    ensures
        key_order(x, y) == -key_order(y, x),
        -1 <= key_order(x, y) <= 1,
        key_order(x, x) == 0,
{
    lemma_seq_order_antisym(x.first, y.first);
    lemma_seq_order_antisym(x.second, y.second);
    lemma_seq_order_refl(x.first);
    lemma_seq_order_refl(x.second);
    if seq_order(x.first, y.first) == 0 {
        assert(x.first == y.first);
    }
    if seq_order(x.second, y.second) == 0 {
        assert(x.second == y.second);
    }
}

pub proof fn lemma_key_order_trans(x: KeyView, y: KeyView, z: KeyView)
    requires
        key_order(x, y) <= 0,
        key_order(y, z) <= 0,
    ensures
        key_order(x, z) <= 0,
{
    lemma_key_order_props(x, y);
    lemma_key_order_props(y, z);
    lemma_key_order_props(x, z);
    lemma_seq_order_antisym(x.first, y.first);
    lemma_seq_order_antisym(y.first, z.first);
    lemma_seq_order_antisym(x.second, y.second);
    lemma_seq_order_antisym(y.second, z.second);
    lemma_seq_order_trans(x.first, y.first, z.first);
    if seq_order(x.first, y.first) == 0 && seq_order(y.first, z.first) == 0 {
        lemma_seq_order_trans(x.second, y.second, z.second);
    }
}

/// Executable [`seq_order`].
pub fn order_chars(x: &Vec<char>, y: &Vec<char>) -> (r: i8)
    ensures
        r as int == seq_order(x@, y@),
{
    let mut i: usize = 0;
    assert(x@.subrange(0, x@.len() as int) =~= x@);
    assert(y@.subrange(0, y@.len() as int) =~= y@);
    while i < x.len() && i < y.len() && x[i] == y[i]
        invariant
            i <= x.len(),
            i <= y.len(),
            seq_order(x@, y@) == seq_order(x@.subrange(i as int, x@.len() as int), y@.subrange(
                i as int,
                y@.len() as int,
            )),
        decreases x.len() - i,
    {
        let ghost xs = x@.subrange(i as int, x@.len() as int);
        let ghost ys = y@.subrange(i as int, y@.len() as int);
        assert(xs.drop_first() =~= x@.subrange(i + 1, x@.len() as int));
        assert(ys.drop_first() =~= y@.subrange(i + 1, y@.len() as int));
        i = i + 1;
    }
    let ghost xs = x@.subrange(i as int, x@.len() as int);
    let ghost ys = y@.subrange(i as int, y@.len() as int);
    if i == x.len() && i == y.len() {
        0
    } else if i == x.len() {
        -1
    } else if i == y.len() {
        1
    } else if x[i] < y[i] {
        assert(xs[0] == x@[i as int] && ys[0] == y@[i as int]);
        -1
    } else {
        assert(xs[0] == x@[i as int] && ys[0] == y@[i as int]);
        1
    }
}

/// Executable [`key_order`].
pub fn order_keys(x: &SortKey, y: &SortKey) -> (r: i8)
    ensures
        r as int == key_order(x@, y@),
{
    let c = order_chars(&x.first, &y.first);
    if c != 0 {
        return c;
    }
    let d = order_chars(&x.second, &y.second);
    if d != 0 {
        return d;
    }
    if x.num < y.num {
        -1
    } else if x.num > y.num {
        1
    } else {
        0
    }
}

/// Sort `items` stably by `keys` (moving each key with its item): smaller
/// keys first, equal keys in their original order.
pub fn sort_by_keys<T>(items: &mut Vec<T>, keys: &mut Vec<SortKey>)
    requires
        old(items)@.len() == old(keys)@.len(),
    ensures
        is_stable_sort(old(items)@, key_views(old(keys)@), final(items)@),
        final(keys)@.len() == final(items)@.len(),
{
    let ghost items0 = items@;
    let ghost keys0 = key_views(keys@);
    let n = items.len();
    let ghost mut perm: Seq<int> = Seq::new(n as nat, |k: int| k);
    assert forall|v: int| 0 <= v < n implies #[trigger] occurs(perm, n as int, v) by {
        assert(perm[v] == v);
    }
    if n == 0 {
        assert(stably_sorted_by(items0, keys0, items@, perm));
        return;
    }
    let mut i: usize = 1;
    while i < n
        invariant
            1 <= i <= n,
            n == items0.len(),
            keys0.len() == n,
            items@.len() == n,
            keys@.len() == n,
            is_perm(perm, n as int),
            forall|k: int| 0 <= k < n ==> #[trigger] items@[k] == items0[perm[k]],
            forall|k: int| 0 <= k < n ==> #[trigger] keys@[k]@ == keys0[perm[k]],
            forall|k: int| i <= k < n ==> #[trigger] perm[k] == k,
            forall|k: int| 0 <= k < i ==> #[trigger] perm[k] < i,
            forall|k1: int, k2: int| 0 <= k1 < k2 < i ==> before(keys0, perm, k1, k2),
        decreases n - i,
    {
        let ghost p0 = perm;
        let x = items.remove(i);
        let kx = keys.remove(i);
        assert(kx@ == keys0[i as int]);
        let mut j = i;
        while j > 0 && order_keys(&keys[j - 1], &kx) > 0
            invariant
                0 <= j <= i,
                i < n,
                keys@.len() == n - 1,
                forall|k: int| 0 <= k < n - 1 ==> #[trigger] keys@[k]@ == keys0[if k < i {
                    p0[k]
                } else {
                    p0[k + 1]
                }],
                forall|k: int| j <= k < i ==> key_order(#[trigger] keys0[p0[k]], kx@) > 0,
            decreases j,
        {
            assert(keys@[j - 1]@ == keys0[p0[j - 1]]);
            j = j - 1;
        }
        items.insert(j, x);
        keys.insert(j, kx);
        proof {
            let np = p0.subrange(0, j as int).push(i as int) + p0.subrange(j as int, i as int)
                + p0.subrange(i + 1, n as int);
            assert(np.len() == n);
            assert forall|k: int| 0 <= k < n implies #[trigger] np[k] == if k < j {
                p0[k]
            } else if k == j {
                i as int
            } else if k <= i {
                p0[k - 1]
            } else {
                p0[k]
            } by {}
            assert forall|k: int| 0 <= k < n implies #[trigger] items@[k] == items0[np[k]] by {}
            assert forall|k: int| 0 <= k < n implies #[trigger] keys@[k]@ == keys0[np[k]] by {}
            assert forall|k1: int, k2: int|
                0 <= k1 < n && 0 <= k2 < n && k1 != k2 implies np[k1] != np[k2] by {}
            assert forall|k: int| 0 <= k < n implies 0 <= #[trigger] np[k] < n by {}
            assert forall|v: int| 0 <= v < n implies #[trigger] occurs(np, n as int, v) by {
                if v == i {
                    assert(np[j as int] == v);
                } else {
                    assert(occurs(p0, n as int, v));
                    let q = choose|q: int| 0 <= q < n && #[trigger] p0[q] == v;
                    assert(q != i);
                    if q < j {
                        assert(np[q] == v);
                    } else if q < i {
                        assert(np[q + 1] == v);
                    } else {
                        assert(np[q] == v);
                    }
                }
            }
            // keys before j are no larger than the moved key
            if j > 0 {
                let kj = keys0[p0[j - 1]];
                lemma_key_order_props(kj, kx@);
                assert(key_order(kj, kx@) <= 0);
            }
            assert forall|k1: int, k2: int| 0 <= k1 < k2 < i + 1 implies before(
                keys0,
                np,
                k1,
                k2,
            ) by {
                let a = keys0[np[k1]];
                let b = keys0[np[k2]];
                lemma_key_order_props(a, b);
                if k2 == j {
                    // k1 < j: a <= key(j-1) <= kx, and np[k1] < i
                    let kj = keys0[p0[j - 1]];
                    if k1 < j - 1 {
                        assert(before(keys0, p0, k1, j - 1));
                        lemma_key_order_props(a, kj);
                    }
                    lemma_key_order_props(kj, kx@);
                    if k1 < j - 1 {
                        lemma_key_order_trans(a, kj, kx@);
                    }
                    assert(p0[k1] < i);
                } else if k1 == j {
                    // the moved key is smaller than every key it passed
                    assert(key_order(b, kx@) > 0);
                    lemma_key_order_props(b, kx@);
                } else {
                    let o1 = if k1 < j {
                        k1
                    } else {
                        k1 - 1
                    };
                    let o2 = if k2 < j {
                        k2
                    } else {
                        k2 - 1
                    };
                    assert(np[k1] == p0[o1] && np[k2] == p0[o2]);
                    assert(before(keys0, p0, o1, o2));
                }
            }
            perm = np;
        }
        i = i + 1;
    }
    assert(stably_sorted_by(items0, keys0, items@, perm));
}


/// The strict order of positions that a stable sort follows: a smaller
/// key, or an equal key and an earlier position.
pub open spec fn goes_before(keys: Seq<KeyView>, a: int, b: int) -> bool {
    key_order(keys[a], keys[b]) < 0 || (key_order(keys[a], keys[b]) == 0 && a < b)
}

proof fn lemma_goes_before_asym(keys: Seq<KeyView>, a: int, b: int)
    requires
        goes_before(keys, a, b),
    ensures
        !goes_before(keys, b, a),
{
    lemma_key_order_props(keys[a], keys[b]);
}

proof fn lemma_total(keys: Seq<KeyView>, a: int, b: int)
    requires
        a != b,
    ensures
        goes_before(keys, a, b) || goes_before(keys, b, a),
{
    lemma_key_order_props(keys[a], keys[b]);
}

proof fn lemma_same_prefix_step<T>(
    items: Seq<T>,
    keys: Seq<KeyView>,
    o1: Seq<T>,
    p1: Seq<int>,
    o2: Seq<T>,
    p2: Seq<int>,
    k: int,
)
    requires
        stably_sorted_by(items, keys, o1, p1),
        stably_sorted_by(items, keys, o2, p2),
        0 <= k < items.len(),
        forall|j: int| 0 <= j < k ==> p1[j] == p2[j],
    ensures
        p1[k] == p2[k],
{
    let n = items.len() as int;
    let a = p1[k];
    let b = p2[k];
    if a != b {
        lemma_total(keys, a, b);
        assert(occurs(p2, n, a));
        assert(occurs(p1, n, b));
        if goes_before(keys, a, b) {
            let q = choose|q: int| 0 <= q < n && #[trigger] p2[q] == a;
            if q < k {
                assert(p1[q] == a);
            } else {
                assert(q != k);
                assert(before(keys, p2, k, q));
                lemma_goes_before_asym(keys, a, b);
            }
        } else {
            let q = choose|q: int| 0 <= q < n && #[trigger] p1[q] == b;
            if q < k {
                assert(p2[q] == b);
                assert(p1[q] == p2[q]);
            } else {
                assert(q != k);
                assert(before(keys, p1, k, q));
                lemma_goes_before_asym(keys, b, a);
            }
        }
    }
}

proof fn lemma_same_prefix<T>(
    items: Seq<T>,
    keys: Seq<KeyView>,
    o1: Seq<T>,
    p1: Seq<int>,
    o2: Seq<T>,
    p2: Seq<int>,
    k: int,
)
    requires
        stably_sorted_by(items, keys, o1, p1),
        stably_sorted_by(items, keys, o2, p2),
        0 <= k <= items.len(),
    ensures
        forall|j: int| 0 <= j < k ==> p1[j] == p2[j],
    decreases k,
{
    if k > 0 {
        lemma_same_prefix(items, keys, o1, p1, o2, p2, k - 1);
        lemma_same_prefix_step(items, keys, o1, p1, o2, p2, k - 1);
    }
}

/// A stable sort has a single outcome.
pub proof fn lemma_stable_sort_unique<T>(items: Seq<T>, keys: Seq<KeyView>, o1: Seq<T>, o2: Seq<T>)
    requires
        keys.len() == items.len(),
        is_stable_sort(items, keys, o1),
        is_stable_sort(items, keys, o2),
    ensures
        o1 == o2,
{
    let p1 = choose|p: Seq<int>| stably_sorted_by(items, keys, o1, p);
    let p2 = choose|p: Seq<int>| stably_sorted_by(items, keys, o2, p);
    lemma_same_prefix(items, keys, o1, p1, o2, p2, items.len() as int);
    assert(o1 =~= o2);
}

/// The stable sort of `items` by `keys`.
pub closed spec fn stable_sorted<T>(items: Seq<T>, keys: Seq<KeyView>) -> Seq<T> {
    choose|o: Seq<T>| is_stable_sort(items, keys, o)
}

/// A stable sort is [`stable_sorted`].
pub proof fn lemma_is_stable_sorted<T>(items: Seq<T>, keys: Seq<KeyView>, o: Seq<T>)
    requires
        keys.len() == items.len(),
        is_stable_sort(items, keys, o),
    ensures
        o == stable_sorted(items, keys),
{
    lemma_stable_sort_unique(items, keys, o, stable_sorted(items, keys));
}

/// Sorting values sorts their images under any map in the same way.
pub proof fn lemma_stable_sort_map<T, U>(items: Seq<T>, keys: Seq<KeyView>, o: Seq<T>, f: spec_fn(T) -> U)
    requires
        is_stable_sort(items, keys, o),
    ensures
        is_stable_sort(items.map_values(f), keys, o.map_values(f)),
{
    let p = choose|p: Seq<int>| stably_sorted_by(items, keys, o, p);
    assert(stably_sorted_by(items.map_values(f), keys, o.map_values(f), p));
}

} // verus!
