//! Text order and a stable sort by text keys.
//!
//! Text is ordered as Rust orders strings: character by character by code
//! point (which is also the order of their UTF-8 bytes), a proper prefix first.

use vstd::prelude::*;

verus! {

// ---------------------------------------------------------------------------
// The order on text
// ---------------------------------------------------------------------------

/// `a` comes strictly before `b`.
pub open spec fn text_lt(a: Seq<char>, b: Seq<char>) -> bool
    decreases a.len(),
{
    if a.len() == 0 {
        b.len() > 0
    } else if b.len() == 0 {
        false
    } else if a[0] != b[0] {
        a[0] < b[0]
    } else {
        text_lt(a.drop_first(), b.drop_first())
    }
}

/// `a` comes before `b` or is `b`.
pub open spec fn text_le(a: Seq<char>, b: Seq<char>) -> bool {
    !text_lt(b, a)
}

/// No text comes before itself.
pub proof fn lemma_text_lt_irreflexive(a: Seq<char>)
    ensures
        !text_lt(a, a),
    decreases a.len(),
{
    if a.len() > 0 {
        lemma_text_lt_irreflexive(a.drop_first());
    }
}

/// Two texts that differ are ordered one way or the other, and never both.
pub proof fn lemma_text_lt_total(a: Seq<char>, b: Seq<char>)
    ensures
        a != b ==> (text_lt(a, b) || text_lt(b, a)),
        !(text_lt(a, b) && text_lt(b, a)),
    decreases a.len(),
{
    if a.len() > 0 && b.len() > 0 && a[0] == b[0] {
        lemma_text_lt_total(a.drop_first(), b.drop_first());
        if a != b {
            assert(a =~= seq![a[0]] + a.drop_first());
            assert(b =~= seq![b[0]] + b.drop_first());
        }
    } else if a.len() == 0 && b.len() == 0 {
        assert(a =~= b);
    }
}

/// Coming strictly before is transitive.
pub proof fn lemma_text_lt_transitive(a: Seq<char>, b: Seq<char>, c: Seq<char>)
    requires
        text_lt(a, b),
        text_lt(b, c),
    ensures
        text_lt(a, c),
    decreases a.len(),
{
    if a.len() > 0 && b.len() > 0 && c.len() > 0 && a[0] == b[0] && b[0] == c[0] {
        lemma_text_lt_transitive(a.drop_first(), b.drop_first(), c.drop_first());
    }
}

/// `text_le` is a total preorder: total and transitive (and, with
/// [`lemma_text_lt_total`], antisymmetric).
pub proof fn lemma_text_le_facts(a: Seq<char>, b: Seq<char>, c: Seq<char>)
    ensures
        text_le(a, b) || text_le(b, a),
        text_lt(a, b) ==> text_le(a, b),
        text_le(a, b) && text_le(b, c) ==> text_le(a, c),
        text_le(a, b) && text_le(b, a) ==> a == b,
        text_le(a, a),
{
    lemma_text_lt_total(a, b);
    lemma_text_lt_total(a, c);
    lemma_text_lt_total(b, c);
    lemma_text_lt_irreflexive(a);
    if text_le(a, b) && text_le(b, c) && text_lt(c, a) {
        if a == b {
        } else {
            lemma_text_lt_transitive(a, b, c);
            if text_lt(a, c) {
            } else {
                lemma_text_lt_total(a, c);
            }
            if b == c {
                assert(text_lt(b, a));
            } else {
                if text_lt(c, b) {
                } else {
                    lemma_text_lt_transitive(c, a, b);
                }
            }
        }
    }
}

/// A leading character decides the order of texts that start differently, and
/// the rest decides it otherwise: so texts tagged with one leading character
/// are ordered by the tag first, then by the text.
pub proof fn lemma_tagged_text_order(c: char, a: Seq<char>, d: char, b: Seq<char>)
    ensures
        text_lt(seq![c] + a, seq![d] + b) == (c < d || (c == d && text_lt(a, b))),
{
    assert((seq![c] + a).drop_first() =~= a);
    assert((seq![d] + b).drop_first() =~= b);
}

/// Whether `a` comes strictly before `b`.
pub fn text_less(a: &str, b: &str) -> (r: bool)
    ensures
        r == text_lt(a@, b@),
{
    let n = a.unicode_len();
    let m = b.unicode_len();
    let mut i: usize = 0;
    assert(a@.skip(0) =~= a@);
    assert(b@.skip(0) =~= b@);
    while i < n && i < m && a.get_char(i) == b.get_char(i)
        invariant
            n == a@.len(),
            m == b@.len(),
            i <= n,
            i <= m,
            text_lt(a@, b@) == text_lt(a@.skip(i as int), b@.skip(i as int)),
        decreases n - i,
    {
        assert(a@.skip(i as int).drop_first() =~= a@.skip(i + 1));
        assert(b@.skip(i as int).drop_first() =~= b@.skip(i + 1));
        i = i + 1;
    }
    if i == n {
        i < m
    } else if i == m {
        false
    } else {
        let x = a.get_char(i);
        let y = b.get_char(i);
        x < y
    }
}

// ---------------------------------------------------------------------------
// Stable sorting
// ---------------------------------------------------------------------------

/// The texts of a sequence of strings.
pub open spec fn key_texts(ks: Seq<String>) -> Seq<Seq<char>> {
    ks.map_values(|s: String| s@)
}

/// Some index below `bound` holds `k` in `perm`.
pub open spec fn reaches(perm: Seq<int>, bound: int, k: int) -> bool {
    exists|t: int| 0 <= t < bound && #[trigger] perm[t] == k
}

/// `perm` lists each index below `n` exactly once.
pub open spec fn is_permutation(perm: Seq<int>, n: int) -> bool {
    &&& perm.len() == n
    &&& forall|t: int| 0 <= t < n ==> 0 <= #[trigger] perm[t] < n
    &&& forall|s: int, t: int| 0 <= s < t < n ==> perm[s] != perm[t]
    &&& forall|k: int| 0 <= k < n ==> #[trigger] reaches(perm, n, k)
}

/// `new` is `items` rearranged by `perm` (the item at `i` of `new` is the item at
/// `perm[i]` of `items`) so that the keys of the items (`keys[k]` for the item at
/// `k` of `items`) come in text order, and items with equal keys keep their order.
pub open spec fn stably_sorted<T>(
    items: Seq<T>,
    new: Seq<T>,
    keys: Seq<Seq<char>>,
    perm: Seq<int>,
) -> bool {
    &&& keys.len() == items.len()
    &&& new.len() == items.len()
    &&& is_permutation(perm, items.len() as int)
    &&& forall|t: int| 0 <= t < new.len() ==> #[trigger] new[t] == items[perm[t]]
    &&& forall|s: int, t: int|
        0 <= s < t < new.len() ==> text_le(#[trigger] keys[perm[s]], #[trigger] keys[perm[t]])
    &&& forall|s: int, t: int|
        0 <= s < t < new.len() && keys[perm[s]] == keys[perm[t]] ==> perm[s] < perm[t]
}

/// `new` is the stable sort of `items` by the keys `keys`.
pub open spec fn is_stable_sort<T>(items: Seq<T>, new: Seq<T>, keys: Seq<Seq<char>>) -> bool {
    exists|perm: Seq<int>| stably_sorted(items, new, keys, perm)
}

/// The state of the insertion sort after the first `i` items: they are sorted
/// and stable among themselves, and the rest are untouched.
pub open spec fn sorted_upto<T>(
    v0: Seq<T>,
    k0: Seq<Seq<char>>,
    v: Seq<T>,
    kv: Seq<Seq<char>>,
    perm: Seq<int>,
    i: int,
) -> bool {
    let n = v0.len() as int;
    &&& k0.len() == n && v.len() == n && kv.len() == n
    &&& 0 <= i <= n
    &&& is_permutation(perm, n)
    &&& forall|t: int| i <= t < n ==> #[trigger] perm[t] == t
    &&& forall|t: int| 0 <= t < i ==> #[trigger] perm[t] < i
    &&& forall|k: int| 0 <= k < i ==> #[trigger] reaches(perm, i, k)
    &&& forall|t: int| 0 <= t < n ==> #[trigger] v[t] == v0[perm[t]]
    &&& forall|t: int| 0 <= t < n ==> #[trigger] kv[t] == k0[perm[t]]
    &&& forall|s: int, t: int| 0 <= s < t < i ==> text_le(#[trigger] kv[s], #[trigger] kv[t])
    &&& forall|s: int, t: int| 0 <= s < t < i && kv[s] == kv[t] ==> perm[s] < perm[t]
}

/// Moving the item at `i` back to `j`, past the items with greater keys, extends
/// the sorted part by one.
proof fn lemma_insert_step<T>(
    v0: Seq<T>,
    k0: Seq<Seq<char>>,
    v: Seq<T>,
    kv: Seq<Seq<char>>,
    perm: Seq<int>,
    i: int,
    j: int,
)
    requires
        sorted_upto(v0, k0, v, kv, perm, i),
        0 <= j <= i < v0.len(),
        forall|t: int| j <= t < i ==> text_lt(kv[i], #[trigger] kv[t]),
        j > 0 ==> text_le(kv[j - 1], kv[i]),
    ensures
        sorted_upto(
            v0,
            k0,
            v.remove(i).insert(j, v[i]),
            kv.remove(i).insert(j, kv[i]),
            perm.remove(i).insert(j, i),
            i + 1,
        ),
{
    let n = v0.len() as int;
    let v2 = v.remove(i).insert(j, v[i]);
    let k2 = kv.remove(i).insert(j, kv[i]);
    let p2 = perm.remove(i).insert(j, i);
    let ki = kv[i];
    assert(perm[i] == i);
    assert forall|t: int| 0 <= t < n implies #[trigger] p2[t] == (if t < j {
        perm[t]
    } else if t == j {
        i
    } else if t <= i {
        perm[t - 1]
    } else {
        perm[t]
    }) && k2[t] == (if t < j {
        kv[t]
    } else if t == j {
        ki
    } else if t <= i {
        kv[t - 1]
    } else {
        kv[t]
    }) && v2[t] == (if t < j {
        v[t]
    } else if t == j {
        v[i]
    } else if t <= i {
        v[t - 1]
    } else {
        v[t]
    }) by {}
    assert forall|t: int| 0 <= t < n implies 0 <= #[trigger] p2[t] < n by {
        assert(p2[t] == p2[t]);
    }
    assert forall|s: int, t: int| 0 <= s < t < n implies p2[s] != p2[t] by {
        assert(p2[s] == p2[s] && p2[t] == p2[t]);
    }
    assert forall|t: int| i + 1 <= t < n implies #[trigger] p2[t] == t by {}
    assert forall|k: int| 0 <= k < i + 1 implies #[trigger] reaches(p2, i + 1, k) by {
        if k == i {
            assert(p2[j] == k);
        } else {
            assert(reaches(perm, i, k));
            let t = choose|t: int| 0 <= t < i && #[trigger] perm[t] == k;
            if t < j {
                assert(p2[t] == k);
            } else {
                assert(p2[t + 1] == k);
            }
        }
    }
    assert forall|k: int| 0 <= k < n implies #[trigger] reaches(p2, n, k) by {
        if k < i + 1 {
            assert(reaches(p2, i + 1, k));
            let t = choose|t: int| 0 <= t < i + 1 && #[trigger] p2[t] == k;
            assert(p2[t] == k);
        } else {
            assert(p2[k] == k);
        }
    }
    assert forall|t: int| 0 <= t < i + 1 implies #[trigger] p2[t] < i + 1 by {}
    assert forall|t: int| 0 <= t < n implies #[trigger] v2[t] == v0[p2[t]] by {}
    assert forall|t: int| 0 <= t < n implies #[trigger] k2[t] == k0[p2[t]] by {}
    assert forall|s: int, t: int| 0 <= s < t < i + 1 implies text_le(
        #[trigger] k2[s],
        #[trigger] k2[t],
    ) by {
        assert(p2[s] == p2[s] && p2[t] == p2[t]);
        if t == j {
            if s < j - 1 {
                lemma_text_le_facts(kv[s], kv[j - 1], ki);
            }
        } else if s == j {
            lemma_text_le_facts(ki, kv[t - 1], ki);
        }
    }
    assert forall|s: int, t: int| 0 <= s < t < i + 1 && k2[s] == k2[t] implies p2[s] < p2[t] by {
        assert(p2[s] == p2[s] && p2[t] == p2[t]);
        if s == j {
            lemma_text_lt_irreflexive(ki);
        }
    }
}

/// Sorts `v` stably by the keys `keys` (the key of `v[k]` is `keys[k]`), and
/// gives the rearrangement made.
pub(crate) fn sort_by_text_keys<T>(v: &mut Vec<T>, keys: Vec<String>) -> (perm: Ghost<Seq<int>>)
    requires
        keys@.len() == old(v)@.len(),
    ensures
        stably_sorted(old(v)@, final(v)@, key_texts(keys@), perm@),
{
    let ghost v0 = v@;
    let ghost k0 = key_texts(keys@);
    let mut ks = keys;
    let n = v.len();
    let ghost mut perm: Seq<int> = Seq::new(n as nat, |t: int| t);
    let mut i: usize = 0;
    assert(key_texts(ks@) =~= k0);
    assert forall|k: int| 0 <= k < n implies #[trigger] reaches(perm, n as int, k) by {
        assert(perm[k] == k);
    }
    while i < n
        invariant
            n == v0.len(),
            sorted_upto(v0, k0, v@, key_texts(ks@), perm, i as int),
        decreases n - i,
    {
        let mut j = i;
        while j > 0 && text_less(ks[i].as_str(), ks[j - 1].as_str())
            invariant
                j <= i < n,
                n == ks@.len(),
                forall|t: int| j <= t < i ==> text_lt(ks@[i as int]@, #[trigger] ks@[t]@),
            decreases j,
        {
            j = j - 1;
        }
        proof {
            let kv = key_texts(ks@);
            assert forall|t: int| j <= t < i implies text_lt(kv[i as int], #[trigger] kv[t]) by {
                assert(kv[t] == ks@[t]@);
            }
            lemma_insert_step(v0, k0, v@, kv, perm, i as int, j as int);
        }
        let ghost kv0 = key_texts(ks@);
        let ghost vv0 = v@;
        let x = v.remove(i);
        v.insert(j, x);
        let k = ks.remove(i);
        ks.insert(j, k);
        proof {
            assert(key_texts(ks@) =~= kv0.remove(i as int).insert(j as int, kv0[i as int]));
            assert(v@ =~= vv0.remove(i as int).insert(j as int, vv0[i as int]));
            perm = perm.remove(i as int).insert(j as int, i as int);
        }
        i = i + 1;
    }
    proof {
        let kv = key_texts(ks@);
        assert forall|s: int, t: int| 0 <= s < t < n implies text_le(
            #[trigger] k0[perm[s]],
            #[trigger] k0[perm[t]],
        ) by {
            assert(kv[s] == k0[perm[s]] && kv[t] == k0[perm[t]]);
        }
        assert forall|s: int, t: int| 0 <= s < t < n && k0[perm[s]] == k0[perm[t]] implies perm[s]
            < perm[t] by {
            assert(kv[s] == k0[perm[s]] && kv[t] == k0[perm[t]]);
        }
    }
    Ghost(perm)
}

// ---------------------------------------------------------------------------
// Laws
// ---------------------------------------------------------------------------

/// Index `x` of the unsorted list comes before index `y` in a stable sort by
/// `keys`: its key comes first, or the keys are equal and it came first.
pub open spec fn ranks_before(keys: Seq<Seq<char>>, x: int, y: int) -> bool {
    text_lt(keys[x], keys[y]) || (keys[x] == keys[y] && x < y)
}

/// Of two different indices, exactly one ranks before the other.
proof fn lemma_ranks_total(keys: Seq<Seq<char>>, x: int, y: int)
    requires
        x != y,
    ensures
        ranks_before(keys, x, y) || ranks_before(keys, y, x),
        !(ranks_before(keys, x, y) && ranks_before(keys, y, x)),
{
    lemma_text_lt_total(keys[x], keys[y]);
    lemma_text_lt_irreflexive(keys[x]);
}

/// A stable sort lists the indices in rank order.
proof fn lemma_sorted_ranks<T>(items: Seq<T>, new: Seq<T>, keys: Seq<Seq<char>>, perm: Seq<int>)
    requires
        stably_sorted(items, new, keys, perm),
    ensures
        forall|s: int, t: int|
            0 <= s < t < new.len() ==> ranks_before(keys, #[trigger] perm[s], #[trigger] perm[t]),
{
    assert forall|s: int, t: int| 0 <= s < t < new.len() implies ranks_before(
        keys,
        #[trigger] perm[s],
        #[trigger] perm[t],
    ) by {
        lemma_text_lt_total(keys[perm[s]], keys[perm[t]]);
    }
}

/// Two stable sorts of one list agree on the first `k` positions.
proof fn lemma_same_prefix<T>(
    items: Seq<T>,
    a: Seq<T>,
    b: Seq<T>,
    keys: Seq<Seq<char>>,
    p: Seq<int>,
    q: Seq<int>,
    k: int,
)
    requires
        stably_sorted(items, a, keys, p),
        stably_sorted(items, b, keys, q),
        0 <= k <= items.len(),
    ensures
        forall|j: int| 0 <= j < k ==> #[trigger] p[j] == q[j],
    decreases k,
{
    if k > 0 {
        lemma_same_prefix(items, a, b, keys, p, q, k - 1);
        lemma_sorted_ranks(items, a, keys, p);
        lemma_sorted_ranks(items, b, keys, q);
        let n = items.len() as int;
        let m = k - 1;
        if p[m] != q[m] {
            assert(reaches(q, n, p[m]));
            let t = choose|t: int| 0 <= t < n && #[trigger] q[t] == p[m];
            if t < m {
                assert(p[t] == q[t]);
            }
            assert(t > m);
            assert(ranks_before(keys, q[m], q[t]));
            assert(reaches(p, n, q[m]));
            let u = choose|u: int| 0 <= u < n && #[trigger] p[u] == q[m];
            if u < m {
                assert(p[u] == q[u]);
            }
            assert(u > m);
            assert(ranks_before(keys, p[m], p[u]));
            lemma_ranks_total(keys, p[m], q[m]);
        }
    }
}

/// Sorting decides the order: two stable sorts of one list by the same keys
/// are the same list.
pub proof fn law_stable_sort_unique<T>(items: Seq<T>, a: Seq<T>, b: Seq<T>, keys: Seq<Seq<char>>)
    requires
        is_stable_sort(items, a, keys),
        is_stable_sort(items, b, keys),
    ensures
        a == b,
{
    let p = choose|perm: Seq<int>| stably_sorted(items, a, keys, perm);
    let q = choose|perm: Seq<int>| stably_sorted(items, b, keys, perm);
    lemma_same_prefix(items, a, b, keys, p, q, items.len() as int);
    assert forall|j: int| 0 <= j < a.len() implies a[j] == b[j] by {
        assert(p[j] == q[j]);
    }
    assert(a =~= b);
}

/// A stable sort leaves the keys of the items it gives (`new_keys[i]` for the
/// item at `i`) in order.
pub proof fn law_stable_sort_ordered<T>(
    items: Seq<T>,
    new: Seq<T>,
    keys: Seq<Seq<char>>,
    new_keys: Seq<Seq<char>>,
)
    requires
        is_stable_sort(items, new, keys),
        new_keys.len() == new.len(),
        forall|i: int, k: int|
            0 <= i < new.len() && 0 <= k < items.len() && new[i] == items[k] ==> new_keys[i] == keys[k],
    ensures
        forall|s: int, t: int|
            0 <= s < t < new.len() ==> text_le(#[trigger] new_keys[s], #[trigger] new_keys[t]),
{
    let p = choose|perm: Seq<int>| stably_sorted(items, new, keys, perm);
    assert forall|s: int, t: int| 0 <= s < t < new.len() implies text_le(
        #[trigger] new_keys[s],
        #[trigger] new_keys[t],
    ) by {
        assert(new[s] == items[p[s]]);
        assert(new[t] == items[p[t]]);
    }
}

/// A list already in key order (ties in any order) is its own stable sort.
pub proof fn law_sorted_is_own_sort<T>(s: Seq<T>, keys: Seq<Seq<char>>)
    requires
        keys.len() == s.len(),
        forall|i: int, j: int| 0 <= i < j < s.len() ==> text_le(#[trigger] keys[i], #[trigger] keys[j]),
    ensures
        is_stable_sort(s, s, keys),
{
    let id = Seq::new(s.len(), |i: int| i);
    assert forall|k: int| 0 <= k < s.len() implies #[trigger] reaches(id, s.len() as int, k) by {
        assert(id[k] == k);
    }
    assert(stably_sorted(s, s, keys, id));
}

} // verus!
