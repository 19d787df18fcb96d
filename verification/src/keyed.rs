//! Lists of records kept in increasing order of a numeric key, and the
//! search and restore operations on them.

use vstd::prelude::*;

verus! {

/// A record identified by a numeric key.
pub trait Keyed {
    /// The record's key.
    spec fn key_of(&self) -> u64;

    /// Reads the record's key.
    fn key(&self) -> (r: u64)
        ensures
            r == self.key_of(),
    ;
}

/// Position of the first element satisfying `p`, or `s.len()` when none does.
pub open spec fn first_where<T>(s: Seq<T>, p: spec_fn(T) -> bool) -> int
    decreases s.len(),
{
    if s.len() == 0 {
        0
    } else if p(s[0]) {
        0
    } else {
        1 + first_where(s.drop_first(), p)
    }
}

/// `first_where` is the first position satisfying `p`, or the length.
pub proof fn lemma_first_where<T>(s: Seq<T>, p: spec_fn(T) -> bool)
    ensures
        0 <= first_where(s, p) <= s.len(),
        forall|k: int| 0 <= k < first_where(s, p) ==> !p(#[trigger] s[k]),
        first_where(s, p) < s.len() ==> p(s[first_where(s, p)]),
    decreases s.len(),
{
    if s.len() > 0 && !p(s[0]) {
        lemma_first_where(s.drop_first(), p);
        assert forall|k: int| 0 <= k < first_where(s, p) implies !p(#[trigger] s[k]) by {
            if k > 0 {
                assert(s[k] == s.drop_first()[k - 1]);
            }
        }
    }
}

/// Any first satisfying position (or the length, when none) is `first_where`.
pub proof fn lemma_first_where_unique<T>(s: Seq<T>, p: spec_fn(T) -> bool, i: int)
    requires
        0 <= i <= s.len(),
        forall|k: int| 0 <= k < i ==> !p(#[trigger] s[k]),
        i < s.len() ==> p(s[i]),
    ensures
        first_where(s, p) == i,
{
    lemma_first_where(s, p);
    let f = first_where(s, p);
    if f < i {
        assert(!p(s[f]));
    }
    if i < f {
        assert(!p(s[i]));
    }
}

/// The keys of the records, in order.
pub open spec fn keys<T: Keyed>(s: Seq<T>) -> Seq<u64> {
    s.map_values(|x: T| x.key_of())
}

/// Whether the keys strictly increase.
pub open spec fn keys_increasing<T: Keyed>(s: Seq<T>) -> bool {
    forall|i: int, j: int| 0 <= i < j < s.len() ==> s[i].key_of() < s[j].key_of()
}

/// Whether a record's key is at least `k`.
pub open spec fn at_least<T: Keyed>(k: u64) -> spec_fn(T) -> bool {
    |x: T| x.key_of() >= k
}

/// Where key `k` belongs in records sorted by key.
pub open spec fn key_pos<T: Keyed>(s: Seq<T>, k: u64) -> int {
    first_where(s, at_least::<T>(k))
}

/// `s` with `x` stored under its key: replacing the record with that key,
/// or inserted in key order.
pub open spec fn upsert_keyed<T: Keyed>(s: Seq<T>, x: T) -> Seq<T> {
    let pos = key_pos(s, x.key_of());
    if pos < s.len() && s[pos].key_of() == x.key_of() {
        s.update(pos, x)
    } else {
        s.insert(pos, x)
    }
}

/// The records stored one after another, a later record replacing an
/// earlier one with the same key.
pub open spec fn restored<T: Keyed>(s: Seq<T>) -> Seq<T>
    decreases s.len(),
{
    if s.len() == 0 {
        Seq::empty()
    } else {
        upsert_keyed(restored(s.drop_last()), s.last())
    }
}

/// The largest key among the records (`0` for none).
pub open spec fn max_key<T: Keyed>(s: Seq<T>) -> u64
    decreases s.len(),
{
    if s.len() == 0 {
        0
    } else if s.last().key_of() > max_key(s.drop_last()) {
        s.last().key_of()
    } else {
        max_key(s.drop_last())
    }
}

/// Storing a record keeps the keys increasing, and adds no other record.
pub proof fn lemma_upsert_keyed<T: Keyed>(s: Seq<T>, x: T)
    requires
        keys_increasing(s),
    ensures
        keys_increasing(upsert_keyed(s, x)),
        forall|y: T| #[trigger] upsert_keyed(s, x).contains(y) ==> s.contains(y) || y == x,
        upsert_keyed(s, x).contains(x),
{
    let k = x.key_of();
    let pos = key_pos(s, k);
    lemma_first_where(s, at_least::<T>(k));
    let t = upsert_keyed(s, x);
    assert forall|i: int| 0 <= i < pos implies s[i].key_of() < k by {
        assert(!at_least::<T>(k)(s[i]));
    }
    if pos < s.len() && s[pos].key_of() == k {
        assert(t[pos] == x);
        assert forall|y: T| #[trigger] t.contains(y) implies s.contains(y) || y == x by {
            let i = choose|i: int| 0 <= i < t.len() && t[i] == y;
            if i != pos {
                assert(s[i] == y);
            }
        }
    } else {
        if pos < s.len() {
            assert(at_least::<T>(k)(s[pos]));
        }
        assert(t[pos] == x);
        assert forall|i: int, j: int| 0 <= i < j < t.len() implies t[i].key_of() < t[j].key_of() by {
            if i < pos && j > pos {
                assert(t[j] == s[j - 1]);
                if j - 1 > i {
                    assert(s[i].key_of() < s[j - 1].key_of());
                }
            } else if i > pos {
                assert(t[i] == s[i - 1]);
                assert(t[j] == s[j - 1]);
            } else if i == pos && j > pos {
                assert(t[j] == s[j - 1]);
                if j - 1 > pos {
                    assert(s[pos].key_of() < s[j - 1].key_of());
                }
            }
        }
        assert forall|y: T| #[trigger] t.contains(y) implies s.contains(y) || y == x by {
            let i = choose|i: int| 0 <= i < t.len() && t[i] == y;
            if i < pos {
                assert(s[i] == y);
            } else if i > pos {
                assert(s[i - 1] == y);
            }
        }
    }
}

/// Restored records are in increasing key order and come from the input.
pub proof fn lemma_restored<T: Keyed>(s: Seq<T>)
    ensures
        keys_increasing(restored(s)),
        forall|y: T| #[trigger] restored(s).contains(y) ==> s.contains(y),
        forall|y: T| #[trigger] s.contains(y) ==> y.key_of() <= max_key(s),
    decreases s.len(),
{
    if s.len() > 0 {
        lemma_restored(s.drop_last());
        lemma_upsert_keyed(restored(s.drop_last()), s.last());
        assert forall|y: T| #[trigger] restored(s).contains(y) implies s.contains(y) by {
            if restored(s.drop_last()).contains(y) {
                assert(s.drop_last().contains(y));
                let i = choose|i: int| 0 <= i < s.drop_last().len() && s.drop_last()[i] == y;
                assert(s[i] == y);
            } else {
                assert(s[s.len() - 1] == y);
            }
        }
        assert forall|y: T| #[trigger] s.contains(y) implies y.key_of() <= max_key(s) by {
            let i = choose|i: int| 0 <= i < s.len() && s[i] == y;
            if i < s.len() - 1 {
                assert(s.drop_last()[i] == y);
                assert(s.drop_last().contains(y));
            }
        }
    }
}

/// Where key `k` belongs in `v`.
pub fn key_position<T: Keyed>(v: &Vec<T>, k: u64) -> (r: usize)
    ensures
        r == key_pos(v@, k),
        r <= v@.len(),
{
    let ghost p = at_least::<T>(k);
    let mut i: usize = 0;
    while i < v.len()
        invariant
            i <= v.len(),
            p == at_least::<T>(k),
            forall|j: int| 0 <= j < i ==> !p(#[trigger] v@[j]),
        decreases v.len() - i,
    {
        if v[i].key() >= k {
            proof {
                lemma_first_where_unique(v@, p, i as int);
            }
            return i;
        }
        i = i + 1;
    }
    proof {
        lemma_first_where_unique(v@, p, i as int);
    }
    i
}

/// Stores `x` under its key in `v`.
pub fn insert_keyed<T: Keyed>(v: &mut Vec<T>, x: T)
    ensures
        final(v)@ == upsert_keyed(old(v)@, x),
{
    let k = x.key();
    let pos = key_position(v, k);
    if pos < v.len() && v[pos].key() == k {
        let _ = v.remove(pos);
        v.insert(pos, x);
        proof {
            assert(v@ =~= upsert_keyed(old(v)@, x));
        }
    } else {
        v.insert(pos, x);
    }
}

/// Stores the records one after another, in order.
pub fn restore_keyed<T: Keyed>(items: Vec<T>) -> (r: Vec<T>)
    ensures
        r@ == restored(items@),
{
    let ghost orig = items@;
    let n = items.len();
    let mut items = items;
    let mut stack: Vec<T> = Vec::new();
    while items.len() > 0
        invariant
            items@.len() + stack@.len() == n,
            n == orig.len(),
            items@ == orig.take(items@.len() as int),
            forall|j: int| 0 <= j < stack@.len() ==> #[trigger] stack@[j] == orig[n - 1 - j],
        decreases items.len(),
    {
        let x = items.pop().unwrap();
        stack.push(x);
    }
    let mut r: Vec<T> = Vec::new();
    while stack.len() > 0
        invariant
            stack@.len() <= n,
            n == orig.len(),
            forall|j: int| 0 <= j < stack@.len() ==> #[trigger] stack@[j] == orig[n - 1 - j],
            r@ == restored(orig.take(n - stack@.len())),
        decreases stack.len(),
    {
        let ghost p = n - stack@.len();
        let x = stack.pop().unwrap();
        proof {
            assert(orig.take(p + 1).drop_last() =~= orig.take(p));
            assert(orig.take(p + 1).last() == x);
        }
        insert_keyed(&mut r, x);
    }
    proof {
        assert(orig.take(n as int) =~= orig);
    }
    r
}

/// The largest key among the records (`0` for none).
pub fn largest_key<T: Keyed>(items: &Vec<T>) -> (m: u64)
    ensures
        m == max_key(items@),
{
    let mut m: u64 = 0;
    let mut i: usize = 0;
    while i < items.len()
        invariant
            i <= items.len(),
            m == max_key(items@.take(i as int)),
        decreases items.len() - i,
    {
        let k = items[i].key();
        proof {
            assert(items@.take(i + 1).drop_last() =~= items@.take(i as int));
        }
        if k > m {
            m = k;
        }
        i = i + 1;
    }
    proof {
        assert(items@.take(i as int) =~= items@);
    }
    m
}

} // verus!
