//! A keyed collection: entries identified by a key (a text or a number), at
//! most one entry per key, kept in insertion order.
use vstd::prelude::*;
use crate::text::str_eq;

verus! {

/// A key that can be compared at run time with what it stands for in specifications.
pub trait KeyOf {
    /// What the key stands for.
    type V;

    /// The key's value in specifications.
    spec fn kv(&self) -> Self::V;

    /// Whether two keys are the same.
    fn same(&self, other: &Self) -> (r: bool)
        ensures
            r == (self.kv() == other.kv());
}

impl KeyOf for str {
    type V = Seq<char>;

    open spec fn kv(&self) -> Seq<char> {
        self@
    }

    fn same(&self, other: &Self) -> (r: bool) {
        str_eq(self, other)
    }
}

impl KeyOf for u128 {
    type V = u128;

    open spec fn kv(&self) -> u128 {
        *self
    }

    fn same(&self, other: &Self) -> (r: bool) {
        *self == *other
    }
}

impl KeyOf for u32 {
    type V = u32;

    open spec fn kv(&self) -> u32 {
        *self
    }

    fn same(&self, other: &Self) -> (r: bool) {
        *self == *other
    }
}

/// Something identified by a key.
pub trait Keyed {
    /// The type of the key.
    type Key: KeyOf + ?Sized;

    /// The key.
    spec fn key(&self) -> <Self::Key as KeyOf>::V;

    /// What every entry kept in a store satisfies.
    spec fn inv(&self) -> bool;

    /// The key, at run time.
    fn key_ref(&self) -> (r: &Self::Key)
        ensures
            r.kv() == self.key();
}

impl Keyed for String {
    type Key = str;

    open spec fn key(&self) -> Seq<char> {
        self@
    }

    open spec fn inv(&self) -> bool {
        true
    }

    fn key_ref(&self) -> (r: &str) {
        let r = self.as_str();
        assert(r.kv() == r@);
        r
    }
}

/// No two entries share a key.
pub open spec fn distinct_keys<T: Keyed>(s: Seq<T>) -> bool {
    forall|i: int, j: int| 0 <= i < s.len() && 0 <= j < s.len() && i != j ==> (#[trigger] s[i]).key() != (#[trigger] s[j]).key()
}

/// Some entry has key `k`.
pub open spec fn has_key<T: Keyed>(s: Seq<T>, k: <T::Key as KeyOf>::V) -> bool {
    exists|i: int| 0 <= i < s.len() && (#[trigger] s[i]).key() == k
}

/// The entry with key `k`, if any.
pub open spec fn lookup<T: Keyed>(s: Seq<T>, k: <T::Key as KeyOf>::V) -> Option<T> {
    if has_key(s, k) {
        Some(s[choose|i: int| 0 <= i < s.len() && (#[trigger] s[i]).key() == k])
    } else {
        None
    }
}

/// With distinct keys, the entry at `i` is what its key looks up.
pub proof fn lemma_lookup_at<T: Keyed>(s: Seq<T>, i: int)
    requires
        distinct_keys(s),
        0 <= i < s.len(),
    ensures
        lookup(s, s[i].key()) == Some(s[i]),
{
    let k = s[i].key();
    assert(has_key(s, k));
    let w = choose|j: int| 0 <= j < s.len() && (#[trigger] s[j]).key() == k;
    assert(w == i);
}

/// Without an entry keyed `k`, nothing is looked up.
pub proof fn lemma_lookup_absent<T: Keyed>(s: Seq<T>, k: <T::Key as KeyOf>::V)
    requires
        forall|j: int| 0 <= j < s.len() ==> (#[trigger] s[j]).key() != k,
    ensures
        lookup(s, k) is None,
{
}

/// Two sequences holding the same entries under every key other than `k`
/// look up the same under those keys.
pub proof fn lemma_lookup_same_others<T: Keyed>(a: Seq<T>, b: Seq<T>, k: <T::Key as KeyOf>::V, k2: <T::Key as KeyOf>::V)
    requires
        distinct_keys(a),
        distinct_keys(b),
        k2 != k,
        forall|i: int| 0 <= i < a.len() && (#[trigger] a[i]).key() != k ==> exists|j: int| 0 <= j < b.len() && b[j] == a[i],
        forall|j: int| 0 <= j < b.len() && (#[trigger] b[j]).key() != k ==> exists|i: int| 0 <= i < a.len() && a[i] == b[j],
    ensures
        lookup(b, k2) == lookup(a, k2),
{
    if has_key(a, k2) {
        let i = choose|i: int| 0 <= i < a.len() && (#[trigger] a[i]).key() == k2;
        lemma_lookup_at(a, i);
        let j = choose|j: int| 0 <= j < b.len() && b[j] == a[i];
        lemma_lookup_at(b, j);
    } else if has_key(b, k2) {
        let j = choose|j: int| 0 <= j < b.len() && (#[trigger] b[j]).key() == k2;
        let i = choose|i: int| 0 <= i < a.len() && a[i] == b[j];
        assert(a[i].key() == k2);
    }
}

/// Entries kept one per key, in insertion order.
#[derive(Debug)]
pub struct Store<T> {
    items: Vec<T>,
}

impl<T: Keyed> Store<T> {
    /// The entries, in order.
    pub closed spec fn items(&self) -> Seq<T> {
        self.items@
    }

    /// The entry with key `k`, if any.
    pub open spec fn get_spec(&self, k: <T::Key as KeyOf>::V) -> Option<T> {
        lookup(self.items(), k)
    }

    /// At most one entry per key.
    pub open spec fn wf(&self) -> bool {
        &&& distinct_keys(self.items())
        &&& forall|i: int| 0 <= i < self.items().len() ==> (#[trigger] self.items()[i]).inv()
    }

    /// An empty store.
    pub fn new() -> (r: Self)
        ensures
            r.wf(),
            r.items().len() == 0,
    {
        Store { items: Vec::new() }
    }

    /// Number of entries.
    pub fn len(&self) -> (r: usize)
        ensures
            r == self.items().len(),
    {
        self.items.len()
    }

    /// The entry at position `i`.
    pub fn at(&self, i: usize) -> (r: &T)
        requires
            i < self.items().len(),
        ensures
            *r == self.items()[i as int],
    {
        &self.items[i]
    }

    /// Position of the entry with key `k`.
    pub fn find(&self, k: &T::Key) -> (r: Option<usize>)
        requires
            self.wf(),
        ensures
            match r {
                Some(i) => i < self.items().len() && self.items()[i as int].key() == k.kv() && self.get_spec(k.kv())
                    == Some(self.items()[i as int]),
                None => self.get_spec(k.kv()) is None && !has_key(self.items(), k.kv()),
            },
    {
        let mut i: usize = 0;
        while i < self.items.len()
            invariant
                i <= self.items@.len(),
                distinct_keys(self.items@),
                forall|j: int| 0 <= j < i ==> (#[trigger] self.items@[j]).key() != k.kv(),
            decreases self.items.len() - i,
        {
            if self.items[i].key_ref().same(k) {
                proof { lemma_lookup_at(self.items@, i as int); }
                return Some(i);
            }
            i = i + 1;
        }
        None
    }

    /// The entry with key `k`.
    pub fn get(&self, k: &T::Key) -> (r: Option<&T>)
        requires
            self.wf(),
        ensures
            match r {
                Some(t) => self.get_spec(k.kv()) == Some(*t) && t.inv(),
                None => self.get_spec(k.kv()) is None,
            },
    {
        match self.find(k) {
            Some(i) => Some(&self.items[i]),
            None => None,
        }
    }

    /// Adds an entry under a key not yet present, at the end.
    pub fn push_new(&mut self, t: T)
        requires
            old(self).wf(),
            !has_key(old(self).items(), t.key()),
            t.inv(),
        ensures
            final(self).wf(),
            final(self).items() == old(self).items().push(t),
            final(self).get_spec(t.key()) == Some(t),
            forall|k: <T::Key as KeyOf>::V| k != t.key() ==> final(self).get_spec(k) == old(self).get_spec(k),
    {
        let ghost a = self.items@;
        self.items.push(t);
        proof {
            let b = self.items@;
            assert(distinct_keys(b)) by {
                assert forall|i: int, j: int| 0 <= i < b.len() && 0 <= j < b.len() && i != j
                    implies (#[trigger] b[i]).key() != (#[trigger] b[j]).key() by {
                    if i < a.len() && j < a.len() {
                        assert(b[i] == a[i] && b[j] == a[j]);
                    } else if i < a.len() {
                        assert(b[i] == a[i]);
                    } else {
                        assert(b[j] == a[j]);
                    }
                }
            }
            lemma_lookup_at(b, a.len() as int);
            assert forall|i: int| 0 <= i < b.len() implies (#[trigger] b[i]).inv() by {
                if i < a.len() {
                    assert(b[i] == a[i]);
                }
            }
            assert forall|k: <T::Key as KeyOf>::V| k != t.key() implies lookup(b, k) == lookup(a, k) by {
                assert forall|i: int| 0 <= i < a.len() && (#[trigger] a[i]).key() != t.key() implies exists|j: int|
                    0 <= j < b.len() && b[j] == a[i] by {
                    assert(b[i] == a[i]);
                }
                assert forall|j: int| 0 <= j < b.len() && (#[trigger] b[j]).key() != t.key() implies exists|i: int|
                    0 <= i < a.len() && a[i] == b[j] by {
                    assert(a[j] == b[j]);
                }
                lemma_lookup_same_others(a, b, t.key(), k);
            }
        }
    }

    /// Takes out the entry at position `i`.
    pub fn take_at(&mut self, i: usize) -> (t: T)
        requires
            old(self).wf(),
            i < old(self).items().len(),
        ensures
            final(self).wf(),
            t == old(self).items()[i as int],
            t.inv(),
            final(self).items() == old(self).items().remove(i as int),
            !has_key(final(self).items(), t.key()),
            forall|k: <T::Key as KeyOf>::V| k != t.key() ==> final(self).get_spec(k) == old(self).get_spec(k),
    {
        let ghost a = self.items@;
        let t = self.items.remove(i);
        proof {
            let b = self.items@;
            assert forall|x: int, y: int| 0 <= x < b.len() && 0 <= y < b.len() && x != y
                implies (#[trigger] b[x]).key() != (#[trigger] b[y]).key() by {
                let xa = if x < i { x } else { x + 1 };
                let ya = if y < i { y } else { y + 1 };
                assert(b[x] == a[xa] && b[y] == a[ya]);
            }
            assert forall|j: int| 0 <= j < b.len() implies (#[trigger] b[j]).key() != t.key() by {
                let ja = if j < i { j } else { j + 1 };
                assert(b[j] == a[ja]);
            }
            assert forall|j: int| 0 <= j < b.len() implies (#[trigger] b[j]).inv() by {
                let ja = if j < i { j } else { j + 1 };
                assert(b[j] == a[ja]);
            }
            assert forall|k: <T::Key as KeyOf>::V| k != t.key() implies lookup(b, k) == lookup(a, k) by {
                assert forall|x: int| 0 <= x < a.len() && (#[trigger] a[x]).key() != t.key() implies exists|j: int|
                    0 <= j < b.len() && b[j] == a[x] by {
                    let jb = if x < i { x } else { x - 1 };
                    assert(b[jb] == a[x]);
                }
                assert forall|j: int| 0 <= j < b.len() && (#[trigger] b[j]).key() != t.key() implies exists|x: int|
                    0 <= x < a.len() && a[x] == b[j] by {
                    let ja = if j < i { j } else { j + 1 };
                    assert(b[j] == a[ja]);
                }
                lemma_lookup_same_others(a, b, t.key(), k);
            }
        }
        t
    }

    /// Puts an entry under a key not present at position `i`.
    pub fn put_at(&mut self, i: usize, t: T)
        requires
            old(self).wf(),
            i <= old(self).items().len(),
            !has_key(old(self).items(), t.key()),
            t.inv(),
        ensures
            final(self).wf(),
            final(self).items() == old(self).items().insert(i as int, t),
            final(self).get_spec(t.key()) == Some(t),
            forall|k: <T::Key as KeyOf>::V| k != t.key() ==> final(self).get_spec(k) == old(self).get_spec(k),
    {
        let ghost a = self.items@;
        self.items.insert(i, t);
        proof {
            let b = self.items@;
            assert forall|x: int, y: int| 0 <= x < b.len() && 0 <= y < b.len() && x != y
                implies (#[trigger] b[x]).key() != (#[trigger] b[y]).key() by {
                if x != i && y != i {
                    let xa = if x < i { x } else { x - 1 };
                    let ya = if y < i { y } else { y - 1 };
                    assert(b[x] == a[xa] && b[y] == a[ya]);
                } else if x != i {
                    let xa = if x < i { x } else { x - 1 };
                    assert(b[x] == a[xa]);
                } else {
                    let ya = if y < i { y } else { y - 1 };
                    assert(b[y] == a[ya]);
                }
            }
            lemma_lookup_at(b, i as int);
            assert forall|x: int| 0 <= x < b.len() implies (#[trigger] b[x]).inv() by {
                if x != i {
                    let xa = if x < i { x } else { x - 1 };
                    assert(b[x] == a[xa]);
                }
            }
            assert forall|k: <T::Key as KeyOf>::V| k != t.key() implies lookup(b, k) == lookup(a, k) by {
                assert forall|x: int| 0 <= x < a.len() && (#[trigger] a[x]).key() != t.key() implies exists|j: int|
                    0 <= j < b.len() && b[j] == a[x] by {
                    let jb = if x < i { x } else { x + 1 };
                    assert(b[jb] == a[x]);
                }
                assert forall|j: int| 0 <= j < b.len() && (#[trigger] b[j]).key() != t.key() implies exists|x: int|
                    0 <= x < a.len() && a[x] == b[j] by {
                    let ja = if j < i { j } else { j - 1 };
                    assert(b[j] == a[ja]);
                }
                lemma_lookup_same_others(a, b, t.key(), k);
            }
        }
    }

    /// Removes the entry with key `k`, if any.
    pub fn remove(&mut self, k: &T::Key) -> (r: Option<T>)
        requires
            old(self).wf(),
        ensures
            final(self).wf(),
            r == old(self).get_spec(k.kv()),
            final(self).get_spec(k.kv()) is None,
            forall|k2: <T::Key as KeyOf>::V| k2 != k.kv() ==> final(self).get_spec(k2) == old(self).get_spec(k2),
            r is None ==> final(self).items() == old(self).items(),
            r is Some ==> r->0.inv() && final(self).items().len() == old(self).items().len() - 1,
            r is Some ==> exists|i: int| 0 <= i < old(self).items().len() && final(self).items() == old(self).items().remove(i),
    {
        match self.find(k) {
            Some(i) => {
                let t = self.take_at(i);
                Some(t)
            },
            None => None,
        }
    }

    /// Removes every entry.
    pub fn clear(&mut self)
        ensures
            final(self).wf(),
            final(self).items().len() == 0,
            forall|k: <T::Key as KeyOf>::V| final(self).get_spec(k) is None,
    {
        self.items.clear();
    }
    /// Whether some entry has key `k`.
    pub open spec fn contains(&self, k: <T::Key as KeyOf>::V) -> bool {
        self.get_spec(k) is Some
    }

    /// Puts `t` under its key, in place of the entry with that key if there is
    /// one (keeping its position), else at the end; gives back the replaced entry.
    pub fn insert(&mut self, t: T) -> (r: Option<T>)
        requires
            old(self).wf(),
            t.inv(),
        ensures
            final(self).wf(),
            r == old(self).get_spec(t.key()),
            final(self).get_spec(t.key()) == Some(t),
            forall|k: <T::Key as KeyOf>::V| k != t.key() ==> final(self).get_spec(k) == old(self).get_spec(k),
            final(self).items().len() == old(self).items().len() + (if r is None { 1int } else { 0 }),
            r is None ==> !has_key(old(self).items(), t.key()) && final(self).items() == old(self).items().push(t),
            r is Some ==> exists|i: int| 0 <= i < old(self).items().len() && (#[trigger] old(self).items()[i]).key() == t.key()
                && final(self).items() == old(self).items().update(i, t),
    {
        let pos = self.find(t.key_ref());
        match pos {
            Some(i) => {
                let ghost a = self.items();
                let old_t = self.take_at(i);
                self.put_at(i, t);
                assert(a.remove(i as int).insert(i as int, t) =~= a.update(i as int, t));
                assert(a[i as int].key() == t.key());
                Some(old_t)
            },
            None => {
                self.push_new(t);
                None
            },
        }
    }

    /// Replaces the entry at position `i` by one with the same key.
    pub fn set_at(&mut self, i: usize, t: T)
        requires
            old(self).wf(),
            i < old(self).items().len(),
            t.key() == old(self).items()[i as int].key(),
            t.inv(),
        ensures
            final(self).wf(),
            final(self).items() == old(self).items().update(i as int, t),
            final(self).get_spec(t.key()) == Some(t),
            forall|k: <T::Key as KeyOf>::V| k != t.key() ==> final(self).get_spec(k) == old(self).get_spec(k),
    {
        let ghost a = self.items@;
        let _old_t = self.take_at(i);
        self.put_at(i, t);
        assert(self.items@ =~= a.update(i as int, t));
    }
}

impl Store<String> {
    /// A copy of a set of strings.
    pub fn duplicate(&self) -> (r: Self)
        ensures
            r.items() == self.items(),
    {
        let mut v: Vec<String> = Vec::new();
        let mut i: usize = 0;
        while i < self.items.len()
            invariant
                i <= self.items@.len(),
                v@ == self.items@.take(i as int),
            decreases self.items.len() - i,
        {
            v.push(self.items[i].clone());
            assert(self.items@.take(i as int).push(self.items@[i as int]) =~= self.items@.take(i + 1));
            i = i + 1;
        }
        assert(self.items@.take(self.items@.len() as int) =~= self.items@);
        Store { items: v }
    }
}

} // verus!
