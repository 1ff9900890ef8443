use vstd::prelude::*;

use crate::address::Member;

verus! {

/// The view of a sequence of members, element by element.
pub open spec fn views_of<T: View>(s: Seq<T>) -> Seq<T::V> {
    s.map_values(|e: T| e@)
}

/// Index of the first occurrence of `x` in `s`.
pub open spec fn first_index<A>(s: Seq<A>, x: A) -> int
    recommends
        s.contains(x),
{
    choose|i: int| 0 <= i < s.len() && s[i] == x && forall|j: int| 0 <= j < i ==> s[j] != x
}

/// Adding to an unordered set: appended at the end unless already present.
pub open spec fn set_inserted<A>(s: Seq<A>, x: A) -> Seq<A> {
    if s.contains(x) {
        s
    } else {
        s.push(x)
    }
}

/// Removing from an unordered set: the last element takes the place of the
/// removed one, and the sequence shrinks by one.
pub open spec fn set_swap_removed<A>(s: Seq<A>, x: A) -> Seq<A> {
    if s.contains(x) {
        s.update(first_index(s, x), s.last()).drop_last()
    } else {
        s
    }
}

pub proof fn lemma_first_index<A>(s: Seq<A>, x: A, i: int)
    requires
        0 <= i < s.len(),
        s[i] == x,
        forall|j: int| 0 <= j < i ==> s[j] != x,
    ensures
        first_index(s, x) == i,
        s.contains(x),
{
    let k = first_index(s, x);
    assert(s[i] == x);
    assert(0 <= k < s.len() && s[k] == x && forall|j: int| 0 <= j < k ==> s[j] != x);
    if k < i {
        assert(s[k] != x);
    }
    if i < k {
        assert(s[i] != x);
    }
}

proof fn lemma_smallest_index<A>(s: Seq<A>, x: A, k: int)
    requires
        0 <= k < s.len(),
        s[k] == x,
    ensures
        exists|i: int| 0 <= i < s.len() && s[i] == x && forall|j: int| 0 <= j < i ==> s[j] != x,
    decreases k,
{
    if exists|j: int| 0 <= j < k && s[j] == x {
        let j = choose|j: int| 0 <= j < k && s[j] == x;
        lemma_smallest_index(s, x, j);
    } else {
        assert(0 <= k < s.len() && s[k] == x && forall|j: int| 0 <= j < k ==> s[j] != x);
    }
}

/// A member has a first position.
pub proof fn lemma_first_index_of_member<A>(s: Seq<A>, x: A)
    requires
        s.contains(x),
    ensures
        0 <= first_index(s, x) < s.len(),
        s[first_index(s, x)] == x,
        forall|j: int| 0 <= j < first_index(s, x) ==> s[j] != x,
{
    let k = choose|k: int| 0 <= k < s.len() && s[k] == x;
    lemma_smallest_index(s, x, k);
}

/// Removing a member that was just added undoes the addition.
pub proof fn lemma_swap_remove_undoes_insert<A>(s: Seq<A>, x: A)
    requires
        !s.contains(x),
    ensures
        set_swap_removed(set_inserted(s, x), x) == s,
{
    let t = s.push(x);
    assert forall|j: int| 0 <= j < s.len() implies t[j] != x by {
        assert(s[j] == t[j]);
    }
    lemma_first_index(t, x, s.len() as int);
    assert(t.update(s.len() as int, t.last()).drop_last() =~= s);
}

/// A set that keeps its members in a vector, adding at the end and
/// removing by moving the last member into the freed place.
pub struct SwapSet<T> {
    items: Vec<T>,
}

impl<T: Member> View for SwapSet<T> {
    type V = Seq<T::V>;

    closed spec fn view(&self) -> Seq<T::V> {
        views_of(self.items@)
    }
}

impl<T: Member> SwapSet<T> {
    pub fn new() -> (r: Self)
        ensures
            r@ == Seq::<T::V>::empty(),
    {
        let r = SwapSet { items: Vec::new() };
        assert(r@ =~= Seq::<T::V>::empty());
        r
    }

    pub fn len(&self) -> (n: usize)
        ensures
            n == self@.len(),
    {
        self.items.len()
    }

    /// Position of `x`, the first one, if it is a member.
    pub fn position(&self, x: &T) -> (r: Option<usize>)
        ensures
            r is None ==> !self@.contains(x@),
            r matches Some(i) ==> i < self@.len() && first_index(self@, x@) == i && self@[i as int] == x@,
            self@.len() <= usize::MAX,
    {
        let mut i: usize = 0;
        while i < self.items.len()
            invariant
                i <= self.items.len(),
                self@ == views_of(self.items@),
                forall|j: int| 0 <= j < i ==> self@[j] != x@,
            decreases self.items.len() - i,
        {
            if self.items[i].same(x) {
                proof {
                    lemma_first_index(self@, x@, i as int);
                }
                return Some(i);
            }
            i = i + 1;
        }
        proof {
            if self@.contains(x@) {
                let k = choose|k: int| 0 <= k < self@.len() && self@[k] == x@;
                assert(self@[k] != x@);
            }
        }
        None
    }

    pub fn contains(&self, x: &T) -> (b: bool)
        ensures
            b == self@.contains(x@),
    {
        self.position(x).is_some()
    }

    /// Adds `x` unless present; tells whether it was added.
    pub fn insert(&mut self, x: T) -> (added: bool)
        ensures
            added == !old(self)@.contains(x@),
            final(self)@ == set_inserted(old(self)@, x@),
    {
        if self.contains(&x) {
            false
        } else {
            let ghost xv = x@;
            self.items.push(x);
            assert(self@ =~= old(self)@.push(xv));
            true
        }
    }

    /// Removes `x` if present; tells whether it was there.
    pub fn swap_remove(&mut self, x: &T) -> (removed: bool)
        ensures
            removed == old(self)@.contains(x@),
            final(self)@ == set_swap_removed(old(self)@, x@),
    {
        match self.position(x) {
            None => false,
            Some(i) => {
                let last = self.items.len() - 1;
                let moved = self.items[last].duplicate();
                self.items.set(i, moved);
                self.items.pop();
                assert(self@ =~= old(self)@.update(i as int, old(self)@.last()).drop_last());
                true
            },
        }
    }

    /// The members, in order.
    pub fn to_vec(&self) -> (r: Vec<T>)
        ensures
            views_of(r@) == self@,
    {
        let mut r: Vec<T> = Vec::new();
        let mut i: usize = 0;
        while i < self.items.len()
            invariant
                i <= self.items.len(),
                r@.len() == i,
                views_of(r@) == self@.take(i as int),
                self@ == views_of(self.items@),
            decreases self.items.len() - i,
        {
            let d = self.items[i].duplicate();
            r.push(d);
            assert(views_of(r@)[i as int] == self@[i as int]);
            assert(views_of(r@) =~= self@.take(i + 1));
            i = i + 1;
        }
        assert(self@.take(i as int) =~= self@);
        r
    }

    pub fn duplicate_set(&self) -> (r: Self)
        ensures
            r@ == self@,
    {
        SwapSet { items: self.to_vec() }
    }
}

} // verus!

verus! {

/// The function `f` with the value at `k` replaced by `v`.
pub open spec fn updated<K, V>(f: spec_fn(K) -> V, k: K, v: V) -> spec_fn(K) -> V {
    |x: K| if x == k { v } else { f(x) }
}

/// Values kept in storage slots, with the value an untouched slot reads as.
pub trait Stored: View + Sized {
    spec fn blank_view() -> Self::V;

    fn blank() -> (r: Self)
        ensures
            r@ == Self::blank_view(),
    ;

    fn copy_value(&self) -> (r: Self)
        ensures
            r@ == self@,
    ;
}

impl Stored for u64 {
    open spec fn blank_view() -> u64 {
        0
    }

    fn blank() -> (r: u64) {
        0
    }

    fn copy_value(&self) -> (r: u64) {
        *self
    }
}

impl Stored for Vec<u8> {
    open spec fn blank_view() -> Seq<u8> {
        Seq::empty()
    }

    fn blank() -> (r: Vec<u8>) {
        Vec::new()
    }

    fn copy_value(&self) -> (r: Vec<u8>) {
        self.duplicate()
    }
}

impl<T: Member> Stored for SwapSet<T> {
    open spec fn blank_view() -> Seq<T::V> {
        Seq::empty()
    }

    fn blank() -> (r: Self) {
        SwapSet::new()
    }

    fn copy_value(&self) -> (r: Self) {
        self.duplicate_set()
    }
}

/// `i` is the last position of a record with key `k`.
pub open spec fn last_key_at<K: View, V>(s: Seq<(K, V)>, k: K::V, i: int) -> bool {
    &&& 0 <= i < s.len()
    &&& s[i].0@ == k
    &&& forall|j: int| i < j < s.len() ==> s[j].0@ != k
}

pub proof fn lemma_last_key_unique<K: View, V>(s: Seq<(K, V)>, k: K::V, i: int, j: int)
    requires
        last_key_at(s, k, i),
        last_key_at(s, k, j),
    ensures
        i == j,
{
    if i < j {
        assert(s[j].0@ != k);
    }
    if j < i {
        assert(s[i].0@ != k);
    }
}

/// A keyed store of records; a later record for a key hides earlier ones.
pub struct Table<K, V> {
    entries: Vec<(K, V)>,
}

impl<K: Member, V: Stored> View for Table<K, V> {
    type V = spec_fn(K::V) -> Option<V::V>;

    closed spec fn view(&self) -> spec_fn(K::V) -> Option<V::V> {
        |k: K::V| self.lookup(k)
    }
}

impl<K: Member, V: Stored> Table<K, V> {
    /// The value of the last record with key `k`.
    pub closed spec fn lookup(&self, k: K::V) -> Option<V::V> {
        if exists|i: int| last_key_at(self.entries@, k, i) {
            Some(self.entries@[choose|i: int| last_key_at(self.entries@, k, i)].1@)
        } else {
            None
        }
    }
}

/// A store in which no key has a value.
pub open spec fn nothing_stored<A, B>() -> spec_fn(A) -> Option<B> {
    |k: A| None
}

/// What a slot reads as: its value, or the blank value when never written.
pub open spec fn or_blank<V: Stored>(o: Option<V::V>) -> V::V {
    match o {
        Some(v) => v,
        None => V::blank_view(),
    }
}

impl<K: Member, V: Stored> Table<K, V> {
    pub fn new() -> (r: Self)
        ensures
            r@ == nothing_stored::<K::V, V::V>(),
    {
        let r = Table { entries: Vec::new() };
        assert(r@ =~= nothing_stored::<K::V, V::V>());
        r
    }

    proof fn lemma_lookup(&self, k: K::V, i: int)
        requires
            last_key_at(self.entries@, k, i),
        ensures
            self.lookup(k) == Some(self.entries@[i].1@),
            (self@)(k) == Some(self.entries@[i].1@),
    {
        let c = choose|c: int| last_key_at(self.entries@, k, c);
        lemma_last_key_unique(self.entries@, k, i, c);
    }

    fn last_index(&self, k: &K) -> (r: Option<usize>)
        ensures
            r is None ==> (self@)(k@) is None,
            r is None ==> forall|j: int| 0 <= j < self.entries@.len() ==> self.entries@[j].0@ != k@,
            r matches Some(i) ==> last_key_at(self.entries@, k@, i as int)
                && (self@)(k@) == Some(self.entries@[i as int].1@),
    {
        let mut i: usize = self.entries.len();
        while i > 0
            invariant
                i <= self.entries.len(),
                forall|j: int| i <= j < self.entries@.len() ==> self.entries@[j].0@ != k@,
            decreases i,
        {
            i = i - 1;
            if self.entries[i].0.same(k) {
                proof {
                    self.lemma_lookup(k@, i as int);
                }
                return Some(i);
            }
        }
        None
    }

    /// The value stored under `k`, if any.
    pub fn get(&self, k: &K) -> (r: Option<V>)
        ensures
            r matches Some(v) ==> (self@)(k@) == Some(v@),
            r is None ==> (self@)(k@) is None,
    {
        match self.last_index(k) {
            Some(i) => Some(self.entries[i].1.copy_value()),
            None => None,
        }
    }

    /// The value stored under `k`, or the blank value.
    pub fn get_or_blank(&self, k: &K) -> (r: V)
        ensures
            r@ == or_blank::<V>((self@)(k@)),
    {
        match self.get(k) {
            Some(v) => v,
            None => V::blank(),
        }
    }

    /// Stores `v` under `k`.
    pub fn put(&mut self, k: K, v: V)
        ensures
            final(self)@ == updated(old(self)@, k@, Some(v@)),
    {
        let ghost kv = k@;
        let ghost vv = v@;
        let ghost n = self.entries@.len() as int;
        let pos = self.last_index(&k);
        let ghost at: int = match pos { Some(i) => i as int, None => n };
        match pos {
            Some(i) => {
                self.entries.set(i, (k, v));
            },
            None => {
                self.entries.push((k, v));
            },
        }
        proof {
            assert(self.entries@.len() == if at == n { n + 1 } else { n });
            assert(forall|j: int| 0 <= j < n && j != at ==> self.entries@[j] == old(self).entries@[j]);
            assert(last_key_at(self.entries@, kv, at));
            self.lemma_lookup(kv, at);
            assert forall|x: K::V| x != kv implies #[trigger] self.lookup(x) == old(self).lookup(x) by {
                assert forall|j: int| last_key_at(old(self).entries@, x, j) <==> last_key_at(self.entries@, x, j) by {
                    if last_key_at(old(self).entries@, x, j) {
                        assert(j != at);
                    }
                    if last_key_at(self.entries@, x, j) {
                        assert(j != at);
                        assert forall|m: int| j < m < n implies old(self).entries@[m].0@ != x by {
                            if m != at {
                                assert(self.entries@[m] == old(self).entries@[m]);
                            }
                        }
                    }
                }
                if exists|j: int| last_key_at(old(self).entries@, x, j) {
                    let j = choose|j: int| last_key_at(old(self).entries@, x, j);
                    self.lemma_lookup(x, j);
                    old(self).lemma_lookup(x, j);
                }
            }
            assert(self@ =~= updated(old(self)@, kv, Some(vv)));
        }
    }
}

} // verus!

verus! {

/// Adding to a set without duplicates keeps it without duplicates, and
/// the members are the old ones and `x`.
pub proof fn lemma_inserted_members<A>(s: Seq<A>, x: A)
    ensures
        s.no_duplicates() ==> set_inserted(s, x).no_duplicates(),
        set_inserted(s, x).contains(x),
        forall|y: A| #[trigger] set_inserted(s, x).contains(y) <==> (s.contains(y) || y == x),
        s.is_prefix_of(set_inserted(s, x)),
{
    let t = set_inserted(s, x);
    if !s.contains(x) {
        assert(t[s.len() as int] == x);
        assert forall|y: A| #[trigger] t.contains(y) <==> (s.contains(y) || y == x) by {
            if t.contains(y) {
                let k = choose|k: int| 0 <= k < t.len() && t[k] == y;
                if k < s.len() {
                    assert(s[k] == y);
                }
            }
            if s.contains(y) {
                let k = choose|k: int| 0 <= k < s.len() && s[k] == y;
                assert(t[k] == y);
            }
        }
        if s.no_duplicates() {
            assert forall|i: int, j: int| 0 <= i < t.len() && 0 <= j < t.len() && i != j implies t[i] != t[j] by {
                if i == s.len() {
                    assert(t[j] == s[j]);
                } else if j == s.len() {
                    assert(t[i] == s[i]);
                } else {
                    assert(t[i] == s[i] && t[j] == s[j]);
                }
            }
        }
    }
    assert(t.take(s.len() as int) =~= s);
}

/// Removing from a set without duplicates keeps it without duplicates,
/// takes `x` out, and keeps every other member.
pub proof fn lemma_swap_removed_members<A>(s: Seq<A>, x: A)
    requires
        s.no_duplicates(),
    ensures
        set_swap_removed(s, x).no_duplicates(),
        !set_swap_removed(s, x).contains(x),
        forall|y: A| y != x ==> (#[trigger] set_swap_removed(s, x).contains(y) <==> s.contains(y)),
{
    let t = set_swap_removed(s, x);
    if s.contains(x) {
        let i = first_index(s, x);
        let n = s.len() - 1;
        assert(0 <= i < s.len() && s[i] == x);
        assert(t.len() == n);
        // Position `i` of `t` holds the last element of `s`; every other position keeps its element.
        assert forall|k: int| 0 <= k < n implies #[trigger] t[k] == s[if k == i { n } else { k }] by {}
        assert forall|a: int, b: int| 0 <= a < t.len() && 0 <= b < t.len() && a != b implies t[a] != t[b] by {
            let sa = if a == i { n } else { a };
            let sb = if b == i { n } else { b };
            assert(t[a] == s[sa] && t[b] == s[sb]);
            assert(sa != sb);
        }
        assert forall|k: int| 0 <= k < t.len() implies t[k] != x by {
            let sk = if k == i { n } else { k };
            assert(t[k] == s[sk]);
            assert(sk != i);
        }
        assert forall|y: A| y != x implies (#[trigger] t.contains(y) <==> s.contains(y)) by {
            if t.contains(y) {
                let k = choose|k: int| 0 <= k < t.len() && t[k] == y;
                let sk = if k == i { n } else { k };
                assert(t[k] == s[sk]);
            }
            if s.contains(y) {
                let k = choose|k: int| 0 <= k < s.len() && s[k] == y;
                if k == n {
                    if i == n {
                        assert(s[i] == x);
                    } else {
                        assert(t[i] == y);
                    }
                } else {
                    assert(k != i);
                    assert(t[k] == y);
                }
            }
        }
    }
}

} // verus!
