//! A small string-keyed table kept as a vector whose entries carry
//! their own keys, with the invariant that no key occurs twice.
//!
//! Its model is a `Map` from each entry's key to the entry itself.
use vstd::prelude::*;

verus! {

/// Values that carry the string under which they are stored.
pub trait Keyed {
    spec fn spec_key(&self) -> Seq<char>;

    fn key(&self) -> (k: &String)
        ensures
            k@ == self.spec_key(),
    ;
}

/// No two entries of `s` share a key.
pub open spec fn keys_unique<T: Keyed>(s: Seq<T>) -> bool {
    forall|i: int, j: int|
        0 <= i < s.len() && 0 <= j < s.len() && i != j ==> #[trigger] s[i].spec_key()
            != #[trigger] s[j].spec_key()
}

/// Some entry of `s` has key `k`.
pub open spec fn has_key<T: Keyed>(s: Seq<T>, k: Seq<char>) -> bool {
    exists|i: int| 0 <= i < s.len() && #[trigger] s[i].spec_key() == k
}

/// The map from keys to entries that a sequence of entries stands for.
pub open spec fn map_of<T: Keyed>(s: Seq<T>) -> Map<Seq<char>, T> {
    Map::new(
        |k: Seq<char>| has_key(s, k),
        |k: Seq<char>| s[choose|i: int| 0 <= i < s.len() && #[trigger] s[i].spec_key() == k],
    )
}

/// In a table without repeated keys, each entry is what the map gives for its key.
pub proof fn lemma_map_of_index<T: Keyed>(s: Seq<T>, i: int)
    requires
        keys_unique(s),
        0 <= i < s.len(),
    ensures
        map_of(s).contains_key(s[i].spec_key()),
        map_of(s)[s[i].spec_key()] == s[i],
{
    let k = s[i].spec_key();
    assert(has_key(s, k));
    let j = choose|j: int| 0 <= j < s.len() && #[trigger] s[j].spec_key() == k;
    assert(s[j].spec_key() == k);
    assert(j == i);
}

/// Every entry of a table without repeated keys is what the map gives for its key.
pub proof fn lemma_map_of_all<T: Keyed>(s: Seq<T>)
    requires
        keys_unique(s),
    ensures
        forall|i: int|
            0 <= i < s.len() ==> #[trigger] map_of(s).contains_key(s[i].spec_key())
                && map_of(s)[s[i].spec_key()] == s[i],
        forall|k: Seq<char>|
            #[trigger] map_of(s).contains_key(k) ==> exists|i: int|
                0 <= i < s.len() && #[trigger] s[i].spec_key() == k,
{
    assert forall|i: int| 0 <= i < s.len() implies #[trigger] map_of(s).contains_key(
        s[i].spec_key(),
    ) && map_of(s)[s[i].spec_key()] == s[i] by {
        lemma_map_of_index(s, i);
    }
}

/// Each entry of the map is stored under its own key, and there are finitely many keys.
pub proof fn lemma_map_of_keys<T: Keyed>(s: Seq<T>)
    ensures
        map_of(s).dom().finite(),
        forall|k: Seq<char>| #[trigger] map_of(s).contains_key(k) ==> map_of(s)[k].spec_key() == k,
{
    let ks = s.map_values(|x: T| x.spec_key());
    assert forall|k: Seq<char>| #[trigger] map_of(s).contains_key(k) implies map_of(s)[k].spec_key()
        == k by {
        let i = choose|i: int| 0 <= i < s.len() && #[trigger] s[i].spec_key() == k;
    }
    assert forall|k: Seq<char>| #[trigger] map_of(s).dom().contains(k) implies ks.to_set().contains(
        k,
    ) by {
        let i = choose|i: int| 0 <= i < s.len() && #[trigger] s[i].spec_key() == k;
        assert(ks[i] == k);
    }
    vstd::seq_lib::seq_to_set_is_finite(ks);
    vstd::set_lib::lemma_len_subset(map_of(s).dom(), ks.to_set());
}

/// Appending an entry under a new key inserts it into the map.
pub proof fn lemma_map_of_push<T: Keyed>(s: Seq<T>, x: T)
    requires
        keys_unique(s),
        !has_key(s, x.spec_key()),
    ensures
        keys_unique(s.push(x)),
        map_of(s.push(x)) == map_of(s).insert(x.spec_key(), x),
{
    let t = s.push(x);
    assert forall|i: int, j: int|
        0 <= i < t.len() && 0 <= j < t.len() && i != j implies #[trigger] t[i].spec_key()
        != #[trigger] t[j].spec_key() by {
        if i < s.len() && j < s.len() {
            assert(t[i] == s[i] && t[j] == s[j]);
        } else if i < s.len() {
            assert(t[i] == s[i]);
        } else {
            assert(t[j] == s[j]);
        }
    }
    lemma_map_of_all(s);
    lemma_map_of_all(t);
    let m = map_of(s).insert(x.spec_key(), x);
    assert forall|k: Seq<char>| #[trigger] map_of(t).contains_key(k) <==> m.contains_key(k) by {
        if map_of(t).contains_key(k) {
            let i = choose|i: int| 0 <= i < t.len() && #[trigger] t[i].spec_key() == k;
            if i < s.len() {
                assert(s[i] == t[i]);
            }
        }
        if m.contains_key(k) && k != x.spec_key() {
            let i = choose|i: int| 0 <= i < s.len() && #[trigger] s[i].spec_key() == k;
            assert(t[i] == s[i]);
        }
        if k == x.spec_key() {
            assert(t[s.len() as int] == x);
        }
    }
    assert forall|k: Seq<char>| #[trigger] map_of(t).contains_key(k) implies map_of(t)[k]
        == m[k] by {
        let i = choose|i: int| 0 <= i < t.len() && #[trigger] t[i].spec_key() == k;
        if i < s.len() {
            assert(s[i] == t[i]);
        } else {
            assert(t[i] == x);
        }
    }
    assert(map_of(t) =~= m);
}

/// Replacing the entry at `i` by one with the same key updates the map at that key.
pub proof fn lemma_map_of_update<T: Keyed>(s: Seq<T>, i: int, x: T)
    requires
        keys_unique(s),
        0 <= i < s.len(),
        s[i].spec_key() == x.spec_key(),
    ensures
        keys_unique(s.update(i, x)),
        map_of(s.update(i, x)) == map_of(s).insert(x.spec_key(), x),
{
    let t = s.update(i, x);
    assert forall|a: int, b: int|
        0 <= a < t.len() && 0 <= b < t.len() && a != b implies #[trigger] t[a].spec_key()
        != #[trigger] t[b].spec_key() by {
        assert(t[a].spec_key() == s[a].spec_key());
        assert(t[b].spec_key() == s[b].spec_key());
    }
    lemma_map_of_all(s);
    lemma_map_of_all(t);
    let m = map_of(s).insert(x.spec_key(), x);
    assert forall|k: Seq<char>| #[trigger] map_of(t).contains_key(k) <==> m.contains_key(k) by {
        if map_of(t).contains_key(k) {
            let j = choose|j: int| 0 <= j < t.len() && #[trigger] t[j].spec_key() == k;
            assert(s[j].spec_key() == t[j].spec_key());
        }
        if m.contains_key(k) {
            if k == x.spec_key() {
                assert(t[i] == x);
            } else {
                let j = choose|j: int| 0 <= j < s.len() && #[trigger] s[j].spec_key() == k;
                assert(t[j].spec_key() == s[j].spec_key());
            }
        }
    }
    assert forall|k: Seq<char>| #[trigger] map_of(t).contains_key(k) implies map_of(t)[k]
        == m[k] by {
        let j = choose|j: int| 0 <= j < t.len() && #[trigger] t[j].spec_key() == k;
        if j == i {
            assert(t[j] == x);
        } else {
            assert(t[j] == s[j]);
        }
    }
    assert(map_of(t) =~= m);
}

/// Removing the entry at `i` removes its key from the map.
pub proof fn lemma_map_of_remove<T: Keyed>(s: Seq<T>, i: int)
    requires
        keys_unique(s),
        0 <= i < s.len(),
    ensures
        keys_unique(s.remove(i)),
        map_of(s.remove(i)) == map_of(s).remove(s[i].spec_key()),
{
    let t = s.remove(i);
    let gone = s[i].spec_key();
    assert forall|a: int, b: int|
        0 <= a < t.len() && 0 <= b < t.len() && a != b implies #[trigger] t[a].spec_key()
        != #[trigger] t[b].spec_key() by {
        let sa = if a < i { a } else { a + 1 };
        let sb = if b < i { b } else { b + 1 };
        assert(t[a] == s[sa]);
        assert(t[b] == s[sb]);
    }
    lemma_map_of_all(s);
    lemma_map_of_all(t);
    let m = map_of(s).remove(gone);
    assert forall|k: Seq<char>| #[trigger] map_of(t).contains_key(k) <==> m.contains_key(k) by {
        if map_of(t).contains_key(k) {
            let j = choose|j: int| 0 <= j < t.len() && #[trigger] t[j].spec_key() == k;
            let sj = if j < i { j } else { j + 1 };
            assert(t[j] == s[sj]);
        }
        if m.contains_key(k) {
            let j = choose|j: int| 0 <= j < s.len() && #[trigger] s[j].spec_key() == k;
            assert(j != i);
            let tj = if j < i { j } else { j - 1 };
            assert(t[tj] == s[j]);
        }
    }
    assert forall|k: Seq<char>| #[trigger] map_of(t).contains_key(k) implies map_of(t)[k]
        == m[k] by {
        let j = choose|j: int| 0 <= j < t.len() && #[trigger] t[j].spec_key() == k;
        let sj = if j < i { j } else { j + 1 };
        assert(t[j] == s[sj]);
    }
    assert(map_of(t) =~= m);
}

/// A table without repeated keys has as many entries as its map has keys.
pub proof fn lemma_map_of_len<T: Keyed>(s: Seq<T>)
    requires
        keys_unique(s),
    ensures
        map_of(s).dom().finite(),
        map_of(s).dom().len() == s.len(),
    decreases s.len(),
{
    if s.len() == 0 {
        assert(map_of(s).dom() =~= Set::empty());
    } else {
        let r = s.drop_last();
        assert(keys_unique(r)) by {
            assert forall|a: int, b: int|
                0 <= a < r.len() && 0 <= b < r.len() && a != b implies #[trigger] r[a].spec_key()
                != #[trigger] r[b].spec_key() by {
                assert(r[a] == s[a] && r[b] == s[b]);
            }
        }
        lemma_map_of_len(r);
        assert(!has_key(r, s.last().spec_key())) by {
            if has_key(r, s.last().spec_key()) {
                let j = choose|j: int| 0 <= j < r.len() && #[trigger] r[j].spec_key()
                    == s.last().spec_key();
                assert(r[j] == s[j]);
            }
        }
        lemma_map_of_push(r, s.last());
        assert(r.push(s.last()) =~= s);
    }
}

/// A table of entries that carry their keys, no key occurring twice.
pub struct KeyedVec<T: Keyed> {
    items: Vec<T>,
}

impl<T: Keyed> KeyedVec<T> {
    #[verifier::type_invariant]
    spec fn keys_are_unique(self) -> bool {
        keys_unique(self.items@)
    }

    /// The entries, in the order the table keeps them.
    pub closed spec fn entries(&self) -> Seq<T> {
        self.items@
    }

    pub open spec fn view(&self) -> Map<Seq<char>, T> {
        map_of(self.entries())
    }

    pub fn new() -> (t: Self)
        ensures
            t@ == Map::<Seq<char>, T>::empty(),
            t.entries().len() == 0,
    {
        let t = KeyedVec { items: Vec::new() };
        assert(t@ =~= Map::<Seq<char>, T>::empty());
        t
    }

    /// The entries, without repeated keys, each of them what the map gives for its key.
    pub fn items(&self) -> (r: &Vec<T>)
        ensures
            r@ == self.entries(),
            keys_unique(r@),
            self@ == map_of(r@),
    {
        proof {
            use_type_invariant(self);
        }
        &self.items
    }

    pub fn len(&self) -> (n: usize)
        ensures
            n == self@.dom().len(),
            n == self.entries().len(),
            self@.dom().finite(),
    {
        proof {
            use_type_invariant(self);
            lemma_map_of_len(self.items@);
        }
        self.items.len()
    }

    /// The position of the entry stored under `key`, if there is one.
    fn position(&self, key: &str) -> (r: Option<usize>)
        ensures
            match r {
                Some(i) => i < self.entries().len() && self.entries()[i as int].spec_key() == key@,
                None => !self@.contains_key(key@),
            },
    {
        proof {
            use_type_invariant(self);
            lemma_map_of_all(self.items@);
        }
        let wanted = key.to_owned();
        let n = self.items.len();
        let mut i: usize = 0;
        while i < n
            invariant
                n == self.items@.len(),
                i <= n,
                wanted@ == key@,
                forall|j: int| 0 <= j < i ==> #[trigger] self.items@[j].spec_key() != key@,
            decreases n - i,
        {
            if *self.items[i].key() == wanted {
                return Some(i);
            }
            i = i + 1;
        }
        assert(!has_key(self.items@, key@));
        None
    }

    /// The entry stored under `key`.
    pub fn get(&self, key: &str) -> (r: Option<&T>)
        ensures
            match r {
                Some(v) => self@.contains_key(key@) && self@[key@] == *v,
                None => !self@.contains_key(key@),
            },
    {
        proof {
            use_type_invariant(self);
        }
        match self.position(key) {
            Some(i) => {
                proof {
                    lemma_map_of_index(self.items@, i as int);
                }
                Some(&self.items[i])
            },
            None => None,
        }
    }

    /// Stores `item` under its key, replacing and returning the entry stored there before.
    pub fn insert(&mut self, item: T) -> (r: Option<T>)
        ensures
            final(self)@ == old(self)@.insert(item.spec_key(), item),
            match r {
                Some(v) => old(self)@.contains_key(item.spec_key()) && v == old(self)@[item.spec_key()],
                None => !old(self)@.contains_key(item.spec_key()),
            },
    {
        proof {
            use_type_invariant(&*self);
            lemma_map_of_all(self.items@);
        }
        let k = item.key();
        let pos = self.position(k.as_str());
        let mut items: Vec<T> = Vec::new();
        std::mem::swap(&mut items, &mut self.items);
        let ghost before = items@;
        match pos {
            Some(i) => {
                proof {
                    lemma_map_of_index(before, i as int);
                    lemma_map_of_update(before, i as int, item);
                }
                let previous = items.remove(i);
                items.insert(i, item);
                assert(items@ =~= before.update(i as int, item));
                self.items = items;
                Some(previous)
            },
            None => {
                proof {
                    lemma_map_of_push(before, item);
                }
                items.push(item);
                self.items = items;
                None
            },
        }
    }

    /// Removes and returns the entry stored under `key`.
    pub fn remove(&mut self, key: &str) -> (r: Option<T>)
        ensures
            final(self)@ == old(self)@.remove(key@),
            match r {
                Some(v) => old(self)@.contains_key(key@) && v == old(self)@[key@],
                None => !old(self)@.contains_key(key@),
            },
    {
        proof {
            use_type_invariant(&*self);
        }
        match self.position(key) {
            Some(i) => {
                let mut items: Vec<T> = Vec::new();
                std::mem::swap(&mut items, &mut self.items);
                let ghost before = items@;
                proof {
                    lemma_map_of_index(before, i as int);
                    lemma_map_of_remove(before, i as int);
                }
                let v = items.remove(i);
                self.items = items;
                Some(v)
            },
            None => {
                assert(old(self)@.remove(key@) =~= old(self)@);
                None
            },
        }
    }
}

} // verus!
