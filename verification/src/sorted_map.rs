//! A map from strings to values that keeps its keys in ascending order.
//!
//! Keys are ordered as `str` orders them: byte by byte over their UTF-8
//! encoding. The map is a vector of entries whose keys strictly ascend, so no
//! key occurs twice and walking the entries visits the keys in order.

use vstd::prelude::*;
use vstd::utf8::*;

verus! {

/// Whether `a` comes strictly before `b` in byte-wise lexicographic order.
pub open spec fn bytes_before(a: Seq<u8>, b: Seq<u8>) -> bool
    decreases a.len(),
{
    if b.len() == 0 {
        false
    } else if a.len() == 0 {
        true
    } else if a[0] != b[0] {
        a[0] < b[0]
    } else {
        bytes_before(a.drop_first(), b.drop_first())
    }
}

/// Whether the key `a` comes strictly before the key `b`.
pub open spec fn key_before(a: Seq<char>, b: Seq<char>) -> bool {
    bytes_before(encode_utf8(a), encode_utf8(b))
}

/// Nothing comes before itself.
pub proof fn lemma_bytes_before_irreflexive(a: Seq<u8>)
    ensures
        !bytes_before(a, a),
    decreases a.len(),
{
    if a.len() > 0 {
        lemma_bytes_before_irreflexive(a.drop_first());
    }
}

/// The order is transitive.
pub proof fn lemma_bytes_before_transitive(a: Seq<u8>, b: Seq<u8>, c: Seq<u8>)
    requires
        bytes_before(a, b),
        bytes_before(b, c),
    ensures
        bytes_before(a, c),
    decreases a.len(),
{
    if a.len() > 0 && a[0] == b[0] && b[0] == c[0] {
        lemma_bytes_before_transitive(a.drop_first(), b.drop_first(), c.drop_first());
    }
}

/// Where two keys stand to each other.
#[derive(Clone, Copy, Debug, PartialEq, Eq, Structural)]
pub enum Rank {
    Before,
    Same,
    After,
}

/// Compares two keys byte by byte.
pub fn rank(a: &str, b: &str) -> (r: Rank)
    ensures
        r == Rank::Before ==> key_before(a@, b@),
        r == Rank::Same ==> a@ == b@,
        r == Rank::After ==> key_before(b@, a@),
{
    let x = a.as_bytes();
    let y = b.as_bytes();
    let mut i: usize = 0;
    proof {
        assert(x@ == encode_utf8(a@));
        assert(y@ == encode_utf8(b@));
        assert(x@.skip(0) =~= x@);
        assert(y@.skip(0) =~= y@);
    }
    while i < x.len() && i < y.len()
        invariant
            i <= x@.len(),
            i <= y@.len(),
            x@ == encode_utf8(a@),
            y@ == encode_utf8(b@),
            x@.take(i as int) == y@.take(i as int),
            bytes_before(x@, y@) == bytes_before(x@.skip(i as int), y@.skip(i as int)),
            bytes_before(y@, x@) == bytes_before(y@.skip(i as int), x@.skip(i as int)),
        decreases x@.len() - i,
    {
        let p = x[i];
        let q = y[i];
        proof {
            assert(x@.skip(i as int).drop_first() =~= x@.skip(i + 1));
            assert(y@.skip(i as int).drop_first() =~= y@.skip(i + 1));
            assert(x@.skip(i as int)[0] == p);
            assert(y@.skip(i as int)[0] == q);
        }
        if p < q {
            return Rank::Before;
        }
        if q < p {
            return Rank::After;
        }
        proof {
            assert(x@.take(i + 1) =~= x@.take(i as int).push(p));
            assert(y@.take(i + 1) =~= y@.take(i as int).push(q));
        }
        i += 1;
    }
    if x.len() < y.len() {
        Rank::Before
    } else if y.len() < x.len() {
        Rank::After
    } else {
        proof {
            assert(x@ =~= x@.take(i as int));
            assert(y@ =~= y@.take(i as int));
            encode_utf8_decode_utf8(a@);
            encode_utf8_decode_utf8(b@);
        }
        Rank::Same
    }
}

/// Whether the keys of `pairs` strictly ascend.
pub open spec fn ascending<W>(pairs: Seq<(Seq<char>, W)>) -> bool {
    forall|i: int, j: int|
        0 <= i < j < pairs.len() ==> key_before((#[trigger] pairs[i]).0, (#[trigger] pairs[j]).0)
}

/// A place in `pairs` at which `key` stands, if it stands anywhere.
pub open spec fn place_of<W>(pairs: Seq<(Seq<char>, W)>, key: Seq<char>) -> int {
    choose|i: int| 0 <= i < pairs.len() && (#[trigger] pairs[i]).0 == key
}

/// The map that a sequence of key-value pairs stands for.
pub open spec fn lookup<W>(pairs: Seq<(Seq<char>, W)>) -> Map<Seq<char>, W> {
    Map::new(
        |k: Seq<char>| exists|i: int| 0 <= i < pairs.len() && (#[trigger] pairs[i]).0 == k,
        |k: Seq<char>| pairs[place_of(pairs, k)].1,
    )
}

/// In an ascending sequence a key stands at one place only.
pub proof fn lemma_ascending_distinct<W>(pairs: Seq<(Seq<char>, W)>, i: int, j: int)
    requires
        ascending(pairs),
        0 <= i < pairs.len(),
        0 <= j < pairs.len(),
        pairs[i].0 == pairs[j].0,
    ensures
        i == j,
{
    lemma_bytes_before_irreflexive(encode_utf8(pairs[i].0));
}

/// What `lookup` gives for the key at a place of an ascending sequence.
pub proof fn lemma_lookup_at<W>(pairs: Seq<(Seq<char>, W)>, i: int)
    requires
        ascending(pairs),
        0 <= i < pairs.len(),
    ensures
        lookup(pairs).contains_key(pairs[i].0),
        lookup(pairs)[pairs[i].0] == pairs[i].1,
{
    lemma_ascending_distinct(pairs, i, place_of(pairs, pairs[i].0));
}

/// An ascending sequence stands for a map with as many keys as it has pairs.
pub proof fn lemma_lookup_len<W>(pairs: Seq<(Seq<char>, W)>)
    requires
        ascending(pairs),
    ensures
        lookup(pairs).dom().finite(),
        lookup(pairs).len() == pairs.len(),
    decreases pairs.len(),
{
    if pairs.len() == 0 {
        assert(lookup(pairs) =~= Map::<Seq<char>, W>::empty());
    } else {
        let at = pairs.len() - 1;
        lemma_remove_at(pairs, at);
        lemma_lookup_len(pairs.remove(at));
        lemma_lookup_at(pairs, at);
        assert(lookup(pairs) =~= lookup(pairs.remove(at)).insert(pairs[at].0, pairs[at].1));
        assert(!lookup(pairs.remove(at)).contains_key(pairs[at].0));
    }
}

/// A key that sorts between its neighbours is in the sequence only if it is
/// the key at that place.
proof fn lemma_absent<W>(pairs: Seq<(Seq<char>, W)>, at: int, key: Seq<char>)
    requires
        ascending(pairs),
        0 <= at <= pairs.len(),
        forall|j: int| 0 <= j < at ==> key_before((#[trigger] pairs[j]).0, key),
        at < pairs.len() ==> key_before(key, pairs[at].0),
    ensures
        !lookup(pairs).contains_key(key),
        forall|j: int| at <= j < pairs.len() ==> key_before(key, (#[trigger] pairs[j]).0),
{
    assert forall|j: int| at <= j < pairs.len() implies key_before(key, (#[trigger] pairs[j]).0) by {
        if at < j {
            lemma_bytes_before_transitive(
                encode_utf8(key),
                encode_utf8(pairs[at].0),
                encode_utf8(pairs[j].0),
            );
        }
    }
    lemma_bytes_before_irreflexive(encode_utf8(key));
}

/// Putting a new key at its place keeps the order and adds the key to the map.
proof fn lemma_insert_at<W>(pairs: Seq<(Seq<char>, W)>, at: int, key: Seq<char>, value: W)
    requires
        ascending(pairs),
        0 <= at <= pairs.len(),
        forall|j: int| 0 <= j < at ==> key_before((#[trigger] pairs[j]).0, key),
        at < pairs.len() ==> key_before(key, pairs[at].0),
    ensures
        ascending(pairs.insert(at, (key, value))),
        lookup(pairs.insert(at, (key, value))) == lookup(pairs).insert(key, value),
{
    let grown = pairs.insert(at, (key, value));
    lemma_absent(pairs, at, key);
    assert(ascending(grown)) by {
        assert forall|i: int, j: int| 0 <= i < j < grown.len() implies key_before(
            (#[trigger] grown[i]).0,
            (#[trigger] grown[j]).0,
        ) by {
            let oi = if i < at { i } else { i - 1 };
            let oj = if j < at { j } else { j - 1 };
            if i != at && j != at {
                assert(grown[i] == pairs[oi]);
                assert(grown[j] == pairs[oj]);
            } else if i == at {
                assert(grown[j] == pairs[oj]);
            } else {
                assert(grown[i] == pairs[oi]);
            }
        }
    }
    assert(grown[at] == (key, value));
    lemma_lookup_at(grown, at);
    assert forall|k: Seq<char>| lookup(grown).contains_key(k) <==> lookup(pairs).insert(
        key,
        value,
    ).contains_key(k) by {
        if lookup(grown).contains_key(k) {
            let i = place_of(grown, k);
            if i != at {
                let oi = if i < at { i } else { i - 1 };
                assert(pairs[oi].0 == k);
            }
        }
        if lookup(pairs).contains_key(k) {
            let i = place_of(pairs, k);
            let ni = if i < at { i } else { i + 1 };
            assert(grown[ni].0 == k);
        }
    }
    assert forall|k: Seq<char>| lookup(grown).contains_key(k) implies lookup(grown)[k] == lookup(
        pairs,
    ).insert(key, value)[k] by {
        let i = place_of(grown, k);
        lemma_lookup_at(grown, i);
        if i != at {
            let oi = if i < at { i } else { i - 1 };
            assert(grown[i] == pairs[oi]);
            lemma_lookup_at(pairs, oi);
        }
    }
    assert(lookup(grown) =~= lookup(pairs).insert(key, value));
}

/// Replacing the value at a key's place keeps the order and updates the map.
proof fn lemma_update_at<W>(pairs: Seq<(Seq<char>, W)>, at: int, value: W)
    requires
        ascending(pairs),
        0 <= at < pairs.len(),
    ensures
        ascending(pairs.update(at, (pairs[at].0, value))),
        lookup(pairs.update(at, (pairs[at].0, value))) == lookup(pairs).insert(pairs[at].0, value),
{
    let key = pairs[at].0;
    let changed = pairs.update(at, (key, value));
    assert(ascending(changed)) by {
        assert forall|i: int, j: int| 0 <= i < j < changed.len() implies key_before(
            (#[trigger] changed[i]).0,
            (#[trigger] changed[j]).0,
        ) by {
            assert(changed[i].0 == pairs[i].0);
            assert(changed[j].0 == pairs[j].0);
        }
    }
    assert forall|k: Seq<char>| lookup(changed).contains_key(k) <==> lookup(pairs).insert(
        key,
        value,
    ).contains_key(k) by {
        if lookup(changed).contains_key(k) {
            let i = place_of(changed, k);
            assert(pairs[i].0 == k);
        }
        if lookup(pairs).contains_key(k) {
            let i = place_of(pairs, k);
            assert(changed[i].0 == k);
        }
        assert(changed[at].0 == key);
    }
    assert forall|k: Seq<char>| lookup(changed).contains_key(k) implies lookup(changed)[k]
        == lookup(pairs).insert(key, value)[k] by {
        let i = place_of(changed, k);
        lemma_lookup_at(changed, i);
        if i != at {
            assert(changed[i] == pairs[i]);
            lemma_lookup_at(pairs, i);
            if k == key {
                lemma_ascending_distinct(pairs, i, at);
            }
        } else {
            assert(changed[at] == (key, value));
        }
    }
    assert(lookup(changed) =~= lookup(pairs).insert(key, value));
}

/// Taking the entry at a place out keeps the order and removes its key.
proof fn lemma_remove_at<W>(pairs: Seq<(Seq<char>, W)>, at: int)
    requires
        ascending(pairs),
        0 <= at < pairs.len(),
    ensures
        ascending(pairs.remove(at)),
        lookup(pairs.remove(at)) == lookup(pairs).remove(pairs[at].0),
{
    let key = pairs[at].0;
    let rest = pairs.remove(at);
    assert(ascending(rest)) by {
        assert forall|i: int, j: int| 0 <= i < j < rest.len() implies key_before(
            (#[trigger] rest[i]).0,
            (#[trigger] rest[j]).0,
        ) by {
            let oi = if i < at { i } else { i + 1 };
            let oj = if j < at { j } else { j + 1 };
            assert(rest[i] == pairs[oi]);
            assert(rest[j] == pairs[oj]);
        }
    }
    assert forall|k: Seq<char>| lookup(rest).contains_key(k) <==> lookup(pairs).remove(
        key,
    ).contains_key(k) by {
        if lookup(rest).contains_key(k) {
            let i = place_of(rest, k);
            let oi = if i < at { i } else { i + 1 };
            assert(rest[i] == pairs[oi]);
            assert(pairs[oi].0 == k);
            if k == key {
                lemma_ascending_distinct(pairs, oi, at);
            }
        }
        if lookup(pairs).contains_key(k) && k != key {
            let i = place_of(pairs, k);
            let ni = if i < at { i } else { i - 1 };
            assert(rest[ni] == pairs[i]);
        }
    }
    assert forall|k: Seq<char>| lookup(rest).contains_key(k) implies lookup(rest)[k] == lookup(
        pairs,
    ).remove(key)[k] by {
        let i = place_of(rest, k);
        lemma_lookup_at(rest, i);
        let oi = if i < at { i } else { i + 1 };
        assert(rest[i] == pairs[oi]);
        lemma_lookup_at(pairs, oi);
    }
    assert(lookup(rest) =~= lookup(pairs).remove(key));
}

/// A map from strings to values, held as entries in ascending key order.
#[derive(Debug)]
pub struct SortedMap<V: View> {
    entries: Vec<(String, V)>,
}

impl<V: View> View for SortedMap<V> {
    type V = Map<Seq<char>, V::V>;

    closed spec fn view(&self) -> Map<Seq<char>, V::V> {
        lookup(self.pairs())
    }
}

impl<V: View> SortedMap<V> {
    #[verifier::type_invariant]
    spec fn ordered(self) -> bool {
        ascending(self.pairs())
    }

    /// The entries in the order in which they are held, each key as its
    /// characters and each value as its view.
    pub closed spec fn pairs(&self) -> Seq<(Seq<char>, V::V)> {
        Seq::new(self.entries@.len(), |i: int| (self.entries@[i].0@, self.entries@[i].1@))
    }

    /// The empty map.
    pub fn new() -> (m: SortedMap<V>)
        ensures
            m@ == Map::<Seq<char>, V::V>::empty(),
            m.pairs().len() == 0,
    {
        let m = SortedMap { entries: Vec::new() };
        assert(m@ =~= Map::<Seq<char>, V::V>::empty());
        m
    }

    /// The number of entries. They stand in ascending key order, and the map
    /// holds them and nothing else.
    pub fn len(&self) -> (n: usize)
        ensures
            n == self.pairs().len(),
            ascending(self.pairs()),
            self@ == lookup(self.pairs()),
    {
        proof {
            use_type_invariant(self);
        }
        self.entries.len()
    }

    /// The key of the `i`-th entry in ascending key order.
    pub fn key_at(&self, i: usize) -> (key: &String)
        requires
            i < self.pairs().len(),
        ensures
            key@ == self.pairs()[i as int].0,
    {
        &self.entries[i].0
    }

    /// The value of the `i`-th entry in ascending key order.
    pub fn value_at(&self, i: usize) -> (value: &V)
        requires
            i < self.pairs().len(),
        ensures
            value@ == self.pairs()[i as int].1,
            self@.contains_key(self.pairs()[i as int].0),
            value@ == self@[self.pairs()[i as int].0],
    {
        proof {
            use_type_invariant(self);
            lemma_lookup_at(self.pairs(), i as int);
        }
        &self.entries[i].1
    }

    /// Where `key` stands, or would stand, among the entries, and whether it
    /// is there.
    fn position(&self, key: &str) -> (r: (usize, bool))
        ensures
            r.0 <= self.pairs().len(),
            forall|j: int| 0 <= j < r.0 ==> key_before((#[trigger] self.pairs()[j]).0, key@),
            r.1 ==> r.0 < self.pairs().len() && self.pairs()[r.0 as int].0 == key@,
            !r.1 && r.0 < self.pairs().len() ==> key_before(key@, self.pairs()[r.0 as int].0),
            r.1 == self@.contains_key(key@),
    {
        proof {
            use_type_invariant(self);
        }
        let mut i: usize = 0;
        while i < self.entries.len()
            invariant
                i <= self.pairs().len(),
                self.pairs().len() == self.entries@.len(),
                ascending(self.pairs()),
                forall|j: int| 0 <= j < i ==> key_before((#[trigger] self.pairs()[j]).0, key@),
            decreases self.entries@.len() - i,
        {
            let r = rank(self.entries[i].0.as_str(), key);
            assert(self.pairs()[i as int].0 == self.entries@[i as int].0@);
            match r {
                Rank::Before => {
                    i += 1;
                },
                Rank::Same => {
                    proof {
                        lemma_lookup_at(self.pairs(), i as int);
                    }
                    return (i, true);
                },
                Rank::After => {
                    proof {
                        lemma_absent(self.pairs(), i as int, key@);
                    }
                    return (i, false);
                },
            }
        }
        proof {
            lemma_absent(self.pairs(), i as int, key@);
        }
        (i, false)
    }

    /// Whether the map has an entry for `key`.
    pub fn contains_key(&self, key: &str) -> (b: bool)
        ensures
            b == self@.contains_key(key@),
    {
        self.position(key).1
    }

    /// The value that `key` maps to, if any.
    pub fn get(&self, key: &str) -> (value: Option<&V>)
        ensures
            match value {
                Some(v) => self@.contains_key(key@) && v@ == self@[key@],
                None => !self@.contains_key(key@),
            },
    {
        let (i, found) = self.position(key);
        if found {
            proof {
                use_type_invariant(self);
                lemma_lookup_at(self.pairs(), i as int);
            }
            Some(&self.entries[i].1)
        } else {
            None
        }
    }

    /// Maps `key` to `value`, in place of what it mapped to before, if
    /// anything.
    pub fn insert(&mut self, key: String, value: V)
        ensures
            final(self)@ == old(self)@.insert(key@, value@),
    {
        proof {
            use_type_invariant(&*self);
        }
        let (i, found) = self.position(key.as_str());
        let ghost before = self.pairs();
        let mut entries: Vec<(String, V)> = Vec::new();
        core::mem::swap(&mut self.entries, &mut entries);
        if found {
            proof {
                lemma_update_at(before, i as int, value@);
            }
            entries.set(i, (key, value));
        } else {
            proof {
                lemma_insert_at(before, i as int, key@, value@);
            }
            entries.insert(i, (key, value));
        }
        proof {
            let after = Seq::new(entries@.len(), |j: int| (entries@[j].0@, entries@[j].1@));
            if found {
                assert(after =~= before.update(i as int, (key@, value@)));
            } else {
                assert(after =~= before.insert(i as int, (key@, value@)));
            }
        }
        self.entries = entries;
    }

    /// Takes the entry for `key` out of the map and returns its value, if
    /// there is one.
    pub fn remove(&mut self, key: &str) -> (value: Option<V>)
        ensures
            final(self)@ == old(self)@.remove(key@),
            match value {
                Some(v) => old(self)@.contains_key(key@) && v@ == old(self)@[key@],
                None => !old(self)@.contains_key(key@),
            },
    {
        proof {
            use_type_invariant(&*self);
        }
        let (i, found) = self.position(key);
        let ghost before = self.pairs();
        if found {
            proof {
                lemma_remove_at(before, i as int);
                lemma_lookup_at(before, i as int);
            }
            let mut entries: Vec<(String, V)> = Vec::new();
            core::mem::swap(&mut self.entries, &mut entries);
            let entry = entries.remove(i);
            proof {
                let after = Seq::new(entries@.len(), |j: int| (entries@[j].0@, entries@[j].1@));
                assert(after =~= before.remove(i as int));
            }
            self.entries = entries;
            Some(entry.1)
        } else {
            assert(self@ =~= self@.remove(key@));
            None
        }
    }
}

} // verus!
