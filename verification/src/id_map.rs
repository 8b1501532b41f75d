//! Hash maps and hash sets keyed by identifiers.
//!
//! An identifier is stored under an integer code; the view of a map is over
//! the identifiers themselves.
use core::fmt::Debug;
use core::hash::Hash;
use std::collections::hash_map::Entry;
use std::collections::HashMap;
use vstd::prelude::*;

verus! {

/// An identifier that corresponds one to one to an integer code.
pub trait MapKey: Copy {
    type Raw: Copy + Debug + Eq + Hash;

    spec fn code(self) -> Self::Raw;

    spec fn of_code(code: Self::Raw) -> Self;

    fn to_code(self) -> (r: Self::Raw)
        ensures
            r == self.code(),
    ;

    fn from_code(code: Self::Raw) -> (r: Self)
        ensures
            r == Self::of_code(code),
    ;

    proof fn codes()
        ensures
            forall|k: Self| #[trigger] Self::of_code(k.code()) == k,
            forall|c: Self::Raw| (#[trigger] Self::of_code(c)).code() == c,
            vstd::std_specs::hash::obeys_key_model::<Self::Raw>(),
    ;
}

/// A hash map from identifiers to values.
#[derive(Debug)]
#[verifier::reject_recursive_types(K)]
pub struct IdMap<K: MapKey, V> {
    raw: HashMap<K::Raw, V>,
}

impl<K: MapKey, V> View for IdMap<K, V> {
    type V = Map<K, V>;

    closed spec fn view(&self) -> Map<K, V> {
        Map::new(|k: K| self.raw@.contains_key(k.code()), |k: K| self.raw@[k.code()])
    }
}

impl<K: MapKey, V> IdMap<K, V> {
    pub fn new() -> (r: Self)
        ensures
            r@ == Map::<K, V>::empty(),
    {
        let r = IdMap { raw: HashMap::new() };
        assert(r@ =~= Map::<K, V>::empty());
        r
    }

    pub fn get(&self, key: K) -> (r: Option<&V>)
        ensures
            match r {
                Some(v) => self@.contains_key(key) && *v == self@[key],
                None => !self@.contains_key(key),
            },
    {
        proof {
            K::codes();
        }
        broadcast use vstd::std_specs::hash::group_hash_axioms;
        self.raw.get(&key.to_code())
    }

    pub fn contains_key(&self, key: K) -> (r: bool)
        ensures
            r == self@.contains_key(key),
    {
        proof {
            K::codes();
        }
        broadcast use vstd::std_specs::hash::group_hash_axioms;
        self.raw.contains_key(&key.to_code())
    }

    pub fn insert(&mut self, key: K, value: V) -> (r: Option<V>)
        ensures
            final(self)@ == old(self)@.insert(key, value),
            match r {
                Some(v) => old(self)@.contains_key(key) && v == old(self)@[key],
                None => !old(self)@.contains_key(key),
            },
    {
        proof {
            K::codes();
        }
        broadcast use vstd::std_specs::hash::group_hash_axioms;
        let r = self.raw.insert(key.to_code(), value);
        assert(self@ =~= old(self)@.insert(key, value)) by {
            assert forall|k: K| k.code() == key.code() implies k == key by {
                assert(K::of_code(k.code()) == k);
                assert(K::of_code(key.code()) == key);
            }
        }
        r
    }

    pub fn remove(&mut self, key: K) -> (r: Option<V>)
        ensures
            final(self)@ == old(self)@.remove(key),
            match r {
                Some(v) => old(self)@.contains_key(key) && v == old(self)@[key],
                None => !old(self)@.contains_key(key),
            },
    {
        proof {
            K::codes();
        }
        broadcast use vstd::std_specs::hash::group_hash_axioms;
        let r = self.raw.remove(&key.to_code());
        assert(self@ =~= old(self)@.remove(key)) by {
            assert forall|k: K| k.code() == key.code() implies k == key by {
                assert(K::of_code(k.code()) == k);
                assert(K::of_code(key.code()) == key);
            }
        }
        r
    }

    pub fn get_mut(&mut self, key: K) -> (r: Option<&mut V>)
        ensures
            match r {
                Some(v) => old(self)@.contains_key(key) && *v == old(self)@[key] && final(self)@
                    == old(self)@.insert(key, *final(v)),
                None => !old(self)@.contains_key(key) && final(self)@ == old(self)@,
            },
    {
        proof {
            K::codes();
            assert forall|k: K| #[trigger] k.code() == key.code() implies k == key by {
                assert(K::of_code(k.code()) == k);
                assert(K::of_code(key.code()) == key);
            }
        }
        broadcast use vstd::std_specs::hash::group_hash_axioms;
        match self.raw.entry(key.to_code()) {
            Entry::Occupied(entry) => Some(entry.into_mut()),
            Entry::Vacant(_) => None,
        }
    }

    /// The value of `key`, which is made `default` where there is none.
    pub fn get_or_insert(&mut self, key: K, default: V) -> (r: &mut V)
        ensures
            *r == (if old(self)@.contains_key(key) {
                old(self)@[key]
            } else {
                default
            }),
            final(self)@ == old(self)@.insert(key, *final(r)),
    {
        proof {
            K::codes();
            assert forall|k: K| #[trigger] k.code() == key.code() implies k == key by {
                assert(K::of_code(k.code()) == k);
                assert(K::of_code(key.code()) == key);
            }
        }
        broadcast use vstd::std_specs::hash::group_hash_axioms;

        self.raw.entry(key.to_code()).or_insert(default)
    }

    /// The keys whose entries pass `test`, each once, in no particular order.
    pub(crate) fn keys_where<F: Fn(K, &V) -> bool>(
        &self,
        test: F,
        Ghost(wanted): Ghost<spec_fn(K, V) -> bool>,
    ) -> (r: Vec<K>)
        requires
            forall|k: K, v: V| #[trigger] test.requires((k, &v)),
            forall|k: K, v: V, b: bool| #[trigger] test.ensures((k, &v), b) ==> b == wanted(k, v),
        ensures
            r@.no_duplicates(),
            r@.to_set() == self@.dom().filter(|k: K| wanted(k, self@[k])),
            r@.len() == self@.dom().filter(|k: K| wanted(k, self@[k])).len(),
    {
        let all = self.keys();
        let mut r: Vec<K> = Vec::new();
        for i in 0..all.len()
            invariant
                all@.no_duplicates(),
                all@.to_set() == self@.dom(),
                forall|k: K, v: V| #[trigger] test.requires((k, &v)),
                forall|k: K, v: V, b: bool| #[trigger]
                    test.ensures((k, &v), b) ==> b == wanted(k, v),
                r@.no_duplicates(),
                forall|k: K| #[trigger]
                    r@.contains(k) <==> all@.take(i as int).contains(k) && wanted(k, self@[k]),
        {
            let key = all[i];
            proof {
                assert(all@.to_set().contains(key));
                assert(all@.take(i + 1) =~= all@.take(i as int).push(key));
                lemma_contains_push(all@.take(i as int), key);
                lemma_contains_push(r@, key);
                assert(!all@.take(i as int).contains(key));
                assert(!r@.contains(key));
            }
            match self.get(key) {
                Some(value) => {
                    if test(key, value) {
                        r.push(key);
                    }
                },
                None => {},
            }
        }
        proof {
            assert(all@.take(all@.len() as int) =~= all@);
            let chosen = self@.dom().filter(|k: K| wanted(k, self@[k]));
            assert forall|k: K| chosen.contains(k) == r@.contains(k) by {
                assert(all@.to_set().contains(k) == all@.contains(k));
            }
            assert(r@.to_set() =~= chosen);
            r@.unique_seq_to_set();
        }
        r
    }

    /// The keys, each once, in no particular order.
    pub fn keys(&self) -> (r: Vec<K>)
        ensures
            r@.no_duplicates(),
            r@.to_set() == self@.dom(),
            r@.len() == self@.len(),
    {
        proof {
            K::codes();
        }
        broadcast use vstd::std_specs::hash::group_hash_axioms;

        let mut r: Vec<K> = Vec::new();
        for code in it: self.raw.keys()
            invariant
                r@ == it.seq().unref().take(it.index()).map_values(|c: K::Raw| K::of_code(c)),
                it.seq().unref().take(it.seq().len() as int) == it.seq().unref(),
                it.seq().unref().to_set() == self.raw@.dom(),
                it.seq().unref().no_duplicates(),
        {
            r.push(K::from_code(*code));
        }
        proof {
            let codes = r@.map_values(|k: K| k.code());
            assert(exists|s: Seq<K::Raw>| #[trigger] s.to_set() == self.raw@.dom()
                && s.no_duplicates() && r@ == s.map_values(|c: K::Raw| K::of_code(c)));
            let s = choose|s: Seq<K::Raw>| #[trigger] s.to_set() == self.raw@.dom()
                && s.no_duplicates() && r@ == s.map_values(|c: K::Raw| K::of_code(c));
            assert(codes =~= s);
            assert forall|i: int, j: int| 0 <= i < j < r@.len() implies r@[i] != r@[j] by {
                assert(codes[i] != codes[j]);
            }
            assert forall|k: K| #[trigger] self@.dom().contains(k) implies r@.contains(k) by {
                assert(codes.to_set().contains(k.code()));
                let i = choose|i: int| 0 <= i < codes.len() && codes[i] == k.code();
                assert(K::of_code(codes[i]) == r@[i]);
                assert(r@[i] == k);
            }
            assert forall|k: K| r@.contains(k) implies #[trigger] self@.dom().contains(k) by {
                let i = choose|i: int| 0 <= i < r@.len() && r@[i] == k;
                assert(codes.contains(codes[i]));
                assert(codes.to_set().contains(codes[i]));
            }
            assert(r@.to_set() =~= self@.dom());
            r@.unique_seq_to_set();
        }
        r
    }

    pub fn len(&self) -> (r: usize)
        ensures
            r == self@.len(),
    {
        proof {
            K::codes();
            broadcast use vstd::std_specs::hash::group_hash_axioms;

            let decode = |c: K::Raw| K::of_code(c);
            assert(self.raw@.dom().map(decode) =~= self@.dom()) by {
                assert forall|k: K| #[trigger] self@.dom().contains(k) implies
                    self.raw@.dom().map(decode).contains(k) by {
                    assert(decode(k.code()) == k);
                }
            }
            assert(vstd::relations::injective_on(decode, self.raw@.dom())) by {
                assert forall|a: K::Raw, b: K::Raw| #[trigger]
                    K::of_code(a) == #[trigger] K::of_code(b) implies a == b by {
                    assert(K::of_code(a).code() == a);
                    assert(K::of_code(b).code() == b);
                }
            }
            vstd::set_lib::lemma_map_size(self.raw@.dom(), self@.dom(), decode);
        }
        self.raw.len()
    }
}

/// What is in a sequence after a push.
pub proof fn lemma_contains_push<A>(s: Seq<A>, a: A)
    ensures
        forall|x: A| #[trigger] s.push(a).contains(x) <==> s.contains(x) || x == a,
        s.no_duplicates() && !s.contains(a) ==> s.push(a).no_duplicates(),
{
    assert forall|x: A| #[trigger] s.push(a).contains(x) <==> s.contains(x) || x == a by {
        if s.contains(x) {
            let j = choose|j: int| 0 <= j < s.len() && s[j] == x;
            assert(s.push(a)[j] == x);
        }
        assert(s.push(a)[s.len() as int] == a);
    }
}

/// Filtering one element more.
pub proof fn lemma_filter_take<A>(s: Seq<A>, p: spec_fn(A) -> bool, i: int)
    requires
        0 <= i < s.len(),
    ensures
        s.take(i + 1).filter(p) == if p(s[i]) {
            s.take(i).filter(p).push(s[i])
        } else {
            s.take(i).filter(p)
        },
        s.take(s.len() as int) == s,
{
    assert(s.take(i + 1).drop_last() =~= s.take(i));
    assert(s.take(s.len() as int) =~= s);
    reveal(Seq::filter);
}

/// A hash set of identifiers.
#[derive(Debug)]
#[verifier::reject_recursive_types(K)]
pub struct IdSet<K: MapKey> {
    members: IdMap<K, ()>,
}

impl<K: MapKey> View for IdSet<K> {
    type V = Set<K>;

    closed spec fn view(&self) -> Set<K> {
        self.members@.dom()
    }
}

impl<K: MapKey> IdSet<K> {
    pub fn new() -> (r: Self)
        ensures
            r@ == Set::<K>::empty(),
    {
        IdSet { members: IdMap::new() }
    }

    pub fn contains(&self, key: K) -> (r: bool)
        ensures
            r == self@.contains(key),
    {
        self.members.contains_key(key)
    }

    /// Adds `key`; true if it was not there before.
    pub fn insert(&mut self, key: K) -> (r: bool)
        ensures
            final(self)@ == old(self)@.insert(key),
            r == !old(self)@.contains(key),
    {
        self.members.insert(key, ()).is_none()
    }

    /// Removes `key`; true if it was there before.
    pub fn remove(&mut self, key: K) -> (r: bool)
        ensures
            final(self)@ == old(self)@.remove(key),
            r == old(self)@.contains(key),
    {
        self.members.remove(key).is_some()
    }

    pub fn clear(&mut self)
        ensures
            final(self)@ == Set::<K>::empty(),
    {
        self.members = IdMap::new();
    }

    pub fn len(&self) -> (r: usize)
        ensures
            r == self@.len(),
    {
        self.members.len()
    }

    /// The members, each once, in no particular order.
    pub fn to_vec(&self) -> (r: Vec<K>)
        ensures
            r@.no_duplicates(),
            r@.to_set() == self@,
            r@.len() == self@.len(),
    {
        self.members.keys()
    }
}

} // verus!
