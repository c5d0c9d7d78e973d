//! A key-value store for what VPN providers keep (authentication data, session tokens):
//! each key holds either serialized bytes or a nested store.

use vstd::prelude::*;
use crate::text::text_eq;

verus! {

/// The outcome of an authentication with a VPN provider.
#[derive(Debug, Clone, Copy, PartialEq, Eq, Structural)]
pub enum AuthenticationResult {
    Success,
    Failed,
}

/// What a key of a store holds.
pub enum StoreContent {
    /// A serialized value.
    Value(Vec<u8>),
    /// A store of its own.
    NestedStore(Store),
}

/// A named key-value store. Each key occurs once. The entries are kept in a list: a
/// `HashMap` keyed by `String` gives the verifier no model of its contents.
pub struct Store {
    identifier: String,
    data: Vec<(String, StoreContent)>,
}

/// Whether a content is a serialized value.
pub open spec fn is_value(c: StoreContent) -> bool {
    c is Value
}

/// The keys of a list of entries.
spec fn keys_of(data: Seq<(String, StoreContent)>) -> Seq<Seq<char>> {
    data.map_values(|e: (String, StoreContent)| e.0@)
}

/// The nested store of an entry, borrowed for change.
fn nested_of(entry: &mut (String, StoreContent)) -> (r: Option<&mut Store>)
    ensures
        match r {
            Some(s) => {
                &&& old(entry).1 == StoreContent::NestedStore(*s)
                &&& *final(entry) == (old(entry).0, StoreContent::NestedStore(*final(s)))
            },
            None => !(old(entry).1 is NestedStore) && *final(entry) == *old(entry),
        },
{
    match &mut entry.1 {
        StoreContent::NestedStore(s) => Some(s),
        StoreContent::Value(_) => None,
    }
}

impl Store {
    /// The store's name.
    pub closed spec fn identifier_view(&self) -> Seq<char> {
        self.identifier@
    }

    /// The keys, in the order they were first set.
    pub closed spec fn keys(&self) -> Seq<Seq<char>> {
        keys_of(self.data@)
    }

    /// The content of the key at position `i` of `keys()`.
    pub closed spec fn content_at(&self, i: int) -> StoreContent {
        self.data@[i].1
    }

    /// Each key occurs once.
    pub open spec fn wf(&self) -> bool {
        self.keys().no_duplicates()
    }

    /// An empty store named `identifier`.
    pub fn new(identifier: String) -> (r: Store)
        ensures
            r.identifier_view() == identifier@,
            r.keys() == Seq::<Seq<char>>::empty(),
            r.wf(),
    {
        let r = Store { identifier, data: Vec::new() };
        assert(r.keys() =~= Seq::<Seq<char>>::empty());
        r
    }

    /// The store's name.
    pub fn get_identifier(&self) -> (r: &String)
        ensures
            r@ == self.identifier_view(),
    {
        &self.identifier
    }

    /// The position of `key`, if the store holds it.
    fn position(&self, key: &str) -> (r: Option<usize>)
        ensures
            match r {
                Some(i) => i < self.keys().len() && self.keys()[i as int] == key@,
                None => !self.keys().contains(key@),
            },
    {
        let mut i: usize = 0;
        while i < self.data.len()
            invariant
                i <= self.data@.len(),
                self.keys().len() == self.data@.len(),
                forall|j: int| 0 <= j < i ==> self.keys()[j] != key@,
            decreases self.data@.len() - i,
        {
            if text_eq(self.data[i].0.as_str(), key) {
                return Some(i);
            }
            i = i + 1;
        }
        None
    }

    /// Whether the store holds `key`.
    pub fn key_exists(&self, key: String) -> (r: bool)
        ensures
            r == self.keys().contains(key@),
    {
        self.position(key.as_str()).is_some()
    }

    /// Sets `key` to `content`, in place of what it held before.
    fn put(&mut self, key: String, content: StoreContent)
        requires
            old(self).wf(),
        ensures
            final(self).wf(),
            final(self).identifier_view() == old(self).identifier_view(),
            final(self).keys().to_set() == old(self).keys().to_set().insert(key@),
            forall|j: int| 0 <= j < old(self).keys().len() && old(self).keys()[j] != key@ ==> {
                &&& final(self).keys()[j] == old(self).keys()[j]
                &&& final(self).content_at(j) == old(self).content_at(j)
            },
            final(self).keys().len() >= old(self).keys().len(),
            exists|i: int| 0 <= i < final(self).keys().len() && final(self).keys()[i] == key@
                && final(self).content_at(i) == content,
    {
        match self.position(key.as_str()) {
            Some(i) => {
                let ghost k = key@;
                let ghost v = content;
                self.data.set(i, (key, content));
                proof {
                    assert(self.content_at(i as int) == v);
                    assert(self.keys() =~= old(self).keys().update(i as int, k));
                    assert(old(self).keys().update(i as int, k) =~= old(self).keys());
                    assert(self.keys().to_set() =~= old(self).keys().to_set().insert(k));
                    assert(self.keys()[i as int] == k);
                }
            },
            None => {
                let ghost k = key@;
                let ghost v = content;
                self.data.push((key, content));
                proof {
                    let n = old(self).keys().len();
                    assert(self.content_at(n as int) == v);
                    assert(self.keys() =~= old(self).keys().push(k));
                    assert forall|x: Seq<char>| #[trigger] self.keys().contains(x) <==> (old(self).keys().contains(x) || x == k) by {
                        if self.keys().contains(x) {
                            let j = choose|j: int| 0 <= j < self.keys().len() && self.keys()[j] == x;
                            if j < n {
                                assert(old(self).keys()[j] == x);
                            }
                        }
                        if old(self).keys().contains(x) {
                            let j = choose|j: int| 0 <= j < old(self).keys().len() && old(self).keys()[j] == x;
                            assert(self.keys()[j] == x);
                        }
                        if x == k {
                            assert(self.keys()[n as int] == x);
                        }
                    }
                    assert(self.keys().to_set() =~= old(self).keys().to_set().insert(k));
                    assert(self.keys()[n as int] == k);
                    assert forall|a: int, b: int| 0 <= a < b < self.keys().len() implies self.keys()[a] != self.keys()[b] by {
                        if b == n {
                            assert(old(self).keys().contains(self.keys()[a]) ==> self.keys()[a] != k);
                        }
                    }
                }
            },
        }
    }

    /// Sets `key` to the serialized `value`, in place of what it held before.
    pub fn set(&mut self, key: String, value: Vec<u8>)
        requires
            old(self).wf(),
        ensures
            final(self).wf(),
            final(self).identifier_view() == old(self).identifier_view(),
            final(self).keys().to_set() == old(self).keys().to_set().insert(key@),
            forall|j: int| 0 <= j < old(self).keys().len() && old(self).keys()[j] != key@ ==> {
                &&& final(self).keys()[j] == old(self).keys()[j]
                &&& final(self).content_at(j) == old(self).content_at(j)
            },
            final(self).keys().len() >= old(self).keys().len(),
            exists|i: int| 0 <= i < final(self).keys().len() && final(self).keys()[i] == key@
                && final(self).content_at(i) == StoreContent::Value(value),
    {
        self.put(key, StoreContent::Value(value));
    }

    /// Sets `key` to the nested store `store`, in place of what it held before.
    pub fn set_nested_store(&mut self, key: String, store: Store)
        requires
            old(self).wf(),
        ensures
            final(self).wf(),
            final(self).identifier_view() == old(self).identifier_view(),
            final(self).keys().to_set() == old(self).keys().to_set().insert(key@),
            forall|j: int| 0 <= j < old(self).keys().len() && old(self).keys()[j] != key@ ==> {
                &&& final(self).keys()[j] == old(self).keys()[j]
                &&& final(self).content_at(j) == old(self).content_at(j)
            },
            final(self).keys().len() >= old(self).keys().len(),
            exists|i: int| 0 <= i < final(self).keys().len() && final(self).keys()[i] == key@
                && final(self).content_at(i) == StoreContent::NestedStore(store),
    {
        self.put(key, StoreContent::NestedStore(store));
    }

    /// The serialized value of `key`; none when the key is missing or holds a nested store.
    pub fn get(&self, key: String) -> (r: Option<&Vec<u8>>)
        requires
            self.wf(),
        ensures
            r is Some <==> exists|i: int| 0 <= i < self.keys().len() && self.keys()[i] == key@
                && is_value(self.content_at(i)),
            r is Some ==> exists|i: int| 0 <= i < self.keys().len() && self.keys()[i] == key@
                && self.content_at(i) == StoreContent::Value(*r->Some_0),
    {
        match self.position(key.as_str()) {
            Some(i) => {
                proof { self.lemma_key_unique(i as int); }
                match &self.data[i].1 {
                    StoreContent::Value(v) => {
                        assert(self.content_at(i as int) == StoreContent::Value(*v));
                        Some(v)
                    },
                    StoreContent::NestedStore(_) => None,
                }
            },
            None => None,
        }
    }

    /// A key occurs at one position only.
    proof fn lemma_key_unique(&self, i: int)
        requires
            self.wf(),
            0 <= i < self.keys().len(),
        ensures
            forall|j: int| 0 <= j < self.keys().len() && self.keys()[j] == self.keys()[i] ==> j == i,
    {
    }

    /// The nested store of `key`; none when the key is missing or holds a value.
    pub fn get_nested_store(&mut self, key: String) -> (r: Option<&mut Store>)
        requires
            old(self).wf(),
        ensures
            r is Some <==> exists|i: int| 0 <= i < old(self).keys().len() && old(self).keys()[i] == key@
                && old(self).content_at(i) is NestedStore,
            match r {
                Some(s) => forall|i: int| 0 <= i < old(self).keys().len() && old(self).keys()[i] == key@ ==> {
                    &&& old(self).content_at(i) == StoreContent::NestedStore(*s)
                    &&& final(self).identifier_view() == old(self).identifier_view()
                    &&& final(self).keys() == old(self).keys()
                    &&& final(self).content_at(i) == StoreContent::NestedStore(*final(s))
                    &&& forall|j: int| 0 <= j < old(self).keys().len() && j != i
                        ==> final(self).content_at(j) == old(self).content_at(j)
                },
                None => {
                    &&& final(self).identifier_view() == old(self).identifier_view()
                    &&& final(self).keys() == old(self).keys()
                    &&& forall|j: int| 0 <= j < old(self).keys().len()
                        ==> final(self).content_at(j) == old(self).content_at(j)
                },
            },
    {
        match self.position(key.as_str()) {
            Some(i) => {
                proof {
                    self.lemma_key_unique(i as int);
                    let d = self.data@;
                    assert forall|v: StoreContent| #[trigger] keys_of(d.update(i as int, (d[i as int].0, v))) == keys_of(d) by {
                        assert(keys_of(d.update(i as int, (d[i as int].0, v))) =~= keys_of(d));
                    }
                    assert(d.update(i as int, d[i as int]) =~= d);
                }
                nested_of(&mut self.data[i])
            },
            None => None,
        }
    }
}

} // verus!
