//! The persistent key-value store, and the storage laws.
//!
//! Every persistent entry lives in a map namespace identified by the pair
//! (contract identity, map name); two contracts declaring maps of the same
//! name do not collide.  The store's abstract state is a set of declared
//! namespaces together with a mathematical map from (contract, map, key)
//! triples to values.

use vstd::prelude::*;
use crate::types::Value;
use crate::errors::{ErrKind, Error};

verus! {

/// The abstract address of one stored entry: contract identity, map name, key.
pub type StoreKey = (Seq<char>, Seq<char>, Value);

/// One physical entry of the store.
struct Entry {
    contract: String,
    map: String,
    key: Value,
    value: Value,
}

/// The abstract address of a physical entry.
spec fn entry_key(e: Entry) -> StoreKey {
    (e.contract@, e.map@, e.key)
}

/// The mathematical contents of a sequence of entries; a later entry for an
/// address would win, though a well-formed store never holds two.
spec fn contents_of(s: Seq<Entry>) -> Map<StoreKey, Value>
    decreases s.len(),
{
    if s.len() == 0 {
        Map::empty()
    } else {
        contents_of(s.drop_last()).insert(entry_key(s.last()), s.last().value)
    }
}

/// No two entries of `s` share an address.
spec fn unique_keys(s: Seq<Entry>) -> bool {
    forall|i: int, j: int| 0 <= i < j < s.len() ==> entry_key(s[i]) != entry_key(s[j])
}

/// What a fetch of `k` observes in contents `m`: the stored value, or the
/// language's absent value when no entry exists.
pub open spec fn fetch_result(m: Map<StoreKey, Value>, k: StoreKey) -> Value {
    if m.contains_key(k) {
        m[k]
    } else {
        Value::Void
    }
}

/// Message of the error raised when a map was never declared by the contract.
pub open spec fn msg_unknown_map() -> Seq<char> {
    "attempted to access an undefined map"@
}

/// The result is a freshly raised undefined-map error: the storage
/// collaborator's error for an undeclared (contract, map) namespace, its
/// trace slot still empty.
pub open spec fn is_unknown_map_err(r: Result<Value, Error>) -> bool {
    &&& r matches Err(e)
    &&& e.kind == ErrKind::UnknownMap
    &&& e.message@ == msg_unknown_map()
    &&& e.trace matches Some(t)
    &&& t@.len() == 0
}

/// An address is in the contents of `s` exactly when some entry carries it.
proof fn lemma_contents_of_key(s: Seq<Entry>, k: StoreKey)
    ensures
        contents_of(s).contains_key(k) <==> exists|i: int| 0 <= i < s.len() && entry_key(s[i]) == k,
    decreases s.len(),
{
    if s.len() > 0 {
        lemma_contents_of_key(s.drop_last(), k);
        if entry_key(s.last()) == k {
            assert(entry_key(s[s.len() - 1]) == k);
        } else {
            if exists|i: int| 0 <= i < s.len() && entry_key(s[i]) == k {
                let i = choose|i: int| 0 <= i < s.len() && entry_key(s[i]) == k;
                assert(s.drop_last()[i] == s[i]);
            }
            if exists|i: int| 0 <= i < s.drop_last().len() && entry_key(s.drop_last()[i]) == k {
                let i = choose|i: int|
                    0 <= i < s.drop_last().len() && entry_key(s.drop_last()[i]) == k;
                assert(s[i] == s.drop_last()[i]);
            }
        }
    }
}

/// Dropping the last entry preserves key uniqueness.
proof fn lemma_unique_drop_last(s: Seq<Entry>)
    requires
        unique_keys(s),
        s.len() > 0,
    ensures
        unique_keys(s.drop_last()),
{
    assert forall|i: int, j: int| 0 <= i < j < s.drop_last().len() implies entry_key(
        s.drop_last()[i],
    ) != entry_key(s.drop_last()[j]) by {
        assert(s.drop_last()[i] == s[i]);
        assert(s.drop_last()[j] == s[j]);
    }
}

/// In a store without duplicate addresses, the contents at an entry's
/// address is that entry's value.
proof fn lemma_contents_of_value(s: Seq<Entry>, i: int)
    requires
        unique_keys(s),
        0 <= i < s.len(),
    ensures
        contents_of(s).contains_key(entry_key(s[i])),
        contents_of(s)[entry_key(s[i])] == s[i].value,
    decreases s.len(),
{
    if i < s.len() - 1 {
        lemma_unique_drop_last(s);
        lemma_contents_of_value(s.drop_last(), i);
        assert(s.drop_last()[i] == s[i]);
        assert(entry_key(s.last()) != entry_key(s[i]));
    }
}

/// Removing the entry at an address removes exactly that address from the
/// contents, and preserves key uniqueness.
proof fn lemma_contents_of_remove(s: Seq<Entry>, i: int)
    requires
        unique_keys(s),
        0 <= i < s.len(),
    ensures
        unique_keys(s.remove(i)),
        contents_of(s.remove(i)) == contents_of(s).remove(entry_key(s[i])),
    decreases s.len(),
{
    let k = entry_key(s[i]);
    let r = s.remove(i);
    assert forall|a: int, b: int| 0 <= a < b < r.len() implies entry_key(r[a]) != entry_key(
        r[b],
    ) by {
        let a2: int = if a < i { a } else { a + 1 };
        let b2: int = if b < i { b } else { b + 1 };
        assert(r[a] == s[a2]);
        assert(r[b] == s[b2]);
    }
    if i == s.len() - 1 {
        assert(r =~= s.drop_last());
        lemma_unique_drop_last(s);
        lemma_contents_of_key(s.drop_last(), k);
        assert(!contents_of(s.drop_last()).contains_key(k)) by {
            if exists|j: int| 0 <= j < s.drop_last().len() && entry_key(s.drop_last()[j]) == k {
                let j = choose|j: int|
                    0 <= j < s.drop_last().len() && entry_key(s.drop_last()[j]) == k;
                assert(s.drop_last()[j] == s[j]);
            }
        }
        assert(contents_of(s.remove(i)) =~= contents_of(s).remove(k));
    } else {
        lemma_unique_drop_last(s);
        assert(r.drop_last() =~= s.drop_last().remove(i));
        assert(r.last() == s.last());
        assert(s.drop_last()[i] == s[i]);
        lemma_contents_of_remove(s.drop_last(), i);
        assert(entry_key(s.last()) != k);
        assert(contents_of(r) == contents_of(s.drop_last()).remove(k).insert(
            entry_key(s.last()),
            s.last().value,
        ));
        assert(contents_of(s.drop_last()).remove(k).insert(entry_key(s.last()), s.last().value)
            =~= contents_of(s.drop_last()).insert(entry_key(s.last()), s.last().value).remove(k));
    }
}

/// The persistent store: declared map namespaces and their entries.
pub struct DataStore {
    maps: Vec<(String, String)>,
    entries: Vec<Entry>,
}

impl DataStore {
    /// The set of declared (contract identity, map name) namespaces.
    pub closed spec fn declared(self) -> Set<(Seq<char>, Seq<char>)> {
        Set::new(
            |p: (Seq<char>, Seq<char>)|
                exists|i: int|
                    0 <= i < self.maps@.len() && (self.maps@[i].0@, self.maps@[i].1@) == p,
        )
    }

    /// The mathematical contents of the store.
    pub closed spec fn contents(self) -> Map<StoreKey, Value> {
        contents_of(self.entries@)
    }

    /// Well-formedness: at most one entry per address.
    pub closed spec fn wf(self) -> bool {
        unique_keys(self.entries@)
    }

    /// An empty store: nothing declared, nothing stored.
    pub fn new() -> (s: DataStore)
        ensures
            s.wf(),
            s.declared() == Set::<(Seq<char>, Seq<char>)>::empty(),
            s.contents() == Map::<StoreKey, Value>::empty(),
    {
        let s = DataStore { maps: Vec::new(), entries: Vec::new() };
        proof {
            assert(s.declared() =~= Set::<(Seq<char>, Seq<char>)>::empty());
            assert(s.contents() =~= Map::<StoreKey, Value>::empty());
        }
        s
    }

    /// Declares a map namespace for a contract.  Contract loading, where
    /// declarations originate, is a collaborator of this layer.
    pub fn define_map(&mut self, contract: &String, map_name: &String)
        requires
            old(self).wf(),
        ensures
            final(self).wf(),
            final(self).contents() == old(self).contents(),
            final(self).declared() == old(self).declared().insert((contract@, map_name@)),
    {
        self.maps.push((contract.clone(), map_name.clone()));
        proof {
            let pre = *old(self);
            let post = *self;
            let k = (contract@, map_name@);
            assert(post.maps@[post.maps@.len() - 1].0@ == contract@);
            assert forall|p: (Seq<char>, Seq<char>)| post.declared().contains(p) implies
                pre.declared().insert(k).contains(p) by {
                let i = choose|i: int|
                    0 <= i < post.maps@.len() && (post.maps@[i].0@, post.maps@[i].1@) == p;
                if i < pre.maps@.len() {
                    assert(pre.maps@[i] == post.maps@[i]);
                    assert(pre.declared().contains(p));
                } else {
                    assert(p == k);
                }
            }
            assert forall|p: (Seq<char>, Seq<char>)| pre.declared().insert(k).contains(p) implies
                post.declared().contains(p) by {
                if pre.declared().contains(p) {
                    let i = choose|i: int|
                        0 <= i < pre.maps@.len() && (pre.maps@[i].0@, pre.maps@[i].1@) == p;
                    assert(post.maps@[i] == pre.maps@[i]);
                    assert((post.maps@[i].0@, post.maps@[i].1@) == p);
                } else {
                    let i = post.maps@.len() - 1;
                    assert((post.maps@[i].0@, post.maps@[i].1@) == p);
                }
            }
            assert(post.declared() =~= pre.declared().insert(k));
        }
    }

    /// Whether the (contract, map) namespace is declared.
    fn is_declared(&self, contract: &String, map_name: &String) -> (r: bool)
        ensures
            r == self.declared().contains((contract@, map_name@)),
    {
        let mut i: usize = 0;
        while i < self.maps.len()
            invariant
                0 <= i <= self.maps@.len(),
                forall|j: int|
                    0 <= j < i ==> (self.maps@[j].0@, self.maps@[j].1@) != (contract@, map_name@),
            decreases self.maps@.len() - i,
        {
            if self.maps[i].0 == *contract && self.maps[i].1 == *map_name {
                proof {
                    assert((self.maps@[i as int].0@, self.maps@[i as int].1@) == (
                        contract@,
                        map_name@,
                    ));
                }
                return true;
            }
            i = i + 1;
        }
        false
    }

    /// The index of the entry at the given address, if one exists.
    fn find_entry(&self, contract: &String, map_name: &String, key: &Value) -> (r: Option<usize>)
        ensures
            r matches Some(i) ==> 0 <= i < self.entries@.len() && entry_key(
                self.entries@[i as int],
            ) == (contract@, map_name@, *key),
            r is None ==> forall|j: int|
                0 <= j < self.entries@.len() ==> entry_key(self.entries@[j]) != (
                    contract@,
                    map_name@,
                    *key,
                ),
    {
        let mut i: usize = 0;
        while i < self.entries.len()
            invariant
                0 <= i <= self.entries@.len(),
                forall|j: int|
                    0 <= j < i ==> entry_key(self.entries@[j]) != (contract@, map_name@, *key),
            decreases self.entries@.len() - i,
        {
            if self.entries[i].contract == *contract && self.entries[i].map == *map_name
                && self.entries[i].key == *key {
                return Some(i);
            }
            i = i + 1;
        }
        None
    }

    /// Fetch: the stored value for the key, or the absent value `Void` when
    /// no entry exists in that (contract, map) namespace.  Read-only.
    pub fn fetch_entry(&self, contract: &String, map_name: &String, key: &Value) -> (r: Result<
        Value,
        Error,
    >)
        requires
            self.wf(),
        ensures
            !self.declared().contains((contract@, map_name@)) ==> is_unknown_map_err(r),
            self.declared().contains((contract@, map_name@)) ==> r == Ok::<Value, Error>(
                fetch_result(self.contents(), (contract@, map_name@, *key)),
            ),
    {
        if !self.is_declared(contract, map_name) {
            return Err(
                Error::new(ErrKind::UnknownMap, "attempted to access an undefined map".to_owned()),
            );
        }
        proof {
            lemma_contents_of_key(self.entries@, (contract@, map_name@, *key));
        }
        match self.find_entry(contract, map_name, key) {
            Some(i) => {
                proof {
                    lemma_contents_of_value(self.entries@, i as int);
                }
                Ok(self.entries[i].value)
            },
            None => Ok(Value::Void),
        }
    }

    /// Set: unconditionally writes the entry for the key, creating or
    /// overwriting; succeeds whenever the map is declared.
    pub fn set_entry(
        &mut self,
        contract: &String,
        map_name: &String,
        key: Value,
        value: Value,
    ) -> (r: Result<Value, Error>)
        requires
            old(self).wf(),
        ensures
            final(self).wf(),
            final(self).declared() == old(self).declared(),
            !old(self).declared().contains((contract@, map_name@)) ==> *final(self) == *old(self)
                && is_unknown_map_err(r),
            old(self).declared().contains((contract@, map_name@)) ==> r == Ok::<Value, Error>(
                Value::Bool(true),
            ) && final(self).contents() == old(self).contents().insert(
                (contract@, map_name@, key),
                value,
            ),
    {
        if !self.is_declared(contract, map_name) {
            return Err(
                Error::new(ErrKind::UnknownMap, "attempted to access an undefined map".to_owned()),
            );
        }
        let ghost k3: StoreKey = (contract@, map_name@, key);
        let ghost pre = *self;
        match self.find_entry(contract, map_name, &key) {
            Some(i) => {
                proof {
                    lemma_contents_of_remove(self.entries@, i as int);
                }
                let _ = self.entries.remove(i);
                proof {
                    assert(contents_of(self.entries@) == pre.contents().remove(k3));
                    assert forall|j: int| 0 <= j < self.entries@.len() implies entry_key(
                        self.entries@[j],
                    ) != k3 by {
                        let j2: int = if j < i { j } else { j + 1 };
                        assert(self.entries@[j] == pre.entries@[j2]);
                    }
                }
            },
            None => {},
        }
        let ghost mid = *self;
        let e = Entry { contract: contract.clone(), map: map_name.clone(), key, value };
        self.entries.push(e);
        proof {
            assert(entry_key(e) == k3);
            assert(self.entries@.drop_last() =~= mid.entries@);
            assert(contents_of(self.entries@) == contents_of(mid.entries@).insert(k3, value));
            assert(contents_of(mid.entries@).insert(k3, value) =~= pre.contents().insert(
                k3,
                value,
            ));
            assert forall|a: int, b: int|
                0 <= a < b < self.entries@.len() implies entry_key(self.entries@[a]) != entry_key(
                self.entries@[b],
            ) by {
                if b < self.entries@.len() - 1 {
                    assert(self.entries@[a] == mid.entries@[a]);
                    assert(self.entries@[b] == mid.entries@[b]);
                } else {
                    assert(self.entries@[a] == mid.entries@[a]);
                    assert(entry_key(mid.entries@[a]) != k3);
                }
            }
            assert(self.declared() =~= pre.declared());
        }
        Ok(Value::Bool(true))
    }

    /// Insert: writes the entry only if no prior entry exists for the key;
    /// the result reports whether a write happened.
    pub fn insert_entry(
        &mut self,
        contract: &String,
        map_name: &String,
        key: Value,
        value: Value,
    ) -> (r: Result<Value, Error>)
        requires
            old(self).wf(),
        ensures
            final(self).wf(),
            final(self).declared() == old(self).declared(),
            !old(self).declared().contains((contract@, map_name@)) ==> *final(self) == *old(self)
                && is_unknown_map_err(r),
            old(self).declared().contains((contract@, map_name@)) && old(self).contents()
                .contains_key((contract@, map_name@, key)) ==> *final(self) == *old(self) && r
                == Ok::<Value, Error>(Value::Bool(false)),
            old(self).declared().contains((contract@, map_name@)) && !old(self).contents()
                .contains_key((contract@, map_name@, key)) ==> r == Ok::<Value, Error>(
                Value::Bool(true),
            ) && final(self).contents() == old(self).contents().insert(
                (contract@, map_name@, key),
                value,
            ),
    {
        if !self.is_declared(contract, map_name) {
            return Err(
                Error::new(ErrKind::UnknownMap, "attempted to access an undefined map".to_owned()),
            );
        }
        let ghost k3: StoreKey = (contract@, map_name@, key);
        let ghost pre = *self;
        proof {
            lemma_contents_of_key(self.entries@, k3);
        }
        match self.find_entry(contract, map_name, &key) {
            Some(_) => Ok(Value::Bool(false)),
            None => {
                let e = Entry { contract: contract.clone(), map: map_name.clone(), key, value };
                self.entries.push(e);
                proof {
                    assert(entry_key(e) == k3);
                    assert(self.entries@.drop_last() =~= pre.entries@);
                    assert(contents_of(self.entries@) == pre.contents().insert(k3, value));
                    assert forall|a: int, b: int|
                        0 <= a < b < self.entries@.len() implies entry_key(self.entries@[a])
                        != entry_key(self.entries@[b]) by {
                        if b < self.entries@.len() - 1 {
                            assert(self.entries@[a] == pre.entries@[a]);
                            assert(self.entries@[b] == pre.entries@[b]);
                        } else {
                            assert(self.entries@[a] == pre.entries@[a]);
                            assert(entry_key(pre.entries@[a]) != k3);
                        }
                    }
                    assert(self.declared() =~= pre.declared());
                }
                Ok(Value::Bool(true))
            },
        }
    }

    /// Delete: removes the entry for the key if present; the result reports
    /// whether an entry existed.  Deleting an absent key is a valid no-op.
    pub fn delete_entry(&mut self, contract: &String, map_name: &String, key: &Value) -> (r: Result<
        Value,
        Error,
    >)
        requires
            old(self).wf(),
        ensures
            final(self).wf(),
            final(self).declared() == old(self).declared(),
            !old(self).declared().contains((contract@, map_name@)) ==> *final(self) == *old(self)
                && is_unknown_map_err(r),
            old(self).declared().contains((contract@, map_name@)) && old(self).contents()
                .contains_key((contract@, map_name@, *key)) ==> r == Ok::<Value, Error>(
                Value::Bool(true),
            ) && final(self).contents() == old(self).contents().remove(
                (contract@, map_name@, *key),
            ),
            old(self).declared().contains((contract@, map_name@)) && !old(self).contents()
                .contains_key((contract@, map_name@, *key)) ==> *final(self) == *old(self) && r
                == Ok::<Value, Error>(Value::Bool(false)),
    {
        if !self.is_declared(contract, map_name) {
            return Err(
                Error::new(ErrKind::UnknownMap, "attempted to access an undefined map".to_owned()),
            );
        }
        let ghost k3: StoreKey = (contract@, map_name@, *key);
        let ghost pre = *self;
        proof {
            lemma_contents_of_key(self.entries@, k3);
        }
        match self.find_entry(contract, map_name, key) {
            Some(i) => {
                proof {
                    lemma_contents_of_remove(self.entries@, i as int);
                }
                let _ = self.entries.remove(i);
                proof {
                    assert(self.declared() =~= pre.declared());
                }
                Ok(Value::Bool(true))
            },
            None => Ok(Value::Bool(false)),
        }
    }
}

/// Law: entries are absent until first written.  Fetching an unwritten key
/// observes the absent value; fetching right after a set observes exactly
/// the value that was set.
pub proof fn lemma_absent_until_written(m: Map<StoreKey, Value>, k: StoreKey, v: Value)
    requires
        !m.contains_key(k),
    ensures
        fetch_result(m, k) == Value::Void,
        fetch_result(m.insert(k, v), k) == v,
{
}

/// Law: insert does not overwrite.  An insert on an unwritten key stores its
/// value; a second insert on the same key is a no-op by `insert_entry`'s
/// contract (the key is then present), so a fetch still observes the first
/// value, not the second.
pub proof fn lemma_insert_then_insert(m: Map<StoreKey, Value>, k: StoreKey, v1: Value, v2: Value)
    requires
        !m.contains_key(k),
        v1 != v2,
    ensures
        m.insert(k, v1).contains_key(k),
        fetch_result(m.insert(k, v1), k) == v1,
        fetch_result(m.insert(k, v1), k) != v2,
{
}

/// Law: storage is isolated by (contract identity, map name).  Two contracts
/// writing under the same map name and the same key write to distinct
/// addresses, and each fetch observes only its own contract's value.
pub proof fn lemma_storage_isolation(
    m: Map<StoreKey, Value>,
    c1: Seq<char>,
    c2: Seq<char>,
    map_name: Seq<char>,
    key: Value,
    v1: Value,
    v2: Value,
)
    requires
        c1 != c2,
    ensures
        fetch_result(m.insert((c1, map_name, key), v1).insert((c2, map_name, key), v2), (c1, map_name, key))
            == v1,
        fetch_result(m.insert((c1, map_name, key), v1).insert((c2, map_name, key), v2), (c2, map_name, key))
            == v2,
{
}

} // verus!
