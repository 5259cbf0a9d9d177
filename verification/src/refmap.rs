//! Link reference definitions: normalized label → (raw destination, raw
//! title). A lookup sees the first entry under a label; the parser keeps the
//! first definition of a label, an explicit `insert` replaces it.

use vstd::prelude::*;
use crate::bytes::to_vec;
use crate::entities::bytes_eq;
use vstd::string::StringSliceAdditionalSpecFns;

verus! {

/// One reference definition.
pub struct RefEntry {
    pub key: Vec<u8>,
    pub dest: Vec<u8>,
    pub title: Option<Vec<u8>>,
}

/// The value of a definition as plain byte sequences.
pub type RefVal = (Seq<u8>, Option<Seq<u8>>);

pub open spec fn opt_view(o: Option<Vec<u8>>) -> Option<Seq<u8>> {
    match o {
        Some(v) => Some(v@),
        None => None,
    }
}

impl RefEntry {
    pub open spec fn val(self) -> RefVal {
        (self.dest@, opt_view(self.title))
    }
}

/// `i` is the first entry of `s` under `key`.
pub open spec fn first_at(s: Seq<RefEntry>, key: Seq<u8>, i: int) -> bool {
    0 <= i < s.len() && s[i].key@ == key && forall|j: int| 0 <= j < i ==> (#[trigger] s[j]).key@ != key
}

/// The value that a lookup of `key` sees in `s`.
pub open spec fn lookup(s: Seq<RefEntry>, key: Seq<u8>) -> Option<RefVal> {
    if exists|i: int| first_at(s, key, i) {
        Some(s[choose|i: int| first_at(s, key, i)].val())
    } else {
        None
    }
}

/// The first entry under a key is unique.
pub proof fn lemma_first_unique(s: Seq<RefEntry>, key: Seq<u8>, i: int, j: int)
    requires
        first_at(s, key, i),
        first_at(s, key, j),
    ensures
        i == j,
{
    if i < j {
        assert(s[i].key@ != key);
    } else if j < i {
        assert(s[j].key@ != key);
    }
}

/// A lookup through the first entry under the key.
pub proof fn lemma_lookup_at(s: Seq<RefEntry>, key: Seq<u8>, i: int)
    requires
        first_at(s, key, i),
    ensures
        lookup(s, key) == Some(s[i].val()),
{
    let c = choose|k: int| first_at(s, key, k);
    lemma_first_unique(s, key, i, c);
}

/// The reference definitions of a document.
pub struct RefMap {
    entries: Vec<RefEntry>,
}

impl RefMap {
    pub closed spec fn entries_spec(&self) -> Seq<RefEntry> {
        self.entries@
    }

    /// What a lookup of `key` sees.
    pub open spec fn get_spec(&self, key: Seq<u8>) -> Option<RefVal> {
        lookup(self.entries_spec(), key)
    }

    /// An empty map.
    pub fn new() -> (m: Self)
        ensures
            forall|k: Seq<u8>| m.get_spec(k) is None,
    {
        RefMap { entries: Vec::new() }
    }

    /// Number of entries.
    pub fn len(&self) -> (n: usize)
        ensures
            n == self.entries_spec().len(),
    {
        self.entries.len()
    }

    /// Remove every entry.
    pub fn clear(&mut self)
        ensures
            forall|k: Seq<u8>| final(self).get_spec(k) is None,
    {
        self.entries.clear();
    }

    /// Index of the first entry under `key`.
    fn find(&self, key: &[u8]) -> (r: Option<usize>)
        ensures
            r matches Some(i) ==> first_at(self.entries_spec(), key@, i as int),
            r is None ==> forall|i: int| 0 <= i < self.entries_spec().len() ==> (#[trigger] self.entries_spec()[i]).key@ != key@,
    {
        let mut i: usize = 0;
        while i < self.entries.len()
            invariant
                i <= self.entries@.len(),
                forall|j: int| 0 <= j < i ==> (#[trigger] self.entries@[j]).key@ != key@,
            decreases self.entries.len() - i,
        {
            if bytes_eq(self.entries[i].key.as_slice(), key) {
                return Some(i);
            }
            i += 1;
        }
        None
    }

    /// The definition under `key`, as `(destination, title)`.
    pub fn get(&self, key: &[u8]) -> (r: Option<(&[u8], Option<&[u8]>)>)
        ensures
            r is Some <==> self.get_spec(key@) is Some,
            r matches Some(p) ==> self.get_spec(key@) == Some(
                (
                    p.0@,
                    match p.1 {
                        Some(t) => Some(t@),
                        None => None,
                    },
                ),
            ),
    {
        match self.find(key) {
            Some(i) => {
                proof {
                    lemma_lookup_at(self.entries@, key@, i as int);
                }
                let e = &self.entries[i];
                let t: Option<&[u8]> = match &e.title {
                    Some(t) => Some(t.as_slice()),
                    None => None,
                };
                Some((e.dest.as_slice(), t))
            },
            None => {
                assert(!exists|i: int| first_at(self.entries@, key@, i));
                None
            },
        }
    }

    /// Keep the first definition of a label: add `(key, dest, title)` unless
    /// `key` already has one.
    pub fn insert_first(&mut self, key: Vec<u8>, dest: Vec<u8>, title: Option<Vec<u8>>)
        ensures
            old(self).get_spec(key@) is Some ==> final(self).get_spec(key@) == old(self).get_spec(key@),
            old(self).get_spec(key@) is None ==> final(self).get_spec(key@) == Some(
                (dest@, opt_view(title)),
            ),
            forall|k: Seq<u8>| k != key@ ==> final(self).get_spec(k) == old(self).get_spec(k),
    {
        let ghost old_e = self.entries@;
        match self.find(key.as_slice()) {
            Some(i) => {},
            None => {
                assert(!exists|i: int| first_at(old_e, key@, i));
                let ghost kv = key@;
                self.entries.push(RefEntry { key, dest, title });
                let ghost ne = self.entries@;
                assert(first_at(ne, kv, old_e.len() as int));
                proof {
                    lemma_lookup_at(ne, kv, old_e.len() as int);
                    assert forall|k: Seq<u8>| k != kv implies lookup(ne, k) == lookup(old_e, k) by {
                        if exists|i: int| first_at(old_e, k, i) {
                            let i = choose|i: int| first_at(old_e, k, i);
                            assert(first_at(ne, k, i));
                            lemma_lookup_at(ne, k, i);
                            lemma_lookup_at(old_e, k, i);
                        } else {
                            assert forall|i: int| !first_at(ne, k, i) by {
                                if first_at(ne, k, i) {
                                    assert(i != old_e.len());
                                    assert forall|j: int| 0 <= j < i implies (#[trigger] old_e[j]).key@ != k by {
                                        assert(ne[j] == old_e[j]);
                                    }
                                    assert(first_at(old_e, k, i));
                                }
                            }
                        }
                    }
                }
            },
        }
    }

    /// Set the definition of `key` to `value`, replacing an existing one.
    pub fn insert(&mut self, key: String, value: (String, Option<String>))
        ensures
            final(self).get_spec(vstd::utf8::encode_utf8(key@)) == Some((vstd::utf8::encode_utf8(value.0@), match value.1 { Some(t) => Some(vstd::utf8::encode_utf8(t@)), None => None })),
    {
        let k = to_vec(key.as_str().as_bytes());
        let d = to_vec(value.0.as_str().as_bytes());
        let t = match &value.1 {
            Some(t) => Some(to_vec(t.as_str().as_bytes())),
            None => None,
        };
        self.set(k, d, t);
    }

    /// Set the definition of `key` to `(dest, title)`, replacing an existing
    /// one.
    pub fn set(&mut self, key: Vec<u8>, dest: Vec<u8>, title: Option<Vec<u8>>)
        ensures
            final(self).get_spec(key@) == Some((dest@, opt_view(title))),
            forall|k: Seq<u8>| k != key@ ==> final(self).get_spec(k) == old(self).get_spec(k),
    {
        let ghost old_e = self.entries@;
        let ghost kv = key@;
        let ghost nv = (dest@, opt_view(title));
        match self.find(key.as_slice()) {
            Some(i) => {
                self.entries.set(i, RefEntry { key, dest, title });
                let ghost ne = self.entries@;
                proof {
                    assert(first_at(ne, kv, i as int));
                    lemma_lookup_at(ne, kv, i as int);
                    assert forall|k: Seq<u8>| k != kv implies lookup(ne, k) == lookup(old_e, k) by {
                        if exists|j: int| first_at(old_e, k, j) {
                            let j = choose|j: int| first_at(old_e, k, j);
                            assert(j != i);
                            assert(first_at(ne, k, j));
                            lemma_lookup_at(ne, k, j);
                            lemma_lookup_at(old_e, k, j);
                        } else {
                            assert forall|j: int| !first_at(ne, k, j) by {
                                if first_at(ne, k, j) {
                                    assert(j != i);
                                    assert forall|m: int| 0 <= m < j implies (#[trigger] old_e[m]).key@ != k by {
                                        if m != i {
                                            assert(ne[m] == old_e[m]);
                                        }
                                    }
                                    assert(first_at(old_e, k, j));
                                }
                            }
                        }
                    }
                }
            },
            None => {
                self.insert_first(key, dest, title);
            },
        }
    }
}

} // verus!
