//! The manifest: the per-run record mapping each original root-relative
//! path to its hashed output path.
//!
//! A run starts from an empty manifest, gains exactly one entry per
//! successfully processed file, and serializes the result once, as
//! pretty-printed JSON with sorted keys, so that equal runs produce
//! byte-identical manifests.

use crate::paths::str_eq;
use crate::StaticPreprocessingError;
use vstd::prelude::*;
use vstd::string::*;

verus! {

broadcast use vstd::set::axiom_set_insert_len;

/// The JSON object text the serializer produces for a path mapping:
/// one string member per entry, keys sorted, pretty-printed.
pub uninterp spec fn manifest_json_of(m: Map<Seq<char>, Seq<char>>) -> Seq<char>;

/// The mapping a list of entries stands for; a later entry with the
/// same key would override an earlier one.
pub open spec fn entries_to_map(s: Seq<(String, String)>) -> Map<Seq<char>, Seq<char>>
    decreases s.len(),
{
    if s.len() == 0 {
        Map::empty()
    } else {
        entries_to_map(s.drop_last()).insert(s.last().0@, s.last().1@)
    }
}

/// Entry keys are pairwise distinct.
pub open spec fn keys_distinct(s: Seq<(String, String)>) -> bool {
    forall|i: int, j: int| 0 <= i < j < s.len() ==> s[i].0@ != s[j].0@
}

/// A key is in the mapping exactly when some entry carries it.
pub proof fn lemma_entries_to_map_dom(s: Seq<(String, String)>)
    ensures
        forall|k: Seq<char>|
            entries_to_map(s).contains_key(k) <==> exists|i: int| 0 <= i < s.len() && s[i].0@ == k,
        entries_to_map(s).dom().finite(),
    decreases s.len(),
{
    if s.len() > 0 {
        lemma_entries_to_map_dom(s.drop_last());
        assert(forall|k: Seq<char>|
            entries_to_map(s).contains_key(k) <==> exists|i: int|
                0 <= i < s.len() && s[i].0@ == k) by {
            assert forall|k: Seq<char>| entries_to_map(s).contains_key(k) implies exists|i: int|
                0 <= i < s.len() && s[i].0@ == k by {
                if k != s.last().0@ {
                    let i = choose|i: int| 0 <= i < s.len() - 1 && s.drop_last()[i].0@ == k;
                    assert(s[i].0@ == k);
                }
            }
            assert forall|k: Seq<char>|
                (exists|i: int| 0 <= i < s.len() && s[i].0@ == k) implies entries_to_map(
                s,
            ).contains_key(k) by {
                let i = choose|i: int| 0 <= i < s.len() && s[i].0@ == k;
                if i < s.len() - 1 {
                    assert(s.drop_last()[i].0@ == k);
                }
            }
        }
    }
}

/// With distinct keys, each entry's key maps to that entry's value.
pub proof fn lemma_entries_to_map_at(s: Seq<(String, String)>, i: int)
    requires
        keys_distinct(s),
        0 <= i < s.len(),
    ensures
        entries_to_map(s).contains_key(s[i].0@),
        entries_to_map(s)[s[i].0@] == s[i].1@,
    decreases s.len(),
{
    if i < s.len() - 1 {
        assert(s.drop_last()[i] == s[i]);
        lemma_entries_to_map_at(s.drop_last(), i);
    }
}

/// With distinct keys, the mapping has exactly one entry per list
/// entry.
pub proof fn lemma_entries_to_map_len(s: Seq<(String, String)>)
    requires
        keys_distinct(s),
    ensures
        entries_to_map(s).dom().len() == s.len(),
    decreases s.len(),
{
    lemma_entries_to_map_dom(s);
    if s.len() > 0 {
        lemma_entries_to_map_len(s.drop_last());
        lemma_entries_to_map_dom(s.drop_last());
        assert(!entries_to_map(s.drop_last()).contains_key(s.last().0@));
    }
}

/// Relies on `serde_json::to_string_pretty` over `serde_json::Map`,
/// which is backed by an ordered map, so the text is a function of the
/// key-value pairs alone (keys sorted; a later duplicate key would win,
/// as in `entries_to_map`).  It always succeeds here: serialization of
/// a string-keyed map of strings into an in-memory buffer has no
/// failure path.  The `Err` arm only converts the impossible error.
#[verifier::external_body]
fn to_pretty_json(entries: &Vec<(String, String)>) -> (r: Result<
    String,
    StaticPreprocessingError,
>)
    ensures
        r is Ok,
        r matches Ok(s) ==> s@ == manifest_json_of(entries_to_map(entries@)),
{
    let map: serde_json::Map<String, serde_json::Value> = entries
        .iter()
        .map(|(k, v)| (k.clone(), serde_json::Value::String(v.clone())))
        .collect();
    serde_json::to_string_pretty(&map).map_err(
        |e| StaticPreprocessingError::IOError(e.to_string()),
    )
}

/// The per-run record of original path to hashed output path, with one
/// entry per key.
pub struct Manifest {
    entries: Vec<(String, String)>,
}

impl Manifest {
    /// The mapping this manifest stands for.
    pub closed spec fn as_map(self) -> Map<Seq<char>, Seq<char>> {
        entries_to_map(self.entries@)
    }

    /// Well-formed: one entry per key.
    pub closed spec fn wf(self) -> bool {
        keys_distinct(self.entries@)
    }

    /// The empty manifest every run starts from.
    pub fn new() -> (m: Manifest)
        ensures
            m.wf(),
            m.as_map() == Map::<Seq<char>, Seq<char>>::empty(),
    {
        Manifest { entries: Vec::new() }
    }

    /// The number of entries.
    pub fn len(&self) -> (n: usize)
        requires
            self.wf(),
        ensures
            n == self.as_map().dom().len(),
    {
        proof {
            lemma_entries_to_map_len(self.entries@);
        }
        self.entries.len()
    }

    /// Whether a path has an entry.
    pub fn contains_key(&self, key: &str) -> (r: bool)
        ensures
            r == self.as_map().contains_key(key@),
    {
        proof {
            lemma_entries_to_map_dom(self.entries@);
        }
        let n = self.entries.len();
        let mut i: usize = 0;
        while i < n
            invariant
                n == self.entries@.len(),
                i <= n,
                forall|j: int| 0 <= j < i ==> self.entries@[j].0@ != key@,
            decreases n - i,
        {
            if str_eq(self.entries[i].0.as_str(), key) {
                proof {
                    assert(exists|j: int| 0 <= j < self.entries@.len() && self.entries@[j].0@
                        == key@) by {
                        assert(self.entries@[i as int].0@ == key@);
                    }
                    lemma_entries_to_map_dom(self.entries@);
                    assert(entries_to_map(self.entries@).contains_key(key@));
                }
                return true;
            }
            i += 1;
        }
        false
    }

    /// The hashed path recorded for `key`, if any.
    pub fn get(&self, key: &str) -> (r: Option<&String>)
        requires
            self.wf(),
        ensures
            (r is Some) == self.as_map().contains_key(key@),
            r matches Some(v) ==> self.as_map()[key@] == v@,
    {
        proof {
            lemma_entries_to_map_dom(self.entries@);
        }
        let n = self.entries.len();
        let mut i: usize = 0;
        while i < n
            invariant
                self.wf(),
                n == self.entries@.len(),
                i <= n,
                forall|j: int| 0 <= j < i ==> self.entries@[j].0@ != key@,
            decreases n - i,
        {
            if str_eq(self.entries[i].0.as_str(), key) {
                proof {
                    lemma_entries_to_map_at(self.entries@, i as int);
                }
                return Some(&self.entries[i].1);
            }
            i += 1;
        }
        proof {
            lemma_entries_to_map_dom(self.entries@);
        }
        None
    }

    /// Records `key → value`.  Keys are unique per run: the key must be
    /// fresh, which [`Manifest::contains_key`] can check.
    pub fn insert(&mut self, key: String, value: String)
        requires
            old(self).wf(),
            !old(self).as_map().contains_key(key@),
        ensures
            final(self).wf(),
            final(self).as_map() == old(self).as_map().insert(key@, value@),
    {
        proof {
            lemma_entries_to_map_dom(self.entries@);
        }
        let ghost before = self.entries@;
        self.entries.push((key, value));
        proof {
            assert(self.entries@.drop_last() =~= before);
        }
    }

    /// The serialized manifest: pretty-printed JSON, one member per
    /// entry, keys sorted.  Serialization always succeeds; the `Result`
    /// only mirrors the underlying serializer's signature.
    pub fn serialize(&self) -> (r: Result<String, StaticPreprocessingError>)
        ensures
            r is Ok,
            r matches Ok(s) ==> s@ == manifest_json_of(self.as_map()),
    {
        to_pretty_json(&self.entries)
    }
}

} // verus!
