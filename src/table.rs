use std::collections::HashMap;
use std::hash::BuildHasherDefault;
use vstd::prelude::*;
use wyhash2::WyHash;
use crate::lang::Lang;

verus! {

/// Score of a language for a gram that the language does not list, in
/// billionths (7.0). Stored scores never exceed it.
pub const PENALTY: u64 = 7_000_000_000;

/// A hash map from gram to its `(language, score)` list, hashed with
/// wyhash2's `WyHash`. Verus models hash maps only for keys such as integers,
/// so this one is held out of view and reached through the wrappers below,
/// whose contracts speak of `gram_map_contents`.
#[verifier::external_body]
pub struct GramMap {
    map: HashMap<String, Vec<(Lang, u64)>, BuildHasherDefault<WyHash>>,
}

/// What a gram map holds: for each gram, its list of `(language, score)` pairs.
pub uninterp spec fn gram_map_contents(m: GramMap) -> Map<Seq<char>, Seq<(Lang, u64)>>;

impl View for GramMap {
    type V = Map<Seq<char>, Seq<(Lang, u64)>>;

    open spec fn view(&self) -> Map<Seq<char>, Seq<(Lang, u64)>> {
        gram_map_contents(*self)
    }
}

impl GramMap {
    /// Relies on `HashMap::default`: a new map is empty.
    #[verifier::external_body]
    pub(crate) fn new() -> (r: GramMap)
        ensures
            gram_map_contents(r).dom() == Set::<Seq<char>>::empty(),
    {
        GramMap { map: HashMap::default() }
    }

    /// Relies on `HashMap::get`: the list stored under `key`, if any.
    #[verifier::external_body]
    pub(crate) fn get(&self, key: &Vec<char>) -> (r: Option<&Vec<(Lang, u64)>>)
        ensures
            r matches Some(v) ==> gram_map_contents(*self).contains_key(key@) && v@ == gram_map_contents(*self)[key@],
            r is None ==> !gram_map_contents(*self).contains_key(key@),
    {
        let k: String = key.iter().collect();
        self.map.get(&k)
    }

    /// Relies on `HashMap::remove`: takes out the list stored under `key`.
    #[verifier::external_body]
    pub(crate) fn remove(&mut self, key: &Vec<char>) -> (r: Option<Vec<(Lang, u64)>>)
        ensures
            gram_map_contents(*final(self)) == gram_map_contents(*old(self)).remove(key@),
            r matches Some(v) ==> gram_map_contents(*old(self)).contains_key(key@) && v@ == gram_map_contents(*old(self))[key@],
            r is None ==> !gram_map_contents(*old(self)).contains_key(key@),
    {
        let k: String = key.iter().collect();
        self.map.remove(&k)
    }

    /// Relies on `HashMap::insert`: stores `v` under `key`, replacing what was there.
    #[verifier::external_body]
    pub(crate) fn insert(&mut self, key: Vec<char>, v: Vec<(Lang, u64)>)
        ensures
            gram_map_contents(*final(self)) == gram_map_contents(*old(self)).insert(key@, v@),
    {
        let k: String = key.into_iter().collect();
        self.map.insert(k, v);
    }

    /// Relies on `HashMap::len`: the number of grams held.
    #[verifier::external_body]
    pub(crate) fn len(&self) -> (r: usize)
        ensures
            r == gram_map_contents(*self).len(),
    {
        self.map.len()
    }

    /// Relies on `HashMap::iter`: every gram with its list, once each, in the
    /// order the map is walked.
    #[verifier::external_body]
    pub(crate) fn entries(&self) -> (r: Vec<(Vec<char>, Vec<(Lang, u64)>)>)
        ensures
            r@.len() == gram_map_contents(*self).len(),
            forall|j: int|
                0 <= j < r@.len() ==> gram_map_contents(*self).contains_key(#[trigger] r@[j].0@) && gram_map_contents(*self)[r@[j].0@]
                    == r@[j].1@,
            forall|j: int, k: int| 0 <= j < k < r@.len() ==> r@[j].0@ != r@[k].0@,
            forall|g: Seq<char>|
                gram_map_contents(*self).contains_key(g) ==> exists|j: int| 0 <= j < r@.len() && #[trigger] r@[j].0@ == g,
    {
        self.map.iter().map(|(k, v)| (k.chars().collect(), v.clone())).collect()
    }
}

/// A list of `(language, score)` pairs as a table may hold it: languages
/// distinct, every score at most the penalty.
pub open spec fn pairs_ok(e: Seq<(Lang, u64)>) -> bool {
    &&& forall|j: int, k: int| 0 <= j < k < e.len() ==> e[j].0 != e[k].0
    &&& forall|j: int| 0 <= j < e.len() ==> e[j].1 <= PENALTY
}

/// A table entry: a non-empty list of pairs.
pub open spec fn entry_ok(e: Seq<(Lang, u64)>) -> bool {
    e.len() > 0 && pairs_ok(e)
}

/// Every entry of a gram map is well formed.
pub open spec fn grams_ok(m: Map<Seq<char>, Seq<(Lang, u64)>>) -> bool {
    forall|g: Seq<char>| m.contains_key(g) ==> entry_ok(#[trigger] m[g])
}

} // verus!
