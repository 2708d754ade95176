use vstd::prelude::*;

verus! {

/// Content-keyed lookup from a tile's samples to the id of the pattern that
/// holds them, used while patterns are being discovered.
#[verifier::external_body]
pub struct PatternIndex {
    map: hashbrown::HashMap<Vec<u32>, usize>,
}

/// The entries of a `PatternIndex`, keyed by the tile's samples.
pub uninterp spec fn index_entries(m: PatternIndex) -> Map<Seq<u32>, usize>;

impl PatternIndex {
    /// Relies on hashbrown::HashMap::new: a new map holds no entry.
    #[verifier::external_body]
    pub(crate) fn new() -> (r: PatternIndex)
        ensures
            index_entries(r).dom() == Set::<Seq<u32>>::empty(),
    {
        PatternIndex { map: hashbrown::HashMap::new() }
    }

    /// Relies on hashbrown::HashMap::get: the value stored under a key equal
    /// to `key` (two `Vec<u32>` are equal when their elements are), if any.
    #[verifier::external_body]
    pub(crate) fn get(&self, key: &Vec<u32>) -> (r: Option<usize>)
        ensures
            r == (if index_entries(*self).contains_key(key@) {
                Some(index_entries(*self)[key@])
            } else {
                None
            }),
    {
        self.map.get(key).copied()
    }

    /// Relies on hashbrown::HashMap::insert: afterwards `key` maps to `value`
    /// and every other entry is unchanged.
    #[verifier::external_body]
    pub(crate) fn insert(&mut self, key: Vec<u32>, value: usize)
        ensures
            index_entries(*final(self)) == index_entries(*old(self)).insert(key@, value),
    {
        self.map.insert(key, value);
    }
}

} // verus!
