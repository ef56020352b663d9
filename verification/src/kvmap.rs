//! A key/value store for one track's entries, with string keys and values.
//!
//! The entries are kept as a vector of pairs; the view is the `Map` obtained
//! by inserting the pairs first to last, so a later entry for the same key
//! wins, matching the accumulator's last-value-wins policy.

use vstd::prelude::*;

verus! {

/// The map denoted by a sequence of key/value pairs: pairs are inserted in
/// order, so the last pair for a key gives its value.
pub open spec fn map_of(pairs: Seq<(String, String)>) -> Map<Seq<char>, Seq<char>>
    decreases pairs.len(),
{
    if pairs.len() == 0 {
        Map::empty()
    } else {
        map_of(pairs.drop_last()).insert(pairs.last().0@, pairs.last().1@)
    }
}

/// A mapping from key names to values, as accumulated for one track.
pub struct KvMap {
    pairs: Vec<(String, String)>,
}

impl View for KvMap {
    type V = Map<Seq<char>, Seq<char>>;

    closed spec fn view(&self) -> Map<Seq<char>, Seq<char>> {
        map_of(self.pairs@)
    }
}

impl DeepView for KvMap {
    type V = Map<Seq<char>, Seq<char>>;

    open spec fn deep_view(&self) -> Map<Seq<char>, Seq<char>> {
        self.view()
    }
}

impl KvMap {
    /// The empty mapping.
    pub fn new() -> (m: KvMap)
        ensures
            m@ == Map::<Seq<char>, Seq<char>>::empty(),
    {
        KvMap { pairs: Vec::new() }
    }

    /// Inserts `value` under `key`, overwriting any earlier entry for `key`.
    pub fn set(&mut self, key: String, value: String)
        ensures
            final(self)@ == old(self)@.insert(key@, value@),
    {
        self.pairs.push((key, value));
        proof {
            assert(self.pairs@.drop_last() =~= old(self).pairs@);
        }
    }

    /// Looks `key` up, returning a copy of its value if the key is present.
    pub fn get(&self, key: &String) -> (r: Option<String>)
        ensures
            match r {
                Some(v) => self@.contains_key(key@) && self@[key@] == v@,
                None => !self@.contains_key(key@),
            },
    {
        let mut found: Option<String> = None;
        let n = self.pairs.len();
        let mut i: usize = 0;
        while i < n
            invariant
                i <= n,
                n == self.pairs.len(),
                match found {
                    Some(v) => map_of(self.pairs@.take(i as int)).contains_key(key@)
                        && map_of(self.pairs@.take(i as int))[key@] == v@,
                    None => !map_of(self.pairs@.take(i as int)).contains_key(key@),
                },
            decreases n - i,
        {
            proof {
                assert(self.pairs@.take(i + 1).drop_last() =~= self.pairs@.take(i as int));
                assert(self.pairs@.take(i + 1).last() == self.pairs@[i as int]);
            }
            if self.pairs[i].0 == *key {
                found = Some(self.pairs[i].1.clone());
            }
            i += 1;
        }
        proof {
            assert(self.pairs@.take(n as int) =~= self.pairs@);
        }
        found
    }
}

} // verus!
