//! The option map of one ruleset: string keys to string values.

use vstd::prelude::*;

verus! {

/// The map that a sequence of assignments leaves: later assignments to a
/// key replace earlier ones.
pub open spec fn map_of(entries: Seq<(String, String)>) -> Map<Seq<char>, Seq<char>>
    decreases entries.len(),
{
    if entries.len() == 0 {
        Map::empty()
    } else {
        map_of(entries.drop_last()).insert(entries.last().0@, entries.last().1@)
    }
}

/// Options of a ruleset, each key holding one value.
#[derive(Debug)]
pub struct OptionMap {
    entries: Vec<(String, String)>,
}

impl View for OptionMap {
    type V = Map<Seq<char>, Seq<char>>;

    closed spec fn view(&self) -> Map<Seq<char>, Seq<char>> {
        map_of(self.entries@)
    }
}

impl OptionMap {
    /// A map with no options.
    pub fn new() -> (r: OptionMap)
        ensures
            r@ == Map::<Seq<char>, Seq<char>>::empty(),
    {
        OptionMap { entries: Vec::new() }
    }

    /// Sets `key` to `value`, replacing what `key` held before.
    pub fn insert(&mut self, key: String, value: String)
        ensures
            final(self)@ == old(self)@.insert(key@, value@),
    {
        self.entries.push((key, value));
        assert(self.entries@.drop_last() =~= old(self).entries@);
    }

    /// The value that `key` holds, if any.
    pub fn get(&self, key: &str) -> (r: Option<String>)
        ensures
            r.is_some() == self@.contains_key(key@),
            r matches Some(v) ==> v@ == self@[key@],
    {
        let n = self.entries.len();
        let mut found: Option<usize> = None;
        let mut i: usize = 0;
        assert(self.entries@.take(0) =~= Seq::<(String, String)>::empty());
        while i < n
            invariant
                n == self.entries@.len(),
                i <= n,
                found.is_some() == map_of(self.entries@.take(i as int)).contains_key(key@),
                found matches Some(j) ==> j < i && self.entries@[j as int].1@ == map_of(
                    self.entries@.take(i as int),
                )[key@],
            decreases n - i,
        {
            assert(self.entries@.take(i + 1).drop_last() =~= self.entries@.take(i as int));
            let k = self.entries[i].0.as_str();
            if crate::text::same_text(k, key) {
                found = Some(i);
            }
            i = i + 1;
        }
        assert(self.entries@.take(n as int) =~= self.entries@);
        match found {
            Some(j) => Some(self.entries[j].1.clone()),
            None => None,
        }
    }

    /// Whether `key` holds a value.
    pub fn contains_key(&self, key: &str) -> (r: bool)
        ensures
            r == self@.contains_key(key@),
    {
        self.get(key).is_some()
    }
}

} // verus!
