//! An owned cache for the results of formatted calculations, keyed by free
//! text.
//!
//! The cache is explicit shared state: a caller owns a `CalculationCache`
//! value and passes it by reference, so there is no ambient global state
//! and no hidden synchronization. Its view is the map from keys to the most
//! recently stored value; a newer entry for a key shadows an older one.

use vstd::prelude::*;

verus! {

/// A key-value store of calculation results. Setting a key again shadows
/// the earlier value; the view is the map of current bindings.
#[derive(Debug)]
pub struct CalculationCache {
    entries: Vec<(String, String)>,
}

/// The map denoted by a sequence of bindings: a later binding for a key
/// wins over an earlier one.
spec fn entries_map(s: Seq<(String, String)>) -> Map<Seq<char>, Seq<char>>
    decreases s.len(),
{
    if s.len() == 0 {
        Map::empty()
    } else {
        entries_map(s.drop_last()).insert(s.last().0@, s.last().1@)
    }
}

/// Bindings at or after position `i` never bind `k`: the map agrees with
/// the map of the first `i` bindings at `k`.
proof fn lemma_entries_map_skip(s: Seq<(String, String)>, k: Seq<char>, i: int)
    requires
        0 <= i <= s.len(),
        forall|j: int| i <= j < s.len() ==> (#[trigger] s[j]).0@ != k,
    ensures
        entries_map(s).contains_key(k) == entries_map(s.take(i)).contains_key(k),
        entries_map(s).contains_key(k) ==> entries_map(s)[k] == entries_map(s.take(i))[k],
    decreases s.len() - i,
{
    if i < s.len() {
        assert(s.drop_last() =~= s.take(s.len() - 1));
        assert(s.drop_last().take(i) =~= s.take(i));
        lemma_entries_map_skip(s.drop_last(), k, i);
    } else {
        assert(s.take(i) =~= s);
    }
}

impl View for CalculationCache {
    type V = Map<Seq<char>, Seq<char>>;

    closed spec fn view(&self) -> Map<Seq<char>, Seq<char>> {
        entries_map(self.entries@)
    }
}

impl CalculationCache {
    /// An empty cache.
    pub fn new() -> (c: CalculationCache)
        ensures
            c@ == Map::<Seq<char>, Seq<char>>::empty(),
    {
        CalculationCache { entries: Vec::new() }
    }

    /// The value stored under `key`, or nothing when the key is unknown.
    pub fn get_cached_calculation(&self, key: &str) -> (r: Option<String>)
        ensures
            match r {
                Some(v) => self@.contains_key(key@) && v@ == self@[key@],
                None => !self@.contains_key(key@),
            },
    {
        let k: String = key.to_owned();
        let ghost s = self.entries@;
        let mut i: usize = self.entries.len();
        while i > 0
            invariant
                i <= s.len(),
                s == self.entries@,
                k@ == key@,
                forall|j: int| i <= j < s.len() ==> (#[trigger] s[j]).0@ != key@,
            decreases i,
        {
            i = i - 1;
            if self.entries[i].0 == k {
                let v = self.entries[i].1.clone();
                proof {
                    lemma_entries_map_skip(s, key@, i + 1);
                    assert(s.take(i + 1).drop_last() =~= s.take(i as int));
                    assert(s.take(i + 1).last() == s[i as int]);
                }
                return Some(v);
            }
        }
        proof {
            lemma_entries_map_skip(s, key@, 0);
            assert(s.take(0) =~= Seq::<(String, String)>::empty());
        }
        None
    }

    /// Stores `value` under `key`, shadowing any earlier value.
    pub fn set_cached_calculation(&mut self, key: &str, value: &str)
        ensures
            final(self)@ == old(self)@.insert(key@, value@),
    {
        let entry = (key.to_owned(), value.to_owned());
        self.entries.push(entry);
        proof {
            assert(self.entries@.drop_last() =~= old(self).entries@);
        }
    }

    /// Forgets every stored value.
    pub fn clear_calculation_cache(&mut self)
        ensures
            final(self)@ == Map::<Seq<char>, Seq<char>>::empty(),
    {
        self.entries.clear();
    }
}

} // verus!
