//! A small map from text to text, for form fields and stored settings.

use crate::text::same;
use vstd::prelude::*;
use vstd::string::*;

verus! {

/// A list of entries as plain values.
pub open spec fn pairs(v: Seq<(String, String)>) -> Seq<(Seq<char>, Seq<char>)> {
    v.map_values(|p: (String, String)| (p.0@, p.1@))
}

/// The map that results from inserting entries one after another into `m`.
pub open spec fn inserted(m: Map<Seq<char>, Seq<char>>, ps: Seq<(Seq<char>, Seq<char>)>) -> Map<
    Seq<char>,
    Seq<char>,
>
    decreases ps.len(),
{
    if ps.len() == 0 {
        m
    } else {
        inserted(m, ps.drop_last()).insert(ps.last().0, ps.last().1)
    }
}

/// The value of a key.
pub open spec fn lookup(m: Map<Seq<char>, Seq<char>>, key: Seq<char>) -> Option<Seq<char>> {
    if m.dom().contains(key) {
        Some(m[key])
    } else {
        None
    }
}

/// The view of a text that may be missing.
pub open spec fn text_view(t: Option<String>) -> Option<Seq<char>> {
    match t {
        Some(s) => Some(s@),
        None => None,
    }
}

/// Entries in the order in which they were inserted; the last one of a key counts.
pub struct TextMap {
    entries: Vec<(String, String)>,
}

impl View for TextMap {
    type V = Map<Seq<char>, Seq<char>>;

    closed spec fn view(&self) -> Map<Seq<char>, Seq<char>> {
        inserted(Map::empty(), pairs(self.entries@))
    }
}

impl TextMap {
    /// A map without entries.
    pub fn new() -> (m: TextMap)
        ensures
            m@ == Map::<Seq<char>, Seq<char>>::empty(),
    {
        let m = TextMap { entries: Vec::new() };
        proof {
            assert(pairs(m.entries@).len() == 0);
        }
        m
    }

    /// Sets the value of a key.
    pub fn insert(&mut self, key: String, value: String)
        ensures
            final(self)@ == old(self)@.insert(key@, value@),
    {
        let ghost before = pairs(self.entries@);
        self.entries.push((key, value));
        proof {
            assert(pairs(self.entries@) =~= before.push((key@, value@)));
            assert(pairs(self.entries@).drop_last() =~= before);
        }
    }

    /// The value of a key.
    pub fn get(&self, key: &str) -> (v: Option<String>)
        ensures
            text_view(v) == lookup(self@, key@),
    {
        let ghost all = pairs(self.entries@);
        let ghost none = Map::<Seq<char>, Seq<char>>::empty();
        let mut n: usize = self.entries.len();
        proof {
            assert(all.take(n as int) =~= all);
        }
        while n > 0
            invariant
                n <= self.entries@.len(),
                all == pairs(self.entries@),
                none == Map::<Seq<char>, Seq<char>>::empty(),
                lookup(self@, key@) == lookup(inserted(none, all.take(n as int)), key@),
            decreases n,
        {
            proof {
                assert(all.take(n as int).drop_last() =~= all.take(n - 1));
                assert(all.take(n as int).last() == all[n - 1]);
            }
            if same(self.entries[n - 1].0.as_str(), key) {
                return Some(self.entries[n - 1].1.clone());
            }
            n = n - 1;
        }
        None
    }
}

/// After entries were inserted, a key has the value of its last entry; without one it has what it
/// had before.
pub proof fn law_last_entry_counts(
    m: Map<Seq<char>, Seq<char>>,
    ps: Seq<(Seq<char>, Seq<char>)>,
    key: Seq<char>,
    i: int,
)
    requires
        -1 <= i < ps.len(),
        i >= 0 ==> ps[i].0 == key,
        forall|k: int| i < k < ps.len() ==> (#[trigger] ps[k]).0 != key,
    ensures
        i >= 0 ==> lookup(inserted(m, ps), key) == Some(ps[i].1),
        i < 0 ==> lookup(inserted(m, ps), key) == lookup(m, key),
        lookup(m, key) is Some <==> m.dom().contains(key),
        lookup(m, key) matches Some(v) ==> v == m[key],
    decreases ps.len(),
{
    if ps.len() > 0 {
        let head = ps.drop_last();
        if i < ps.len() - 1 {
            assert forall|k: int| i < k < head.len() implies (#[trigger] head[k]).0 != key by {
                assert(ps[k].0 != key);
            }
            assert(ps[ps.len() - 1].0 != key);
            law_last_entry_counts(m, head, key, i);
        }
    }
}

} // verus!
