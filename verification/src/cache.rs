//! Per-device cache of the last-seen raw value of every register tag.
//!
//! The cache is the state the field transforms consult (a mode reading
//! depends on the cached power register) and the source of the values
//! echoed for attach tags on a write.  It is a small association list
//! whose view is the map from tag to most recently stored value; a tag
//! occurs at most once because `insert` updates in place.

use vstd::prelude::*;

verus! {

/// The map described by an association list; an earlier entry shadows a
/// later one with the same tag, matching a front-to-back scan.
pub open spec fn spec_entries_map(s: Seq<(u16, u32)>) -> Map<u16, u32>
    decreases s.len(),
{
    if s.len() == 0 {
        Map::empty()
    } else {
        spec_entries_map(s.skip(1)).insert(s[0].0, s[0].1)
    }
}

/// Last-seen raw register values of one device, keyed by tag.
pub struct RegisterCache {
    entries: Vec<(u16, u32)>,
}

impl View for RegisterCache {
    type V = Map<u16, u32>;

    closed spec fn view(&self) -> Map<u16, u32> {
        spec_entries_map(self.entries@)
    }
}

/// The cached value of tag `t` in map `m`, if any.
pub open spec fn spec_cache_get(m: Map<u16, u32>, t: u16) -> Option<u32> {
    if m.contains_key(t) {
        Some(m[t])
    } else {
        None
    }
}

/// A scan that found `t` first at position `i` has found the view's value.
proof fn lemma_first_occurrence(s: Seq<(u16, u32)>, t: u16, i: int)
    requires
        0 <= i < s.len(),
        s[i].0 == t,
        forall|j: int| 0 <= j < i ==> (#[trigger] s[j]).0 != t,
    ensures
        spec_entries_map(s).contains_key(t),
        spec_entries_map(s)[t] == s[i].1,
    decreases i,
{
    if i > 0 {
        lemma_first_occurrence(s.skip(1), t, i - 1);
    }
}

/// A tag that occurs in no entry is not in the view.
proof fn lemma_no_occurrence(s: Seq<(u16, u32)>, t: u16)
    requires
        forall|j: int| 0 <= j < s.len() ==> (#[trigger] s[j]).0 != t,
    ensures
        !spec_entries_map(s).contains_key(t),
    decreases s.len(),
{
    if s.len() > 0 {
        lemma_no_occurrence(s.skip(1), t);
    }
}

/// Updating the entry at position `i`, the first occurrence of its tag,
/// updates the view at that tag alone.
proof fn lemma_update_entry(s: Seq<(u16, u32)>, t: u16, v: u32, i: int)
    requires
        0 <= i < s.len(),
        s[i].0 == t,
        forall|j: int| 0 <= j < i ==> (#[trigger] s[j]).0 != t,
    ensures
        spec_entries_map(s.update(i, (t, v))) == spec_entries_map(s).insert(t, v),
    decreases i,
{
    let s2 = s.update(i, (t, v));
    if i == 0 {
        assert(s2.skip(1) =~= s.skip(1));
        assert(spec_entries_map(s2) =~= spec_entries_map(s).insert(t, v));
    } else {
        assert(s2.skip(1) =~= s.skip(1).update(i - 1, (t, v)));
        lemma_update_entry(s.skip(1), t, v, i - 1);
        assert(s2[0] == s[0]);
        assert(spec_entries_map(s2) == spec_entries_map(s.skip(1)).insert(t, v).insert(
            s[0].0,
            s[0].1,
        ));
        assert(s[0].0 != t);
        assert(spec_entries_map(s.skip(1)).insert(t, v).insert(s[0].0, s[0].1)
            =~= spec_entries_map(s.skip(1)).insert(s[0].0, s[0].1).insert(t, v));
    }
}

/// Appending an entry whose tag occurs nowhere inserts it into the view.
proof fn lemma_push_entry(s: Seq<(u16, u32)>, t: u16, v: u32)
    requires
        forall|j: int| 0 <= j < s.len() ==> (#[trigger] s[j]).0 != t,
    ensures
        spec_entries_map(s.push((t, v))) == spec_entries_map(s).insert(t, v),
    decreases s.len(),
{
    if s.len() == 0 {
        assert(s.push((t, v))[0] == (t, v));
        assert(s.push((t, v)).skip(1) =~= Seq::<(u16, u32)>::empty());
        assert(spec_entries_map(Seq::<(u16, u32)>::empty()) =~= Map::<u16, u32>::empty());
        assert(spec_entries_map(s.push((t, v))) =~= spec_entries_map(s).insert(t, v));
    } else {
        assert(s.push((t, v)).skip(1) =~= s.skip(1).push((t, v)));
        lemma_push_entry(s.skip(1), t, v);
        assert(s.push((t, v))[0] == s[0]);
        assert(s[0].0 != t);
        assert(spec_entries_map(s.skip(1)).insert(t, v).insert(s[0].0, s[0].1)
            =~= spec_entries_map(s.skip(1)).insert(s[0].0, s[0].1).insert(t, v));
    }
}

impl RegisterCache {
    /// An empty cache: no register has been seen.
    pub fn new() -> (c: RegisterCache)
        ensures
            c@ == Map::<u16, u32>::empty(),
    {
        RegisterCache { entries: Vec::new() }
    }

    /// The last-seen value of tag `t`, if any.
    pub fn get(&self, t: u16) -> (r: Option<u32>)
        ensures
            r == spec_cache_get(self@, t),
    {
        let mut i: usize = 0;
        while i < self.entries.len()
            invariant
                i <= self.entries@.len(),
                forall|j: int| 0 <= j < i ==> (#[trigger] self.entries@[j]).0 != t,
            decreases self.entries@.len() - i,
        {
            if self.entries[i].0 == t {
                proof {
                    lemma_first_occurrence(self.entries@, t, i as int);
                }
                return Some(self.entries[i].1);
            }
            i = i + 1;
        }
        proof {
            lemma_no_occurrence(self.entries@, t);
        }
        None
    }

    /// Record `v` as the last-seen value of tag `t`.
    pub fn insert(&mut self, t: u16, v: u32)
        ensures
            final(self)@ == old(self)@.insert(t, v),
    {
        let mut i: usize = 0;
        while i < self.entries.len()
            invariant
                i <= self.entries@.len(),
                self.entries@ == old(self).entries@,
                forall|j: int| 0 <= j < i ==> (#[trigger] self.entries@[j]).0 != t,
            decreases self.entries@.len() - i,
        {
            if self.entries[i].0 == t {
                proof {
                    lemma_update_entry(self.entries@, t, v, i as int);
                }
                self.entries[i] = (t, v);
                return ;
            }
            i = i + 1;
        }
        proof {
            lemma_push_entry(self.entries@, t, v);
        }
        self.entries.push((t, v));
    }
}

} // verus!
