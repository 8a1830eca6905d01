//! The arity table: the declared parameter count of every user-defined
//! function seen so far, in visitation order, last definition winning on a
//! name collision.

use vstd::prelude::*;

verus! {

/// Records, for each user-defined function name, the declared parameter
/// count most recently seen for it.  Entries are only ever added or
/// overwritten, never removed, within one pass run.
pub struct ArityTable {
    entries: Vec<(String, usize)>,
}

/// The map an entry sequence denotes: each name bound to the count of its
/// last entry.
pub open spec fn entries_map(s: Seq<(String, usize)>) -> Map<Seq<char>, nat>
    decreases s.len(),
{
    if s.len() == 0 {
        Map::empty()
    } else {
        entries_map(s.drop_last()).insert(s.last().0@, s.last().1 as nat)
    }
}

/// A name none of the entries carries is not in the map.
proof fn lemma_entries_map_absent(s: Seq<(String, usize)>, name: Seq<char>)
    requires
        forall|k: int| 0 <= k < s.len() ==> (#[trigger] s[k]).0@ != name,
    ensures
        !entries_map(s).contains_key(name),
    decreases s.len(),
{
    if s.len() > 0 {
        assert(s[s.len() - 1].0@ != name);
        lemma_entries_map_absent(s.drop_last(), name);
    }
}

/// The map binds a name to the count of its last entry.
proof fn lemma_entries_map_last(s: Seq<(String, usize)>, i: int)
    requires
        0 <= i < s.len(),
        forall|k: int| i < k < s.len() ==> (#[trigger] s[k]).0@ != s[i].0@,
    ensures
        entries_map(s).contains_key(s[i].0@),
        entries_map(s)[s[i].0@] == s[i].1 as nat,
    decreases s.len(),
{
    if i == s.len() - 1 {
    } else {
        lemma_entries_map_last(s.drop_last(), i);
        assert(s[s.len() - 1].0@ != s[i].0@);
    }
}

impl View for ArityTable {
    type V = Map<Seq<char>, nat>;

    closed spec fn view(&self) -> Map<Seq<char>, nat> {
        entries_map(self.entries@)
    }
}

impl ArityTable {
    /// A fresh, empty table.
    pub fn new() -> (t: ArityTable)
        ensures
            t@ == Map::<Seq<char>, nat>::empty(),
    {
        ArityTable { entries: Vec::new() }
    }

    /// Inserts or overwrites the entry for `name`.
    pub fn record(&mut self, name: &String, param_count: usize)
        ensures
            final(self)@ == old(self)@.insert(name@, param_count as nat),
    {
        let entry = (name.clone(), param_count);
        self.entries.push(entry);
        proof {
            assert(self.entries@.drop_last() =~= old(self).entries@);
        }
    }

    /// The most recently recorded count for `name`, if any entry carries it.
    pub fn lookup(&self, name: &String) -> (r: Option<usize>)
        ensures
            match r {
                Some(c) => self@.contains_key(name@) && self@[name@] == c as nat,
                None => !self@.contains_key(name@),
            },
    {
        let ghost s = self.entries@;
        let mut i: usize = self.entries.len();
        while i > 0
            invariant
                i <= s.len(),
                s == self.entries@,
                forall|k: int| i <= k < s.len() ==> (#[trigger] s[k]).0@ != name@,
            decreases i,
        {
            i = i - 1;
            let entry_name = &self.entries[i].0;
            if *entry_name == *name {
                proof {
                    assert(s[i as int].0@ == name@);
                    assert forall|k: int| i < k < s.len() implies (#[trigger] s[k]).0@
                        != s[i as int].0@ by {
                        assert(s[k].0@ != name@);
                    }
                    lemma_entries_map_last(s, i as int);
                }
                return Some(self.entries[i].1);
            }
        }
        proof {
            lemma_entries_map_absent(s, name@);
        }
        None
    }
}

} // verus!
