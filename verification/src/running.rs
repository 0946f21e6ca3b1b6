//! The table of running profiles: profile id to process id.
use vstd::prelude::*;

verus! {

/// The map that a list of `(id, pid)` entries stands for, later entries
/// overriding earlier ones.
pub open spec fn entries_map(s: Seq<(String, u32)>) -> Map<Seq<char>, u32>
    decreases s.len(),
{
    if s.len() == 0 {
        Map::empty()
    } else {
        entries_map(s.drop_last()).insert(s.last().0@, s.last().1)
    }
}

/// No two entries name the same profile.
pub open spec fn distinct_ids(s: Seq<(String, u32)>) -> bool {
    forall|i: int, j: int| 0 <= i < j < s.len() ==> #[trigger] s[i].0@ != #[trigger] s[j].0@
}

/// The ids of the entries, in order.
pub open spec fn entry_ids(s: Seq<(String, u32)>) -> Seq<Seq<char>> {
    s.map_values(|e: (String, u32)| e.0@)
}

/// `ids` lists every key of `m` exactly once, and nothing else.
pub open spec fn lists_keys_once(ids: Seq<Seq<char>>, m: Map<Seq<char>, u32>) -> bool {
    &&& ids.no_duplicates()
    &&& forall|k: Seq<char>| #[trigger] m.contains_key(k) <==> ids.contains(k)
}

proof fn lemma_entry_ids_list_keys(s: Seq<(String, u32)>)
    requires
        distinct_ids(s),
    ensures
        lists_keys_once(entry_ids(s), entries_map(s)),
{
    let ids = entry_ids(s);
    assert forall|i: int, j: int| 0 <= i < ids.len() && 0 <= j < ids.len() && i != j implies ids[i]
        != ids[j] by {
        if i < j {
            assert(s[i].0@ != s[j].0@);
        } else {
            assert(s[j].0@ != s[i].0@);
        }
    }
    assert forall|k: Seq<char>| #[trigger] entries_map(s).contains_key(k) <==> ids.contains(k) by {
        lemma_entries_map_lookup(s, k);
        if ids.contains(k) {
            let i = choose|i: int| 0 <= i < ids.len() && ids[i] == k;
            assert(s[i].0@ == k);
        }
        if entries_map(s).contains_key(k) {
            let i = choose|i: int| 0 <= i < s.len() && s[i].0@ == k;
            assert(ids[i] == k);
        }
    }
}

/// Which profiles run, and the process id found for each.
pub struct RunningProfiles {
    entries: Vec<(String, u32)>,
}

impl View for RunningProfiles {
    type V = Map<Seq<char>, u32>;

    closed spec fn view(&self) -> Map<Seq<char>, u32> {
        entries_map(self.entries@)
    }
}

proof fn lemma_entries_map_lookup(s: Seq<(String, u32)>, k: Seq<char>)
    requires
        distinct_ids(s),
    ensures
        entries_map(s).contains_key(k) <==> exists|i: int| 0 <= i < s.len() && s[i].0@ == k,
        forall|i: int|
            0 <= i < s.len() && #[trigger] s[i].0@ == k ==> entries_map(s)[k] == s[i].1,
    decreases s.len(),
{
    if s.len() > 0 {
        let t = s.drop_last();
        assert(distinct_ids(t)) by {
            assert forall|i: int, j: int| 0 <= i < j < t.len() implies #[trigger] t[i].0@
                != #[trigger] t[j].0@ by {
                assert(t[i] == s[i] && t[j] == s[j]);
            }
        }
        lemma_entries_map_lookup(t, k);
        if entries_map(s).contains_key(k) && s.last().0@ != k {
            let i = choose|i: int| 0 <= i < t.len() && t[i].0@ == k;
            assert(s[i] == t[i]);
        }
        assert forall|i: int| 0 <= i < s.len() && #[trigger] s[i].0@ == k implies entries_map(
            s,
        )[k] == s[i].1 by {
            if i < s.len() - 1 {
                assert(s[i] == t[i]);
                assert(s[i].0@ != s[s.len() - 1].0@);
            }
        }
        if exists|i: int| 0 <= i < s.len() && s[i].0@ == k {
            let i = choose|i: int| 0 <= i < s.len() && s[i].0@ == k;
            if i < s.len() - 1 {
                assert(t[i] == s[i]);
            }
        }
    }
}

proof fn lemma_entries_map_update(s: Seq<(String, u32)>, i: int, e: (String, u32))
    requires
        distinct_ids(s),
        0 <= i < s.len(),
        e.0@ == s[i].0@,
    ensures
        entries_map(s.update(i, e)) == entries_map(s).insert(e.0@, e.1),
    decreases s.len(),
{
    let u = s.update(i, e);
    let t = s.drop_last();
    if i == s.len() - 1 {
        assert(u.drop_last() =~= t);
        assert(entries_map(u) =~= entries_map(s).insert(e.0@, e.1));
    } else {
        assert(distinct_ids(t)) by {
            assert forall|a: int, b: int| 0 <= a < b < t.len() implies #[trigger] t[a].0@
                != #[trigger] t[b].0@ by {
                assert(t[a] == s[a] && t[b] == s[b]);
            }
        }
        lemma_entries_map_update(t, i, e);
        assert(u.drop_last() =~= t.update(i, e));
        assert(s[i].0@ != s[s.len() - 1].0@);
        assert(entries_map(u) =~= entries_map(s).insert(e.0@, e.1));
    }
}

impl RunningProfiles {
    #[verifier::type_invariant]
    spec fn well_formed(self) -> bool {
        distinct_ids(self.entries@)
    }

    /// The profile ids, in the order they were first recorded.
    pub closed spec fn ids(&self) -> Seq<Seq<char>> {
        entry_ids(self.entries@)
    }

    /// An empty table.
    pub fn new() -> (r: Self)
        ensures
            r@ == Map::<Seq<char>, u32>::empty(),
            r.ids() == Seq::<Seq<char>>::empty(),
            lists_keys_once(r.ids(), r@),
    {
        let r = RunningProfiles { entries: Vec::new() };
        assert(r.ids() =~= Seq::<Seq<char>>::empty());
        proof {
            lemma_entry_ids_list_keys(r.entries@);
        }
        r
    }

    /// Index of the entry for `id`.
    fn index_of(&self, id: &String) -> (r: Option<usize>)
        ensures
            match r {
                Some(i) => i < self.entries@.len() && self.entries@[i as int].0@ == id@,
                None => forall|i: int| 0 <= i < self.entries@.len() ==> self.entries@[i].0@ != id@,
            },
    {
        let mut i: usize = 0;
        while i < self.entries.len()
            invariant
                i <= self.entries@.len(),
                forall|j: int| 0 <= j < i ==> self.entries@[j].0@ != id@,
            decreases self.entries.len() - i,
        {
            if self.entries[i].0 == *id {
                return Some(i);
            }
            i = i + 1;
        }
        None
    }

    /// The process id recorded for `id`.
    pub fn get(&self, id: &String) -> (r: Option<u32>)
        ensures
            r == (if self@.contains_key(id@) {
                Some(self@[id@])
            } else {
                None::<u32>
            }),
    {
        proof {
            use_type_invariant(self);
            lemma_entries_map_lookup(self.entries@, id@);
        }
        match self.index_of(id) {
            Some(i) => Some(self.entries[i].1),
            None => None,
        }
    }

    /// Records `pid` for `id`, replacing what was recorded for it.
    pub fn insert(&mut self, id: String, pid: u32)
        ensures
            final(self)@ == old(self)@.insert(id@, pid),
            old(self)@.contains_key(id@) ==> final(self).ids() == old(self).ids(),
            !old(self)@.contains_key(id@) ==> final(self).ids() == old(self).ids().push(id@),
            lists_keys_once(final(self).ids(), final(self)@),
    {
        proof {
            use_type_invariant(&*self);
            lemma_entries_map_lookup(self.entries@, id@);
        }
        match self.index_of(&id) {
            Some(i) => {
                let ghost e = (id, pid);
                proof {
                    lemma_entries_map_update(self.entries@, i as int, e);
                    assert(entry_ids(self.entries@.update(i as int, e)) =~= entry_ids(
                        self.entries@,
                    ));
                }
                let mut es: Vec<(String, u32)> = Vec::new();
                std::mem::swap(&mut es, &mut self.entries);
                es.set(i, (id, pid));
                self.entries = es;
            },
            None => {
                let ghost old_entries = self.entries@;
                let ghost e = (id, pid);
                proof {
                    assert(old_entries.push(e).drop_last() =~= old_entries);
                    assert(entry_ids(old_entries.push(e)) =~= entry_ids(old_entries).push(id@));
                    assert(distinct_ids(old_entries.push(e)));
                }
                let mut es: Vec<(String, u32)> = Vec::new();
                std::mem::swap(&mut es, &mut self.entries);
                es.push((id, pid));
                self.entries = es;
            },
        }
        proof {
            use_type_invariant(&*self);
            lemma_entry_ids_list_keys(self.entries@);
        }
    }

    /// The number of running profiles.
    pub fn len(&self) -> (r: usize)
        ensures
            r == self.ids().len(),
            r == self@.dom().len(),
    {
        proof {
            use_type_invariant(self);
            lemma_entries_map_len(self.entries@);
        }
        self.entries.len()
    }

    /// Whether no profile runs.
    pub fn is_empty(&self) -> (r: bool)
        ensures
            r == (self@.dom().len() == 0),
            r == (self.ids().len() == 0),
    {
        proof {
            use_type_invariant(self);
            lemma_entries_map_len(self.entries@);
        }
        self.entries.len() == 0
    }

    /// The entries `(id, pid)`, in the order of `ids`.
    pub fn entries(&self) -> (r: Vec<(String, u32)>)
        ensures
            r@.len() == self.ids().len(),
            forall|i: int|
                0 <= i < r@.len() ==> (#[trigger] r@[i]).0@ == self.ids()[i] && self@.contains_key(
                    r@[i].0@,
                ) && self@[r@[i].0@] == r@[i].1,
    {
        proof {
            use_type_invariant(self);
        }
        let mut r: Vec<(String, u32)> = Vec::new();
        let mut i: usize = 0;
        while i < self.entries.len()
            invariant
                i <= self.entries@.len(),
                distinct_ids(self.entries@),
                r@.len() == i,
                forall|j: int| 0 <= j < i ==> (#[trigger] r@[j]).0@ == self.entries@[j].0@ && r@[j].1
                    == self.entries@[j].1,
            decreases self.entries.len() - i,
        {
            let id = self.entries[i].0.clone();
            r.push((id, self.entries[i].1));
            i = i + 1;
        }
        proof {
            assert forall|i: int| 0 <= i < r@.len() implies (#[trigger] r@[i]).0@ == self.ids()[i]
                && self@.contains_key(r@[i].0@) && self@[r@[i].0@] == r@[i].1 by {
                lemma_entries_map_lookup(self.entries@, r@[i].0@);
            }
        }
        r
    }
}

proof fn lemma_entries_map_len(s: Seq<(String, u32)>)
    requires
        distinct_ids(s),
    ensures
        entries_map(s).dom().finite(),
        entries_map(s).dom().len() == s.len(),
    decreases s.len(),
{
    if s.len() > 0 {
        let t = s.drop_last();
        assert(distinct_ids(t)) by {
            assert forall|i: int, j: int| 0 <= i < j < t.len() implies #[trigger] t[i].0@
                != #[trigger] t[j].0@ by {
                assert(t[i] == s[i] && t[j] == s[j]);
            }
        }
        lemma_entries_map_len(t);
        lemma_entries_map_lookup(t, s.last().0@);
        if entries_map(t).contains_key(s.last().0@) {
            let i = choose|i: int| 0 <= i < t.len() && t[i].0@ == s.last().0@;
            assert(t[i] == s[i]);
        }
    }
}

} // verus!
