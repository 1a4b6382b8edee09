//! The header fields of a message: a map from field name to one value.

use vstd::prelude::*;

verus! {

/// The map that a sequence of insertions builds: a later value replaces an
/// earlier one under the same name.
pub open spec fn map_of(entries: Seq<(Seq<char>, Seq<char>)>) -> Map<Seq<char>, Seq<char>>
    decreases entries.len(),
{
    if entries.len() == 0 {
        Map::empty()
    } else {
        map_of(entries.drop_last()).insert(entries.last().0, entries.last().1)
    }
}

/// The names and values held by a vector of pairs of strings.
pub open spec fn pairs_view(entries: Seq<(String, String)>) -> Seq<(Seq<char>, Seq<char>)> {
    Seq::new(entries.len(), |i: int| (entries[i].0@, entries[i].1@))
}

/// Whether no name occurs twice.
pub open spec fn distinct_names(entries: Seq<(Seq<char>, Seq<char>)>) -> bool {
    forall|i: int, j: int|
        0 <= i < j < entries.len() ==> (#[trigger] entries[i]).0 != (#[trigger] entries[j]).0
}

/// A name is in the map exactly if some entry holds it.
pub proof fn lemma_map_of_dom(entries: Seq<(Seq<char>, Seq<char>)>, name: Seq<char>)
    ensures
        map_of(entries).contains_key(name) <==> exists|i: int|
            0 <= i < entries.len() && (#[trigger] entries[i]).0 == name,
    decreases entries.len(),
{
    if entries.len() > 0 {
        let front = entries.drop_last();
        lemma_map_of_dom(front, name);
        if map_of(entries).contains_key(name) {
            if entries.last().0 == name {
                assert(entries[entries.len() - 1].0 == name);
            } else {
                let i = choose|i: int| 0 <= i < front.len() && (#[trigger] front[i]).0 == name;
                assert(entries[i].0 == name);
            }
        }
        if exists|i: int| 0 <= i < entries.len() && (#[trigger] entries[i]).0 == name {
            let i = choose|i: int| 0 <= i < entries.len() && (#[trigger] entries[i]).0 == name;
            if i < entries.len() - 1 {
                assert(front[i].0 == name);
            }
        }
    }
}

/// Where no name occurs twice, the map gives each entry's own value.
pub proof fn lemma_map_of_value(entries: Seq<(Seq<char>, Seq<char>)>, i: int)
    requires
        distinct_names(entries),
        0 <= i < entries.len(),
    ensures
        map_of(entries).contains_key(entries[i].0),
        map_of(entries)[entries[i].0] == entries[i].1,
    decreases entries.len(),
{
    let front = entries.drop_last();
    if i < entries.len() - 1 {
        assert(distinct_names(front)) by {
            assert forall|a: int, b: int| 0 <= a < b < front.len() implies (#[trigger] front[a]).0
                != (#[trigger] front[b]).0 by {
                assert(front[a] == entries[a] && front[b] == entries[b]);
            }
        }
        assert(front[i] == entries[i]);
        lemma_map_of_value(front, i);
        assert(entries[i].0 != entries[entries.len() - 1].0);
    }
}

/// Replacing the value of an entry is an insertion under that entry's name.
pub proof fn lemma_map_of_update(
    entries: Seq<(Seq<char>, Seq<char>)>,
    i: int,
    value: Seq<char>,
)
    requires
        distinct_names(entries),
        0 <= i < entries.len(),
    ensures
        map_of(entries.update(i, (entries[i].0, value))) == map_of(entries).insert(
            entries[i].0,
            value,
        ),
        distinct_names(entries.update(i, (entries[i].0, value))),
    decreases entries.len(),
{
    let name = entries[i].0;
    let after = entries.update(i, (name, value));
    let front = entries.drop_last();
    assert(distinct_names(after)) by {
        assert forall|a: int, b: int| 0 <= a < b < after.len() implies (#[trigger] after[a]).0 != (
        #[trigger] after[b]).0 by {
            assert(after[a].0 == entries[a].0 && after[b].0 == entries[b].0);
        }
    }
    if i == entries.len() - 1 {
        assert(after.drop_last() =~= front);
        assert(map_of(after) =~= map_of(entries).insert(name, value));
    } else {
        assert(distinct_names(front)) by {
            assert forall|a: int, b: int| 0 <= a < b < front.len() implies (#[trigger] front[a]).0
                != (#[trigger] front[b]).0 by {
                assert(front[a] == entries[a] && front[b] == entries[b]);
            }
        }
        assert(front[i] == entries[i]);
        lemma_map_of_update(front, i, value);
        assert(after.drop_last() =~= front.update(i, (name, value)));
        assert(entries[i].0 != entries[entries.len() - 1].0);
        assert(map_of(after) =~= map_of(entries).insert(name, value));
    }
}

/// Where no name occurs twice, the map has as many names as there are entries.
pub proof fn lemma_map_of_len(entries: Seq<(Seq<char>, Seq<char>)>)
    requires
        distinct_names(entries),
    ensures
        map_of(entries).dom().finite(),
        map_of(entries).dom().len() == entries.len(),
    decreases entries.len(),
{
    if entries.len() > 0 {
        let front = entries.drop_last();
        assert(distinct_names(front)) by {
            assert forall|a: int, b: int| 0 <= a < b < front.len() implies (#[trigger] front[a]).0
                != (#[trigger] front[b]).0 by {
                assert(front[a] == entries[a] && front[b] == entries[b]);
            }
        }
        lemma_map_of_len(front);
        lemma_map_of_dom(front, entries.last().0);
        if map_of(front).contains_key(entries.last().0) {
            let i = choose|i: int| 0 <= i < front.len() && (#[trigger] front[i]).0 == entries.last().0;
            assert(entries[i].0 == entries[entries.len() - 1].0);
        }
        assert(map_of(entries).dom() =~= map_of(front).dom().insert(entries.last().0));
    }
}

/// The header fields of a message. Each name has one value.
#[derive(Debug)]
pub struct Headers {
    entries: Vec<(String, String)>,
}

impl View for Headers {
    type V = Map<Seq<char>, Seq<char>>;

    closed spec fn view(&self) -> Map<Seq<char>, Seq<char>> {
        map_of(pairs_view(self.entries@))
    }
}

impl Headers {
    #[verifier::type_invariant]
    spec fn no_name_twice(&self) -> bool {
        distinct_names(pairs_view(self.entries@))
    }

    /// No header fields.
    pub fn new() -> (out: Headers)
        ensures
            out@ == Map::<Seq<char>, Seq<char>>::empty(),
    {
        let out = Headers { entries: Vec::new() };
        assert(pairs_view(out.entries@) =~= Seq::empty());
        out
    }

    /// The position of the entry named `name`, or the number of entries
    /// where there is none.
    fn position(&self, name: &String) -> (out: usize)
        ensures
            out <= self.entries@.len(),
            out < self.entries@.len() ==> self.entries@[out as int].0@ == name@,
            out == self.entries@.len() ==> !self@.contains_key(name@),
            out < self.entries@.len() ==> self@.contains_key(name@) && self@[name@]
                == self.entries@[out as int].1@,
    {
        proof {
            use_type_invariant(self);
        }
        let ghost all = pairs_view(self.entries@);
        let mut i: usize = 0;
        while i < self.entries.len()
            invariant
                i <= self.entries@.len(),
                all == pairs_view(self.entries@),
                distinct_names(all),
                forall|j: int| 0 <= j < i ==> (#[trigger] all[j]).0 != name@,
            decreases self.entries@.len() - i,
        {
            if self.entries[i].0 == *name {
                proof {
                    assert(all[i as int].0 == name@);
                    lemma_map_of_value(all, i as int);
                }
                return i;
            }
            assert(all[i as int].0 != name@);
            i += 1;
        }
        proof {
            lemma_map_of_dom(all, name@);
        }
        i
    }

    /// Sets the value of the field `name`, in place of any earlier value.
    pub fn insert(&mut self, name: String, value: String)
        ensures
            final(self)@ == old(self)@.insert(name@, value@),
    {
        proof {
            use_type_invariant(&*self);
        }
        let ghost before = pairs_view(self.entries@);
        let at: usize = self.position(&name);
        let mut taken = Headers::new();
        core::mem::swap(self, &mut taken);
        let mut entries = taken.entries;
        if at < entries.len() {
            proof {
                lemma_map_of_update(before, at as int, value@);
            }
            entries.set(at, (name, value));
            assert(pairs_view(entries@) =~= before.update(at as int, (name@, value@)));
        } else {
            proof {
                lemma_map_of_dom(before, name@);
            }
            entries.push((name, value));
            assert(pairs_view(entries@) =~= before.push((name@, value@)));
            assert(pairs_view(entries@).drop_last() =~= before);
        }
        *self = Headers { entries };
    }

    /// The value of the field `name`.
    pub fn get(&self, name: &str) -> (out: Option<&String>)
        ensures
            match out {
                Some(v) => self@.contains_key(name@) && self@[name@] == v@,
                None => !self@.contains_key(name@),
            },
    {
        let key: String = name.to_owned();
        let at: usize = self.position(&key);
        if at < self.entries.len() {
            Some(&self.entries[at].1)
        } else {
            None
        }
    }

    /// The number of fields.
    pub fn len(&self) -> (out: usize)
        ensures
            out == self@.dom().len(),
            self@.dom().finite(),
    {
        proof {
            use_type_invariant(self);
            lemma_map_of_len(pairs_view(self.entries@));
        }
        self.entries.len()
    }

    /// The name and the value of each field, each name once.
    pub fn entries(&self) -> (out: Vec<(String, String)>)
        ensures
            map_of(pairs_view(out@)) == self@,
            distinct_names(pairs_view(out@)),
    {
        proof {
            use_type_invariant(self);
        }
        let mut out: Vec<(String, String)> = Vec::new();
        let mut i: usize = 0;
        while i < self.entries.len()
            invariant
                i <= self.entries@.len(),
                out@.len() == i,
                pairs_view(out@) == pairs_view(self.entries@).take(i as int),
            decreases self.entries@.len() - i,
        {
            let ghost before = pairs_view(out@);
            let name = self.entries[i].0.clone();
            let value = self.entries[i].1.clone();
            assert(name@ == self.entries@[i as int].0@);
            assert(value@ == self.entries@[i as int].1@);
            out.push((name, value));
            i += 1;
            assert(pairs_view(out@).len() == i);
            assert forall|j: int| 0 <= j < i implies pairs_view(out@)[j] == pairs_view(
                self.entries@,
            )[j] by {
                if j < i - 1 {
                    assert(pairs_view(out@)[j] == before[j]);
                }
            }
            assert(pairs_view(out@) =~= pairs_view(self.entries@).take(i as int));
        }
        assert(pairs_view(self.entries@).take(i as int) =~= pairs_view(self.entries@));
        out
    }
}

impl Clone for Headers {
    fn clone(&self) -> (out: Self)
        ensures
            out@ == self@,
    {
        let entries = self.entries();
        Headers { entries }
    }
}

impl Default for Headers {
    fn default() -> (out: Self)
        ensures
            out@ == Map::<Seq<char>, Seq<char>>::empty(),
    {
        Headers::new()
    }
}

} // verus!
