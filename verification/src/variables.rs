//! The variable map that a URL template is filled from.

use vstd::prelude::*;

verus! {

/// A finite map from variable names to values.
///
/// Bindings are recorded in the order in which they were made; where a name
/// was bound more than once, the latest binding is the one that counts.
pub struct Variables {
    entries: Vec<(String, String)>,
}

/// The map denoted by a list of bindings, later bindings overriding earlier ones.
pub open spec fn bindings_map(entries: Seq<(String, String)>) -> Map<Seq<char>, Seq<char>>
    decreases entries.len(),
{
    if entries.len() == 0 {
        Map::empty()
    } else {
        bindings_map(entries.drop_last()).insert(entries.last().0@, entries.last().1@)
    }
}

/// A key that no binding names is not in the map.
pub proof fn lemma_unbound(entries: Seq<(String, String)>, key: Seq<char>)
    requires
        forall|j: int| 0 <= j < entries.len() ==> (#[trigger] entries[j]).0@ != key,
    ensures
        !bindings_map(entries).dom().contains(key),
    decreases entries.len(),
{
    if entries.len() > 0 {
        assert(entries.last().0@ != key);
        assert forall|j: int| 0 <= j < entries.drop_last().len() implies (#[trigger] entries.drop_last()[j]).0@
            != key by {
            assert(entries.drop_last()[j] == entries[j]);
        }
        lemma_unbound(entries.drop_last(), key);
    }
}

/// The map holds, for a key, the value of the last binding that names it.
pub proof fn lemma_last_binding(entries: Seq<(String, String)>, i: int)
    requires
        0 <= i < entries.len(),
        forall|j: int| i < j < entries.len() ==> (#[trigger] entries[j]).0@ != entries[i].0@,
    ensures
        bindings_map(entries).dom().contains(entries[i].0@),
        bindings_map(entries)[entries[i].0@] == entries[i].1@,
    decreases entries.len(),
{
    if i < entries.len() - 1 {
        assert(entries.last().0@ != entries[i].0@);
        assert(entries.drop_last()[i] == entries[i]);
        assert forall|j: int| i < j < entries.drop_last().len() implies (#[trigger] entries.drop_last()[j]).0@
            != entries.drop_last()[i].0@ by {
            assert(entries.drop_last()[j] == entries[j]);
        }
        lemma_last_binding(entries.drop_last(), i);
    }
}

impl View for Variables {
    type V = Map<Seq<char>, Seq<char>>;

    closed spec fn view(&self) -> Map<Seq<char>, Seq<char>> {
        bindings_map(self.entries@)
    }
}

impl Variables {
    /// The empty map.
    pub fn new() -> (res: Variables)
        ensures
            res@ == Map::<Seq<char>, Seq<char>>::empty(),
    {
        Variables { entries: Vec::new() }
    }

    /// The value bound to `key`, if any.
    pub fn get(&self, key: &str) -> (r: Option<&String>)
        ensures
            match r {
                Some(value) => self@.dom().contains(key@) && self@[key@] == value@,
                None => !self@.dom().contains(key@),
            },
    {
        let wanted: String = key.to_owned();
        let mut i: usize = self.entries.len();
        while i > 0
            invariant
                wanted@ == key@,
                i <= self.entries@.len(),
                forall|j: int| i <= j < self.entries@.len() ==> (#[trigger] self.entries@[j]).0@ != key@,
            decreases i,
        {
            i -= 1;
            if self.entries[i].0 == wanted {
                proof {
                    lemma_last_binding(self.entries@, i as int);
                }
                return Some(&self.entries[i].1);
            }
        }
        proof {
            lemma_unbound(self.entries@, key@);
        }
        None
    }

    /// Whether `key` is bound.
    pub fn contains_key(&self, key: &str) -> (r: bool)
        ensures
            r == self@.dom().contains(key@),
    {
        self.get(key).is_some()
    }

    /// Binds `key` to `value`, replacing an earlier binding of the same key.
    pub fn insert(&mut self, key: String, value: String)
        ensures
            final(self)@ == old(self)@.insert(key@, value@),
    {
        let ghost before = self.entries@;
        self.entries.push((key, value));
        assert(self.entries@.drop_last() == before);
    }
}

} // verus!
