//! Extension properties: a mapping from property name to value, for the
//! properties that no schema knows.
use vstd::prelude::*;

verus! {

/// A mapping from property name to value. Every insertion is retained, in
/// order; as a mapping, the last value written under a name is the value
/// of that name.
#[derive(Clone, Debug, Default, PartialEq, Eq)]
pub struct Properties {
    /// Every name and value that was inserted, in order.
    pub entries: Vec<(String, String)>,
}

/// The mapping that a list of insertions makes: a later one replaces an
/// earlier one with the same name.
pub open spec fn entries_map(entries: Seq<(String, String)>) -> Map<Seq<char>, Seq<char>>
    decreases entries.len(),
{
    if entries.len() == 0 {
        Map::empty()
    } else {
        entries_map(entries.drop_last()).insert(entries.last().0@, entries.last().1@)
    }
}

impl View for Properties {
    type V = Map<Seq<char>, Seq<char>>;

    open spec fn view(&self) -> Map<Seq<char>, Seq<char>> {
        entries_map(self.entries@)
    }
}

/// A name that no insertion has is not in the mapping.
pub proof fn lemma_absent(entries: Seq<(String, String)>, name: Seq<char>)
    requires
        forall|k: int| 0 <= k < entries.len() ==> (#[trigger] entries[k]).0@ != name,
    ensures
        !entries_map(entries).contains_key(name),
    decreases entries.len(),
{
    if entries.len() > 0 {
        assert(entries.last() == entries[entries.len() - 1]);
        assert forall|k: int| 0 <= k < entries.drop_last().len() implies (
        #[trigger] entries.drop_last()[k]).0@ != name by {
            assert(entries.drop_last()[k] == entries[k]);
        }
        lemma_absent(entries.drop_last(), name);
    }
}

/// The value of a name is the value of its last insertion.
pub proof fn lemma_last_insertion(entries: Seq<(String, String)>, name: Seq<char>, i: int)
    requires
        0 <= i < entries.len(),
        entries[i].0@ == name,
        forall|k: int| i < k < entries.len() ==> (#[trigger] entries[k]).0@ != name,
    ensures
        entries_map(entries).contains_key(name),
        entries_map(entries)[name] == entries[i].1@,
    decreases entries.len(),
{
    if i < entries.len() - 1 {
        assert(entries.last() == entries[entries.len() - 1]);
        assert forall|k: int| i < k < entries.drop_last().len() implies (
        #[trigger] entries.drop_last()[k]).0@ != name by {
            assert(entries.drop_last()[k] == entries[k]);
        }
        assert(entries.drop_last()[i] == entries[i]);
        lemma_last_insertion(entries.drop_last(), name, i);
    }
}

impl Properties {
    /// The empty mapping.
    pub fn new() -> (p: Properties)
        ensures
            p@ == Map::<Seq<char>, Seq<char>>::empty(),
            p.entries@.len() == 0,
    {
        Properties { entries: Vec::new() }
    }

    /// Writes `value` under `name`, in place of any value written there
    /// before.
    pub fn insert(&mut self, name: String, value: String)
        ensures
            final(self)@ == old(self)@.insert(name@, value@),
            final(self).entries@ == old(self).entries@.push((name, value)),
    {
        let ghost before = self.entries@;
        self.entries.push((name, value));
        assert(self.entries@.drop_last() =~= before);
    }

    /// The value written under `name`, if there is one.
    pub fn get(&self, name: &str) -> (r: Option<&String>)
        ensures
            match r {
                Some(value) => self@.contains_key(name@) && self@[name@] == value@,
                None => !self@.contains_key(name@),
            },
    {
        let wanted = name.to_owned();
        let mut i: usize = self.entries.len();
        while i > 0
            invariant
                i <= self.entries@.len(),
                wanted@ == name@,
                forall|k: int|
                    i <= k < self.entries@.len() ==> (#[trigger] self.entries@[k]).0@ != name@,
            decreases i,
        {
            i -= 1;
            if self.entries[i].0 == wanted {
                proof {
                    lemma_last_insertion(self.entries@, name@, i as int);
                }
                return Some(&self.entries[i].1);
            }
        }
        proof {
            lemma_absent(self.entries@, name@);
        }
        None
    }

    /// Whether a value is written under `name`.
    pub fn contains_key(&self, name: &str) -> (b: bool)
        ensures
            b == self@.contains_key(name@),
    {
        self.get(name).is_some()
    }

    /// Whether nothing was inserted.
    pub fn is_empty(&self) -> (b: bool)
        ensures
            b == (self.entries@.len() == 0),
    {
        self.entries.len() == 0
    }
}

} // verus!
