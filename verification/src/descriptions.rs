//! The free-text sections of a grant, by name.

use vstd::prelude::*;

verus! {

/// A section as it is kept: its name and its text.
pub type Entry = (Seq<char>, Seq<char>);

/// The mapping that a list of sections stands for: each name with its text,
/// a later section of a name in place of an earlier one.
pub open spec fn mapping_of(entries: Seq<Entry>) -> Map<Seq<char>, Seq<char>>
    decreases entries.len(),
{
    if entries.len() == 0 {
        Map::empty()
    } else {
        mapping_of(entries.drop_last()).insert(entries.last().0, entries.last().1)
    }
}

/// No two sections of the list have one name.
pub open spec fn distinct_names(entries: Seq<Entry>) -> bool {
    forall|i: int, j: int| 0 <= i < j < entries.len() ==> entries[i].0 != entries[j].0
}

/// The mapping has exactly the names of the list.
pub proof fn lemma_mapping_names(entries: Seq<Entry>, name: Seq<char>)
    ensures
        mapping_of(entries).contains_key(name) <==> exists|i: int|
            0 <= i < entries.len() && entries[i].0 == name,
    decreases entries.len(),
{
    if entries.len() > 0 {
        let before = entries.drop_last();
        lemma_mapping_names(before, name);
        if mapping_of(entries).contains_key(name) {
            if entries.last().0 == name {
                assert(entries[entries.len() - 1].0 == name);
            } else {
                let i = choose|i: int| 0 <= i < before.len() && before[i].0 == name;
                assert(entries[i].0 == name);
            }
        }
        if exists|i: int| 0 <= i < entries.len() && entries[i].0 == name {
            let i = choose|i: int| 0 <= i < entries.len() && entries[i].0 == name;
            if i < before.len() {
                assert(before[i].0 == name);
            }
        }
    }
}

/// Where names are distinct, a section's name maps to its text.
pub proof fn lemma_mapping_entry(entries: Seq<Entry>, i: int)
    requires
        distinct_names(entries),
        0 <= i < entries.len(),
    ensures
        mapping_of(entries).contains_key(entries[i].0),
        mapping_of(entries)[entries[i].0] == entries[i].1,
    decreases entries.len(),
{
    let before = entries.drop_last();
    if i < before.len() {
        assert(distinct_names(before)) by {
            assert forall|a: int, b: int| 0 <= a < b < before.len() implies before[a].0
                != before[b].0 by {
                assert(entries[a].0 != entries[b].0);
            }
        }
        lemma_mapping_entry(before, i);
        assert(entries[i].0 != entries[entries.len() - 1].0);
    }
}

/// Where names are distinct, a new text for a section that is there gives the
/// mapping with that name mapped anew.
pub proof fn lemma_mapping_update(entries: Seq<Entry>, i: int, text: Seq<char>)
    requires
        distinct_names(entries),
        0 <= i < entries.len(),
    ensures
        mapping_of(entries.update(i, (entries[i].0, text))) == mapping_of(entries).insert(
            entries[i].0,
            text,
        ),
    decreases entries.len(),
{
    let name = entries[i].0;
    let updated = entries.update(i, (name, text));
    let before = entries.drop_last();
    if i == entries.len() - 1 {
        assert(updated.drop_last() =~= before);
        assert(mapping_of(updated) =~= mapping_of(entries).insert(name, text));
    } else {
        assert(distinct_names(before)) by {
            assert forall|a: int, b: int| 0 <= a < b < before.len() implies before[a].0
                != before[b].0 by {
                assert(entries[a].0 != entries[b].0);
            }
        }
        lemma_mapping_update(before, i, text);
        assert(updated.drop_last() =~= before.update(i, (name, text)));
        assert(updated.last() == entries.last());
        assert(entries[i].0 != entries[entries.len() - 1].0);
        assert(mapping_of(updated) =~= mapping_of(entries).insert(name, text));
    }
}

/// Where names are distinct, the mapping has as many names as the list has
/// sections.
pub proof fn lemma_mapping_len(entries: Seq<Entry>)
    requires
        distinct_names(entries),
    ensures
        mapping_of(entries).dom().finite(),
        mapping_of(entries).len() == entries.len(),
    decreases entries.len(),
{
    if entries.len() > 0 {
        let before = entries.drop_last();
        assert(distinct_names(before)) by {
            assert forall|a: int, b: int| 0 <= a < b < before.len() implies before[a].0
                != before[b].0 by {
                assert(entries[a].0 != entries[b].0);
            }
        }
        lemma_mapping_len(before);
        lemma_mapping_names(before, entries.last().0);
        if mapping_of(before).contains_key(entries.last().0) {
            let i = choose|i: int| 0 <= i < before.len() && before[i].0 == entries.last().0;
            assert(entries[i].0 != entries[entries.len() - 1].0);
        }
        assert(mapping_of(entries).dom() =~= mapping_of(before).dom().insert(entries.last().0));
    }
}

/// The free-text sections of a grant, each under its name. A name has one
/// text: a section stored under a name that is there takes the place of the
/// one before.
#[derive(Debug, PartialEq, Eq)]
pub struct Descriptions {
    /// Names and texts, in the order in which the names came first.
    entries: Vec<(String, String)>,
}

impl View for Descriptions {
    type V = Map<Seq<char>, Seq<char>>;

    closed spec fn view(&self) -> Map<Seq<char>, Seq<char>> {
        mapping_of(self.entries.deep_view())
    }
}

impl Default for Descriptions {
    fn default() -> (sections: Self)
        ensures
            sections@ == Map::<Seq<char>, Seq<char>>::empty(),
    {
        Descriptions::new()
    }
}

impl Clone for Descriptions {
    fn clone(&self) -> (copy: Self)
        ensures
            copy@ == self@,
    {
        proof {
            use_type_invariant(self);
        }
        let mut entries: Vec<(String, String)> = Vec::new();
        let mut i: usize = 0;
        proof {
            assert(entries.deep_view() =~= self.entries.deep_view().take(0));
        }
        while i < self.entries.len()
            invariant
                i <= self.entries.len(),
                entries.deep_view() == self.entries.deep_view().take(i as int),
            decreases self.entries.len() - i,
        {
            let ghost before = entries.deep_view();
            let name = self.entries[i].0.clone();
            let text = self.entries[i].1.clone();
            entries.push((name, text));
            proof {
                assert(entries.deep_view() =~= before.push((name@, text@)));
                assert(before.push((name@, text@)) =~= self.entries.deep_view().take(i + 1));
            }
            i = i + 1;
        }
        proof {
            assert(self.entries.deep_view().take(i as int) =~= self.entries.deep_view());
        }
        Descriptions { entries }
    }
}

impl Descriptions {
    #[verifier::type_invariant]
    spec fn names_are_distinct(self) -> bool {
        distinct_names(self.entries.deep_view())
    }

    /// No sections.
    pub fn new() -> (sections: Self)
        ensures
            sections@ == Map::<Seq<char>, Seq<char>>::empty(),
    {
        let sections = Descriptions { entries: Vec::new() };
        proof {
            assert(sections.entries.deep_view() =~= Seq::empty());
        }
        sections
    }

    /// Where the section `name` is kept.
    fn find(entries: &Vec<(String, String)>, name: &str) -> (place: Option<usize>)
        ensures
            match place {
                Some(i) => i < entries.len() && entries.deep_view()[i as int].0 == name@,
                None => forall|i: int|
                    0 <= i < entries.len() ==> entries.deep_view()[i].0 != name@,
            },
    {
        let mut i: usize = 0;
        while i < entries.len()
            invariant
                i <= entries.len(),
                forall|j: int| 0 <= j < i ==> entries.deep_view()[j].0 != name@,
            decreases entries.len() - i,
        {
            if crate::strings::same_text(entries[i].0.as_str(), name) {
                return Some(i);
            }
            i = i + 1;
        }
        None
    }

    /// Stores `text` as the section `name`, in place of any text stored
    /// under that name before.
    pub fn insert(&mut self, name: String, text: String)
        ensures
            final(self)@ == old(self)@.insert(name@, text@),
    {
        proof {
            use_type_invariant(&*self);
        }
        let ghost before = self.entries.deep_view();
        let mut entries: Vec<(String, String)> = Vec::new();
        proof {
            assert(entries.deep_view() =~= Seq::empty());
        }
        core::mem::swap(&mut self.entries, &mut entries);
        match Self::find(&entries, name.as_str()) {
            Some(i) => {
                entries.set(i, (name, text));
                proof {
                    assert(entries.deep_view() =~= before.update(i as int, (name@, text@)));
                    lemma_mapping_update(before, i as int, text@);
                    assert forall|a: int, b: int|
                        0 <= a < b < entries.len() implies entries.deep_view()[a].0
                        != entries.deep_view()[b].0 by {
                        assert(before[a].0 != before[b].0);
                    }
                }
            },
            None => {
                entries.push((name, text));
                proof {
                    assert(entries.deep_view() =~= before.push((name@, text@)));
                    assert(entries.deep_view().drop_last() =~= before);
                    assert forall|a: int, b: int|
                        0 <= a < b < entries.len() implies entries.deep_view()[a].0
                        != entries.deep_view()[b].0 by {
                        if b < before.len() {
                            assert(before[a].0 != before[b].0);
                        }
                    }
                }
            },
        }
        core::mem::swap(&mut self.entries, &mut entries);
    }

    /// The text of the section `name`; `None` where there is no such section.
    pub fn get(&self, name: &str) -> (text: Option<&String>)
        ensures
            match text {
                Some(text) => self@.contains_key(name@) && self@[name@] == text@,
                None => !self@.contains_key(name@),
            },
    {
        proof {
            use_type_invariant(self);
            lemma_mapping_names(self.entries.deep_view(), name@);
        }
        match Self::find(&self.entries, name) {
            Some(i) => {
                proof {
                    lemma_mapping_entry(self.entries.deep_view(), i as int);
                }
                Some(&self.entries[i].1)
            },
            None => None,
        }
    }

    /// Whether there is a section `name`.
    pub fn contains_key(&self, name: &str) -> (yes: bool)
        ensures
            yes == self@.contains_key(name@),
    {
        self.get(name).is_some()
    }

    /// The number of sections.
    pub fn len(&self) -> (n: usize)
        ensures
            n == self@.len(),
    {
        proof {
            use_type_invariant(self);
            lemma_mapping_len(self.entries.deep_view());
        }
        self.entries.len()
    }

    /// Whether there is no section.
    pub fn is_empty(&self) -> (yes: bool)
        ensures
            yes == (self@.len() == 0),
    {
        self.len() == 0
    }

    /// The sections, each with its name and its text, in the order in which
    /// the names came first.
    pub fn entries(&self) -> (entries: &Vec<(String, String)>)
        ensures
            distinct_names(entries.deep_view()),
            mapping_of(entries.deep_view()) == self@,
    {
        proof {
            use_type_invariant(self);
        }
        &self.entries
    }
}

} // verus!
