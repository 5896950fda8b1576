//! Value-label dictionaries: for each dictionary and canonical value, the
//! label that the file gives it.

use vstd::prelude::*;

verus! {

#[derive(Debug)]
struct LabelEntry {
    key: String,
    label: String,
}

#[derive(Debug)]
struct Dictionary {
    id: String,
    entries: Vec<LabelEntry>,
}

/// The labels of a dictionary: a later entry for a value replaces an
/// earlier one.
spec fn entry_map(entries: Seq<LabelEntry>) -> Map<Seq<char>, Seq<char>>
    decreases entries.len(),
{
    if entries.len() == 0 {
        Map::empty()
    } else {
        entry_map(entries.drop_last()).insert(entries.last().key@, entries.last().label@)
    }
}

spec fn dictionary_map(dictionaries: Seq<Dictionary>) -> Map<Seq<char>, Map<Seq<char>, Seq<char>>>
    decreases dictionaries.len(),
{
    if dictionaries.len() == 0 {
        Map::empty()
    } else {
        dictionary_map(dictionaries.drop_last()).insert(
            dictionaries.last().id@,
            entry_map(dictionaries.last().entries@),
        )
    }
}

spec fn flattened(
    nested: Map<Seq<char>, Map<Seq<char>, Seq<char>>>,
) -> Map<(Seq<char>, Seq<char>), Seq<char>> {
    Map::new(
        |at: (Seq<char>, Seq<char>)| nested.contains_key(at.0) && nested[at.0].contains_key(at.1),
        |at: (Seq<char>, Seq<char>)| nested[at.0][at.1],
    )
}

proof fn lemma_entry_suffix(entries: Seq<LabelEntry>, from: int, key: Seq<char>)
    requires
        0 <= from <= entries.len(),
        forall|j: int| from <= j < entries.len() ==> (#[trigger] entries[j]).key@ != key,
    ensures
        entry_map(entries).contains_key(key) == entry_map(entries.take(from)).contains_key(key),
        entry_map(entries).contains_key(key) ==> entry_map(entries)[key] == entry_map(
            entries.take(from),
        )[key],
    decreases entries.len() - from,
{
    if from == entries.len() {
        assert(entries.take(from) =~= entries);
    } else {
        assert(entries.drop_last().take(from) =~= entries.take(from));
        lemma_entry_suffix(entries.drop_last(), from, key);
    }
}

proof fn lemma_dictionary_suffix(dictionaries: Seq<Dictionary>, from: int, id: Seq<char>)
    requires
        0 <= from <= dictionaries.len(),
        forall|j: int| from <= j < dictionaries.len() ==> (#[trigger] dictionaries[j]).id@ != id,
    ensures
        dictionary_map(dictionaries).contains_key(id) == dictionary_map(
            dictionaries.take(from),
        ).contains_key(id),
        dictionary_map(dictionaries).contains_key(id) ==> dictionary_map(dictionaries)[id]
            == dictionary_map(dictionaries.take(from))[id],
    decreases dictionaries.len() - from,
{
    if from == dictionaries.len() {
        assert(dictionaries.take(from) =~= dictionaries);
    } else {
        assert(dictionaries.drop_last().take(from) =~= dictionaries.take(from));
        lemma_dictionary_suffix(dictionaries.drop_last(), from, id);
    }
}

/// Replacing the last dictionary of a name changes the labels of that
/// name only.
proof fn lemma_dictionary_replace(dictionaries: Seq<Dictionary>, at: int, changed: Dictionary)
    requires
        0 <= at < dictionaries.len(),
        changed.id@ == dictionaries[at].id@,
        forall|j: int| at < j < dictionaries.len() ==> (#[trigger] dictionaries[j]).id@ != changed.id@,
    ensures
        dictionary_map(dictionaries.update(at, changed)) == dictionary_map(dictionaries).insert(
            changed.id@,
            entry_map(changed.entries@),
        ),
    decreases dictionaries.len(),
{
    let updated = dictionaries.update(at, changed);
    if at == dictionaries.len() - 1 {
        assert(updated.drop_last() =~= dictionaries.drop_last());
        assert(dictionary_map(updated) =~= dictionary_map(dictionaries).insert(
            changed.id@,
            entry_map(changed.entries@),
        ));
    } else {
        assert(updated.drop_last() =~= dictionaries.drop_last().update(at, changed));
        lemma_dictionary_replace(dictionaries.drop_last(), at, changed);
        assert(updated.last() == dictionaries.last());
        assert(dictionaries.last().id@ != changed.id@);
        assert(dictionary_map(updated) =~= dictionary_map(dictionaries).insert(
            changed.id@,
            entry_map(changed.entries@),
        ));
    }
}

proof fn lemma_flattened_insert(
    nested: Map<Seq<char>, Map<Seq<char>, Seq<char>>>,
    id: Seq<char>,
    key: Seq<char>,
    label: Seq<char>,
)
    ensures
        flattened(
            nested.insert(
                id,
                if nested.contains_key(id) {
                    nested[id].insert(key, label)
                } else {
                    Map::<Seq<char>, Seq<char>>::empty().insert(key, label)
                },
            ),
        ) == flattened(nested).insert((id, key), label),
{
    let inner = if nested.contains_key(id) {
        nested[id].insert(key, label)
    } else {
        Map::<Seq<char>, Seq<char>>::empty().insert(key, label)
    };
    let left = flattened(nested.insert(id, inner));
    let right = flattened(nested).insert((id, key), label);
    assert forall|at: (Seq<char>, Seq<char>)| left.contains_key(at) == right.contains_key(at) && (
    left.contains_key(at) ==> left[at] == right[at]) by {
        if at.0 == id {
            if at.1 == key {
                assert(at == (id, key));
            }
        }
    }
    assert(left =~= right);
}

/// The value-label dictionaries of a dataset.
#[derive(Debug)]
pub struct LabelDictionaries {
    dictionaries: Vec<Dictionary>,
}

impl View for LabelDictionaries {
    type V = Map<(Seq<char>, Seq<char>), Seq<char>>;

    /// The label of each pair of a dictionary's name and a canonical value.
    closed spec fn view(&self) -> Map<(Seq<char>, Seq<char>), Seq<char>> {
        flattened(dictionary_map(self.dictionaries@))
    }
}

/// The label that the dictionaries give a value; empty where they give
/// none.
pub open spec fn label_in(
    labels: Map<(Seq<char>, Seq<char>), Seq<char>>,
    dictionary_id: Seq<char>,
    key: Seq<char>,
) -> Seq<char> {
    if labels.contains_key((dictionary_id, key)) {
        labels[(dictionary_id, key)]
    } else {
        Seq::empty()
    }
}

impl LabelDictionaries {
    pub fn new() -> (labels: LabelDictionaries)
        ensures
            labels@ == Map::<(Seq<char>, Seq<char>), Seq<char>>::empty(),
    {
        let labels = LabelDictionaries { dictionaries: Vec::new() };
        assert(labels@ =~= Map::<(Seq<char>, Seq<char>), Seq<char>>::empty());
        labels
    }

    fn find(&self, dictionary_id: &String) -> (found: Option<usize>)
        ensures
            match found {
                Some(at) => {
                    &&& at < self.dictionaries.len()
                    &&& self.dictionaries[at as int].id@ == dictionary_id@
                    &&& forall|j: int|
                        at < j < self.dictionaries.len() ==> (#[trigger] self.dictionaries[j]).id@
                            != dictionary_id@
                    &&& dictionary_map(self.dictionaries@).contains_key(dictionary_id@)
                    &&& dictionary_map(self.dictionaries@)[dictionary_id@] == entry_map(
                        self.dictionaries[at as int].entries@,
                    )
                },
                None => !dictionary_map(self.dictionaries@).contains_key(dictionary_id@),
            },
    {
        let mut i: usize = self.dictionaries.len();
        while i > 0
            invariant
                i <= self.dictionaries.len(),
                forall|j: int|
                    i <= j < self.dictionaries.len() ==> (#[trigger] self.dictionaries[j]).id@
                        != dictionary_id@,
            decreases i,
        {
            i -= 1;
            if self.dictionaries[i].id == *dictionary_id {
                proof {
                    lemma_dictionary_suffix(self.dictionaries@, i + 1, dictionary_id@);
                    assert(self.dictionaries@.take(i + 1).drop_last() =~= self.dictionaries@.take(
                        i as int,
                    ));
                }
                return Some(i);
            }
        }
        proof {
            lemma_dictionary_suffix(self.dictionaries@, 0, dictionary_id@);
        }
        None
    }

    /// Records the label of one value in one dictionary. A label given
    /// before for the same value is replaced.
    pub fn define(&mut self, dictionary_id: &str, key: &str, label: &str)
        ensures
            final(self)@ == old(self)@.insert((dictionary_id@, key@), label@),
    {
        let id = dictionary_id.to_owned();
        let entry = LabelEntry { key: key.to_owned(), label: label.to_owned() };
        let ghost before = self.dictionaries@;
        match self.find(&id) {
            Some(at) => {
                let ghost entries = self.dictionaries[at as int].entries@;
                self.dictionaries[at].entries.push(entry);
                proof {
                    let changed = self.dictionaries[at as int];
                    assert(changed.entries@.drop_last() =~= entries);
                    assert(self.dictionaries@ =~= before.update(at as int, changed));
                    lemma_dictionary_replace(before, at as int, changed);
                    lemma_flattened_insert(dictionary_map(before), id@, key@, label@);
                    assert(changed.entries@.last() == entry);
                }
            },
            None => {
                let mut entries: Vec<LabelEntry> = Vec::new();
                entries.push(entry);
                assert(entries@.drop_last() =~= Seq::<LabelEntry>::empty());
                self.dictionaries.push(Dictionary { id, entries });
                proof {
                    assert(self.dictionaries@.drop_last() =~= before);
                    lemma_flattened_insert(dictionary_map(before), id@, key@, label@);
                    assert(entry_map(Seq::<LabelEntry>::empty()) == Map::<Seq<char>, Seq<char>>::empty());
                    assert(entries@.last() == entry);
                }
            },
        }
    }

    /// The label of a value in a dictionary, if the dictionary gives one.
    pub fn get(&self, dictionary_id: &str, key: &str) -> (label: Option<&String>)
        ensures
            label is Some == self@.contains_key((dictionary_id@, key@)),
            label is Some ==> label->0@ == self@[(dictionary_id@, key@)],
    {
        let id = dictionary_id.to_owned();
        let wanted = key.to_owned();
        match self.find(&id) {
            Some(at) => {
                let entries = &self.dictionaries[at].entries;
                let mut i: usize = entries.len();
                while i > 0
                    invariant
                        i <= entries.len(),
                        wanted@ == key@,
                        id@ == dictionary_id@,
                        dictionary_map(self.dictionaries@).contains_key(id@),
                        dictionary_map(self.dictionaries@)[id@] == entry_map(entries@),
                        forall|j: int| i <= j < entries.len() ==> (#[trigger] entries[j]).key@ != key@,
                    decreases i,
                {
                    i -= 1;
                    if entries[i].key == wanted {
                        proof {
                            lemma_entry_suffix(entries@, i + 1, key@);
                            assert(entries@.take(i + 1).drop_last() =~= entries@.take(i as int));
                        }
                        return Some(&entries[i].label);
                    }
                }
                proof {
                    lemma_entry_suffix(entries@, 0, key@);
                }
                None
            },
            None => None,
        }
    }

    /// The label of a value in a dictionary; empty if the dictionary gives
    /// none or there is no such dictionary.
    pub fn label_of(&self, dictionary_id: &str, key: &str) -> (label: String)
        ensures
            label@ == label_in(self@, dictionary_id@, key@),
    {
        match self.get(dictionary_id, key) {
            Some(label) => label.clone(),
            None => String::new(),
        }
    }
}

} // verus!
