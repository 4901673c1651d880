//! Label sets: finite maps from label keys to label values.

use vstd::prelude::*;

verus! {

/// One label: a key and the value that it carries.
#[derive(Debug)]
struct Label {
    key: String,
    value: String,
}

/// The map that a sequence of labels stands for. Where two entries share a
/// key, the later one decides.
spec fn label_map(entries: Seq<Label>) -> Map<Seq<char>, Seq<char>>
    decreases entries.len(),
{
    if entries.len() == 0 {
        Map::empty()
    } else {
        label_map(entries.drop_last()).insert(entries.last().key@, entries.last().value@)
    }
}

/// No key occurs twice among the entries.
spec fn distinct_keys(entries: Seq<Label>) -> bool {
    forall|i: int, j: int| 0 <= i < j < entries.len() ==> entries[i].key@ != entries[j].key@
}

/// Some entry carries the key.
spec fn has_key(entries: Seq<Label>, key: Seq<char>) -> bool {
    exists|i: int| 0 <= i < entries.len() && #[trigger] entries[i].key@ == key
}

/// The keys of `label_map` are the keys of the entries, and there are
/// finitely many of them.
proof fn lemma_label_map_dom(entries: Seq<Label>)
    ensures
        label_map(entries).dom().finite(),
        forall|key: Seq<char>| #[trigger]
            label_map(entries).contains_key(key) <==> has_key(entries, key),
    decreases entries.len(),
{
    if entries.len() > 0 {
        let front = entries.drop_last();
        lemma_label_map_dom(front);
        assert forall|key: Seq<char>| #[trigger]
            label_map(entries).contains_key(key) <==> has_key(entries, key) by {
            if has_key(entries, key) {
                let i = choose|i: int| 0 <= i < entries.len() && #[trigger] entries[i].key@ == key;
                if i < entries.len() - 1 {
                    assert(front[i].key@ == key);
                    assert(has_key(front, key));
                }
            }
            if label_map(entries).contains_key(key) {
                if key == entries.last().key@ {
                    assert(entries[entries.len() - 1].key@ == key);
                } else {
                    assert(has_key(front, key));
                    let i = choose|i: int| 0 <= i < front.len() && #[trigger] front[i].key@ == key;
                    assert(entries[i].key@ == key);
                }
            }
        }
    }
}

/// With distinct keys, each entry's key is mapped to that entry's value.
proof fn lemma_label_map_value(entries: Seq<Label>, i: int)
    requires
        distinct_keys(entries),
        0 <= i < entries.len(),
    ensures
        label_map(entries).contains_key(entries[i].key@),
        label_map(entries)[entries[i].key@] == entries[i].value@,
    decreases entries.len(),
{
    if i < entries.len() - 1 {
        let front = entries.drop_last();
        assert(distinct_keys(front)) by {
            assert forall|a: int, b: int| 0 <= a < b < front.len() implies front[a].key@
                != front[b].key@ by {
                assert(entries[a].key@ != entries[b].key@);
            }
        }
        lemma_label_map_value(front, i);
        assert(front[i] == entries[i]);
        assert(entries[i].key@ != entries[entries.len() - 1].key@);
    }
}

/// With distinct keys, the map has as many keys as there are entries.
proof fn lemma_label_map_len(entries: Seq<Label>)
    requires
        distinct_keys(entries),
    ensures
        label_map(entries).dom().finite(),
        label_map(entries).len() == entries.len(),
    decreases entries.len(),
{
    lemma_label_map_dom(entries);
    if entries.len() > 0 {
        let front = entries.drop_last();
        assert(distinct_keys(front)) by {
            assert forall|a: int, b: int| 0 <= a < b < front.len() implies front[a].key@
                != front[b].key@ by {
                assert(entries[a].key@ != entries[b].key@);
            }
        }
        lemma_label_map_len(front);
        lemma_label_map_dom(front);
        let last_key = entries.last().key@;
        assert(!label_map(front).contains_key(last_key)) by {
            if has_key(front, last_key) {
                let i = choose|i: int| 0 <= i < front.len() && #[trigger] front[i].key@ == last_key;
                assert(entries[i].key@ != entries[entries.len() - 1].key@);
            }
        }
        assert(label_map(entries).dom() =~= label_map(front).dom().insert(last_key));
    }
}

/// Taking one entry out keeps the keys distinct and takes exactly its key
/// out of the map.
proof fn lemma_label_map_remove(entries: Seq<Label>, i: int)
    requires
        distinct_keys(entries),
        0 <= i < entries.len(),
    ensures
        distinct_keys(entries.remove(i)),
        label_map(entries.remove(i)) == label_map(entries).remove(entries[i].key@),
{
    let rest = entries.remove(i);
    let gone = entries[i].key@;
    assert(distinct_keys(rest)) by {
        assert forall|a: int, b: int| 0 <= a < b < rest.len() implies rest[a].key@
            != rest[b].key@ by {
            let a0 = if a < i { a } else { a + 1 };
            let b0 = if b < i { b } else { b + 1 };
            assert(entries[a0].key@ != entries[b0].key@);
        }
    }
    lemma_label_map_dom(entries);
    lemma_label_map_dom(rest);
    assert forall|key: Seq<char>| #[trigger]
        label_map(rest).contains_key(key) <==> label_map(entries).remove(gone).contains_key(
            key,
        ) by {
        if has_key(rest, key) {
            let a = choose|a: int| 0 <= a < rest.len() && #[trigger] rest[a].key@ == key;
            let a0 = if a < i { a } else { a + 1 };
            assert(entries[a0].key@ == key);
            if a0 < i {
                assert(entries[a0].key@ != entries[i].key@);
            } else {
                assert(entries[i].key@ != entries[a0].key@);
            }
        }
        if has_key(entries, key) && key != gone {
            let a0 = choose|a: int| 0 <= a < entries.len() && #[trigger] entries[a].key@ == key;
            let a = if a0 < i { a0 } else { a0 - 1 };
            assert(rest[a].key@ == key);
        }
    }
    assert forall|key: Seq<char>| label_map(rest).contains_key(key) implies #[trigger] label_map(
        rest,
    )[key] == label_map(entries).remove(gone)[key] by {
        let a = choose|a: int| 0 <= a < rest.len() && #[trigger] rest[a].key@ == key;
        let a0 = if a < i { a } else { a + 1 };
        lemma_label_map_value(rest, a);
        lemma_label_map_value(entries, a0);
    }
    assert(label_map(rest) =~= label_map(entries).remove(gone));
}

/// Where the entry, if there is one: the index of the entry that carries
/// `key`.
fn position(entries: &Vec<Label>, key: &String) -> (found: Option<usize>)
    ensures
        match found {
            Some(i) => i < entries.len() && entries[i as int].key@ == key@,
            None => !has_key(entries@, key@),
        },
{
    let mut i: usize = 0;
    while i < entries.len()
        invariant
            i <= entries.len(),
            forall|j: int| 0 <= j < i ==> entries[j].key@ != key@,
        decreases entries.len() - i,
    {
        if entries[i].key == *key {
            return Some(i);
        }
        i += 1;
    }
    None
}

/// A finite map from label keys to label values.
#[derive(Debug)]
pub struct Labels {
    entries: Vec<Label>,
}

impl View for Labels {
    type V = Map<Seq<char>, Seq<char>>;

    closed spec fn view(&self) -> Self::V {
        label_map(self.entries@)
    }
}

impl Labels {
    #[verifier::type_invariant]
    spec fn well_formed(&self) -> bool {
        distinct_keys(self.entries@)
    }

    /// The empty label set.
    pub fn new() -> (labels: Self)
        ensures
            labels@ == Map::<Seq<char>, Seq<char>>::empty(),
    {
        Labels { entries: Vec::new() }
    }

    /// The number of labels.
    pub fn len(&self) -> (n: usize)
        ensures
            self@.dom().finite(),
            n == self@.len(),
    {
        proof {
            use_type_invariant(self);
            lemma_label_map_len(self.entries@);
        }
        self.entries.len()
    }

    /// The value under `key`, if the set has that key.
    pub fn get(&self, key: &str) -> (value: Option<&String>)
        ensures
            match value {
                Some(v) => self@.contains_key(key@) && v@ == self@[key@],
                None => !self@.contains_key(key@),
            },
    {
        proof {
            use_type_invariant(self);
            lemma_label_map_dom(self.entries@);
        }
        let key = String::from_str(key);
        match position(&self.entries, &key) {
            Some(i) => {
                proof {
                    lemma_label_map_value(self.entries@, i as int);
                }
                Some(&self.entries[i].value)
            },
            None => None,
        }
    }

    /// Puts `value` under `key`, in place of what was there.
    pub fn insert(&mut self, key: String, value: String)
        ensures
            final(self)@ == old(self)@.insert(key@, value@),
    {
        proof {
            use_type_invariant(&*self);
        }
        let mut entries: Vec<Label> = Vec::new();
        std::mem::swap(&mut self.entries, &mut entries);
        match position(&entries, &key) {
            Some(i) => {
                proof {
                    lemma_label_map_remove(entries@, i as int);
                }
                entries.remove(i);
            },
            None => {
                proof {
                    lemma_label_map_dom(entries@);
                }
                assert(label_map(entries@) =~= old(self)@.remove(key@));
            },
        }
        proof {
            let kept = entries@;
            let entry = Label { key, value };
            lemma_label_map_dom(kept);
            assert(!has_key(kept, key@));
            assert(kept.push(entry).drop_last() =~= kept);
            assert forall|a: int, b: int| 0 <= a < b < kept.len() + 1 implies kept.push(
                entry,
            )[a].key@ != kept.push(entry)[b].key@ by {
                if b == kept.len() {
                    assert(kept[a].key@ != key@);
                }
            }
            assert(label_map(kept.push(entry)) =~= old(self)@.insert(key@, value@));
        }
        entries.push(Label { key, value });
        self.entries = entries;
    }

    /// Takes `key` out, if the set has it.
    pub fn remove(&mut self, key: &str)
        ensures
            final(self)@ == old(self)@.remove(key@),
    {
        proof {
            use_type_invariant(&*self);
        }
        let key = String::from_str(key);
        let mut entries: Vec<Label> = Vec::new();
        std::mem::swap(&mut self.entries, &mut entries);
        match position(&entries, &key) {
            Some(i) => {
                proof {
                    lemma_label_map_remove(entries@, i as int);
                }
                entries.remove(i);
            },
            None => {
                proof {
                    lemma_label_map_dom(entries@);
                }
                assert(label_map(entries@) =~= old(self)@.remove(key@));
            },
        }
        self.entries = entries;
    }

    /// Whether the two sets hold the same labels.
    pub fn same_as(&self, other: &Labels) -> (same: bool)
        ensures
            same == (self@ == other@),
    {
        proof {
            use_type_invariant(self);
            use_type_invariant(other);
            lemma_label_map_len(self.entries@);
            lemma_label_map_len(other.entries@);
            lemma_label_map_dom(self.entries@);
            lemma_label_map_dom(other.entries@);
        }
        if self.entries.len() != other.entries.len() {
            return false;
        }
        let mut i: usize = 0;
        while i < self.entries.len()
            invariant
                i <= self.entries.len(),
                distinct_keys(self.entries@),
                distinct_keys(other.entries@),
                forall|key: Seq<char>| #[trigger]
                    label_map(other.entries@).contains_key(key) <==> has_key(other.entries@, key),
                forall|j: int|
                    0 <= j < i ==> label_map(other.entries@).contains_key(
                        #[trigger] self.entries[j].key@,
                    ) && label_map(other.entries@)[self.entries[j].key@] == self.entries[j].value@,
            decreases self.entries.len() - i,
        {
            proof {
                lemma_label_map_value(self.entries@, i as int);
            }
            match position(&other.entries, &self.entries[i].key) {
                Some(k) => {
                    proof {
                        lemma_label_map_value(other.entries@, k as int);
                    }
                    if !(other.entries[k].value == self.entries[i].value) {
                        return false;
                    }
                },
                None => {
                    return false;
                },
            }
            i += 1;
        }
        proof {
            assert forall|key: Seq<char>| self@.contains_key(key) implies other@.contains_key(
                key,
            ) && other@[key] == self@[key] by {
                let j = choose|j: int|
                    0 <= j < self.entries.len() && #[trigger] self.entries[j].key@ == key;
                lemma_label_map_value(self.entries@, j);
            }
            assert(self@.dom().subset_of(other@.dom()));
            vstd::set_lib::lemma_subset_equality(self@.dom(), other@.dom());
            assert(self@ =~= other@);
        }
        true
    }

    /// A copy that holds the same labels.
    pub fn duplicate(&self) -> (copy: Labels)
        ensures
            copy@ == self@,
    {
        proof {
            use_type_invariant(self);
        }
        let mut entries: Vec<Label> = Vec::new();
        let mut i: usize = 0;
        while i < self.entries.len()
            invariant
                i <= self.entries.len(),
                entries@ == self.entries@.take(i as int),
            decreases self.entries.len() - i,
        {
            let entry = Label {
                key: self.entries[i].key.clone(),
                value: self.entries[i].value.clone(),
            };
            assert(self.entries@.take(i + 1) =~= self.entries@.take(i as int).push(entry));
            entries.push(entry);
            i += 1;
        }
        assert(entries@ =~= self.entries@);
        Labels { entries }
    }
}

} // verus!
