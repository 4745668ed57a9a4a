use vstd::prelude::*;

verus! {

/// The value of one named compile input: JSON text, or blob bytes
/// resolved from the blob store.
#[derive(Debug)]
pub enum InputValue {
    Json(String),
    Blob(Vec<u8>),
}

/// The mathematical value of an input.
pub enum InputValueModel {
    Json(Seq<char>),
    Blob(Seq<u8>),
}

/// One named input, as accumulated for a single compile call.
#[derive(Debug)]
pub struct NamedInput {
    pub key: String,
    pub value: InputValue,
}

pub open spec fn input_value_model(v: InputValue) -> InputValueModel {
    match v {
        InputValue::Json(text) => InputValueModel::Json(text@),
        InputValue::Blob(data) => InputValueModel::Blob(data@),
    }
}

/// An ordered accumulation of named inputs for one compile call. It is
/// not persisted and carries no identity beyond its entries.
pub struct InputSet {
    entries: Vec<NamedInput>,
}

/// The value a key ends up with when the entries are applied in list
/// order: the last entry for the key wins.
pub open spec fn effective(s: Seq<(Seq<char>, InputValueModel)>, key: Seq<char>) -> Option<
    InputValueModel,
>
    decreases s.len(),
{
    if s.len() == 0 {
        None
    } else if s.last().0 == key {
        Some(s.last().1)
    } else {
        effective(s.drop_last(), key)
    }
}

impl InputSet {
    /// The ordered entries: each key with its value, oldest first.
    pub closed spec fn view(self) -> Seq<(Seq<char>, InputValueModel)> {
        self.entries@.map(|i: int, e: NamedInput| (e.key@, input_value_model(e.value)))
    }

    /// An input set with no entries.
    pub fn new() -> (s: InputSet)
        ensures
            s@ == Seq::<(Seq<char>, InputValueModel)>::empty(),
    {
        let s = InputSet { entries: Vec::new() };
        proof {
            assert(s@ =~= Seq::<(Seq<char>, InputValueModel)>::empty());
        }
        s
    }

    /// The number of entries.
    pub fn len(&self) -> (r: usize)
        ensures
            r == self@.len(),
    {
        self.entries.len()
    }

    /// Append a JSON input under the key; applied after every entry
    /// already in the set.
    pub fn push_json(&mut self, key: String, text: String)
        ensures
            final(self)@ == old(self)@.push((key@, InputValueModel::Json(text@))),
    {
        self.entries.push(NamedInput { key, value: InputValue::Json(text) });
        proof {
            assert(self@ =~= old(self)@.push(
                (self.entries@.last().key@, input_value_model(self.entries@.last().value)),
            ));
        }
    }

    /// Append a blob input under the key; applied after every entry
    /// already in the set.
    pub fn push_blob(&mut self, key: String, data: Vec<u8>)
        ensures
            final(self)@ == old(self)@.push((key@, InputValueModel::Blob(data@))),
    {
        self.entries.push(NamedInput { key, value: InputValue::Blob(data) });
        proof {
            assert(self@ =~= old(self)@.push(
                (self.entries@.last().key@, input_value_model(self.entries@.last().value)),
            ));
        }
    }

    /// The entry at a position, oldest first.
    pub fn entry_at(&self, i: usize) -> (r: &NamedInput)
        requires
            i < self@.len(),
        ensures
            r.key@ == self@[i as int].0,
            input_value_model(r.value) == self@[i as int].1,
    {
        &self.entries[i]
    }

    /// The entry that decides the key: the latest one with that key, if
    /// any.
    pub fn effective_value(&self, key: &String) -> (r: Option<&InputValue>)
        ensures
            match r {
                Some(v) => effective(self@, key@) == Some(input_value_model(*v)),
                None => effective(self@, key@) is None,
            },
    {
        let mut found: Option<usize> = None;
        let mut i: usize = 0;
        while i < self.entries.len()
            invariant
                i <= self.entries@.len(),
                self@.len() == self.entries@.len(),
                forall|j: int|
                    0 <= j < self.entries@.len() ==> self@[j] == (self.entries@[j].key@,
                    input_value_model(self.entries@[j].value)),
                match found {
                    Some(f) => f < i && self.entries@[f as int].key@ == key@ && forall|j: int|
                        f < j < i ==> self.entries@[j].key@ != key@,
                    None => forall|j: int| 0 <= j < i ==> self.entries@[j].key@ != key@,
                },
            decreases self.entries@.len() - i,
        {
            if self.entries[i].key == *key {
                found = Some(i);
            }
            i += 1;
        }
        match found {
            Some(f) => {
                proof {
                    lemma_effective_last(self@, key@, f as int);
                }
                Some(&self.entries[f].value)
            },
            None => {
                proof {
                    lemma_effective_absent(self@, key@);
                }
                None
            },
        }
    }
}

proof fn lemma_effective_absent(s: Seq<(Seq<char>, InputValueModel)>, key: Seq<char>)
    requires
        forall|j: int| 0 <= j < s.len() ==> s[j].0 != key,
    ensures
        effective(s, key) is None,
    decreases s.len(),
{
    if s.len() > 0 {
        lemma_effective_absent(s.drop_last(), key);
    }
}

proof fn lemma_effective_last(s: Seq<(Seq<char>, InputValueModel)>, key: Seq<char>, i: int)
    requires
        0 <= i < s.len(),
        s[i].0 == key,
        forall|j: int| i < j < s.len() ==> s[j].0 != key,
    ensures
        effective(s, key) == Some(s[i].1),
    decreases s.len(),
{
    if i + 1 < s.len() {
        lemma_effective_last(s.drop_last(), key, i);
    }
}

/// Accumulation is last-write-wins per key: after appending an entry,
/// that entry decides its own key.
pub proof fn lemma_later_entry_wins(
    s: Seq<(Seq<char>, InputValueModel)>,
    key: Seq<char>,
    value: InputValueModel,
)
    ensures
        effective(s.push((key, value)), key) == Some(value),
{
}

/// Appending an entry leaves every other key's effective value as it
/// was.
pub proof fn lemma_other_keys_unchanged(
    s: Seq<(Seq<char>, InputValueModel)>,
    key: Seq<char>,
    value: InputValueModel,
    other: Seq<char>,
)
    requires
        other != key,
    ensures
        effective(s.push((key, value)), other) == effective(s, other),
{
    assert(s.push((key, value)).drop_last() =~= s);
}

} // verus!
