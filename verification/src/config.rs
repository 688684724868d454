//! Configuration as a dynamically typed value.

use crate::text::texts;
use vstd::prelude::*;

verus! {

/// A configuration value: nothing, a flag, a number, a text, a list, or a
/// section of named values.
///
/// A number is held as the bit pattern of an IEEE 754 double, so that the
/// value a loader read is kept exactly; see [`crate::number`].
#[derive(Debug)]
pub enum CObject {
    Null,
    Bool(bool),
    Number(u64),
    String(String),
    Array(Vec<CObject>),
    Object(Section),
}

/// Named values in the order in which they were inserted; no name occurs twice.
#[derive(Debug)]
pub struct Section {
    entries: Vec<(String, CObject)>,
}

/// The value stored under `key`, if any.
pub open spec fn lookup(entries: Seq<(Seq<char>, CObject)>, key: Seq<char>) -> Option<CObject>
    decreases entries.len(),
{
    if entries.len() == 0 {
        None
    } else if entries[0].0 == key {
        Some(entries[0].1)
    } else {
        lookup(entries.drop_first(), key)
    }
}

/// `entries` with `value` stored under `key`: in place where the key is
/// present, at the end where it is not.
pub open spec fn store(entries: Seq<(Seq<char>, CObject)>, key: Seq<char>, value: CObject) -> Seq<
    (Seq<char>, CObject),
>
    decreases entries.len(),
{
    if entries.len() == 0 {
        seq![(key, value)]
    } else if entries[0].0 == key {
        seq![(key, value)] + entries.drop_first()
    } else {
        seq![entries[0]] + store(entries.drop_first(), key, value)
    }
}

/// Each entry with its name as a sequence of characters.
pub open spec fn pairs(entries: Seq<(String, CObject)>) -> Seq<(Seq<char>, CObject)> {
    Seq::new(entries.len(), |i: int| (entries[i].0@, entries[i].1))
}

/// No name occurs twice.
pub open spec fn distinct(entries: Seq<(Seq<char>, CObject)>) -> bool {
    forall|i: int, j: int| 0 <= i < j < entries.len() ==> entries[i].0 != entries[j].0
}

impl Section {
    /// The entries as pairs of a name and a value, in order.
    pub closed spec fn view(&self) -> Seq<(Seq<char>, CObject)> {
        pairs(self.entries@)
    }

    /// No name occurs twice.
    #[verifier::type_invariant]
    pub open spec fn wf(&self) -> bool {
        distinct(self@)
    }

    /// A section without entries.
    pub fn new() -> (r: Section)
        ensures
            r@ == Seq::<(Seq<char>, CObject)>::empty(),
            r.wf(),
    {
        let r = Section { entries: Vec::new() };
        assert(r@ =~= Seq::<(Seq<char>, CObject)>::empty());
        r
    }

    /// The number of entries.
    pub fn len(&self) -> (n: usize)
        ensures
            n == self@.len(),
    {
        self.entries.len()
    }

    /// The name of the entry at `index`.
    pub fn key(&self, index: usize) -> (r: &String)
        requires
            index < self@.len(),
        ensures
            r@ == self@[index as int].0,
    {
        &self.entries[index].0
    }

    /// The value of the entry at `index`.
    pub fn value(&self, index: usize) -> (r: &CObject)
        requires
            index < self@.len(),
        ensures
            *r == self@[index as int].1,
    {
        &self.entries[index].1
    }

    /// The value stored under `key`.
    pub fn get(&self, key: &str) -> (r: Option<&CObject>)
        ensures
            match r {
                Some(value) => lookup(self@, key@) == Some(*value),
                None => lookup(self@, key@) is None,
            },
    {
        let wanted = key.to_owned();
        let mut i: usize = 0;
        assert(self@.skip(0) =~= self@);
        while i < self.entries.len()
            invariant
                i <= self.entries.len(),
                wanted@ == key@,
                lookup(self@, key@) == lookup(self@.skip(i as int), key@),
            decreases self.entries.len() - i,
        {
            assert(self@.skip(i as int).drop_first() =~= self@.skip(i + 1));
            if self.entries[i].0 == wanted {
                return Some(&self.entries[i].1);
            }
            i = i + 1;
        }
        None
    }

    /// Stores `value` under `key`, in place of the value that was there.
    pub fn insert(&mut self, key: String, value: CObject)
        ensures
            final(self)@ == store(old(self)@, key@, value),
            final(self).wf(),
    {
        proof {
            use_type_invariant(&*self);
            lemma_store_distinct(self@, key@, value);
        }
        let mut entries: Vec<(String, CObject)> = Vec::new();
        std::mem::swap(&mut entries, &mut self.entries);
        let ghost before = pairs(entries@);
        assert(before =~= old(self)@);
        let mut i: usize = 0;
        while i < entries.len()
            invariant
                i <= entries.len(),
                pairs(entries@) == before,
                before == old(self)@,
                distinct(store(before, key@, value)),
                forall|j: int| 0 <= j < i ==> before[j].0 != key@,
            decreases entries.len() - i,
        {
            if entries[i].0 == key {
                entries[i] = (key, value);
                proof {
                    lemma_store_at(before, key@, value, i as int);
                    assert(pairs(entries@) =~= before.update(i as int, (key@, value)));
                }
                self.entries = entries;
                return ;
            }
            i = i + 1;
        }
        entries.push((key, value));
        proof {
            lemma_store_absent(before, key@, value);
            assert(pairs(entries@) =~= before.push((key@, value)));
        }
        self.entries = entries;
    }
}

/// Storing under a name that no entry has appends the pair.
pub proof fn lemma_store_absent(entries: Seq<(Seq<char>, CObject)>, key: Seq<char>, value: CObject)
    requires
        forall|j: int| 0 <= j < entries.len() ==> entries[j].0 != key,
    ensures
        store(entries, key, value) == entries.push((key, value)),
    decreases entries.len(),
{
    if entries.len() > 0 {
        lemma_store_absent(entries.drop_first(), key, value);
        assert(seq![entries[0]] + entries.drop_first().push((key, value)) =~= entries.push(
            (key, value),
        ));
    } else {
        assert(seq![(key, value)] =~= entries.push((key, value)));
    }
}

/// Storing under the name of the entry at `at`, the first with that name,
/// replaces that entry.
pub proof fn lemma_store_at(
    entries: Seq<(Seq<char>, CObject)>,
    key: Seq<char>,
    value: CObject,
    at: int,
)
    requires
        0 <= at < entries.len(),
        entries[at].0 == key,
        forall|j: int| 0 <= j < at ==> entries[j].0 != key,
    ensures
        store(entries, key, value) == entries.update(at, (key, value)),
    decreases at,
{
    if at == 0 {
        assert(seq![(key, value)] + entries.drop_first() =~= entries.update(0, (key, value)));
    } else {
        lemma_store_at(entries.drop_first(), key, value, at - 1);
        assert(seq![entries[0]] + entries.drop_first().update(at - 1, (key, value))
            =~= entries.update(at, (key, value)));
    }
}

/// After storing, the name holds the value stored, and every other name
/// holds what it held before.
pub proof fn law_lookup_after_store(
    entries: Seq<(Seq<char>, CObject)>,
    key: Seq<char>,
    value: CObject,
    other: Seq<char>,
)
    ensures
        lookup(store(entries, key, value), key) == Some(value),
        other != key ==> lookup(store(entries, key, value), other) == lookup(entries, other),
    decreases entries.len(),
{
    let stored = store(entries, key, value);
    if entries.len() == 0 {
        assert(stored.drop_first() =~= Seq::<(Seq<char>, CObject)>::empty());
        assert(lookup(stored.drop_first(), other) is None);
    } else if entries[0].0 == key {
        assert(stored[0] == (key, value));
        assert(stored.drop_first() =~= entries.drop_first());
    } else {
        law_lookup_after_store(entries.drop_first(), key, value, other);
        assert(stored[0] == entries[0]);
        assert(stored.drop_first() =~= store(entries.drop_first(), key, value));
    }
}

/// Storing keeps the names distinct.
pub proof fn lemma_store_distinct(
    entries: Seq<(Seq<char>, CObject)>,
    key: Seq<char>,
    value: CObject,
)
    requires
        distinct(entries),
    ensures
        distinct(store(entries, key, value)),
{
    if exists|at: int| 0 <= at < entries.len() && entries[at].0 == key {
        let at = choose|at: int| 0 <= at < entries.len() && entries[at].0 == key;
        assert forall|j: int| 0 <= j < at implies entries[j].0 != key by {}
        lemma_store_at(entries, key, value, at);
    } else {
        lemma_store_absent(entries, key, value);
    }
}

/// The texts among `items`, in order, without the empty ones; an item that is
/// no text counts as empty.
pub open spec fn filled(items: Seq<CObject>) -> Seq<Seq<char>>
    decreases items.len(),
{
    if items.len() == 0 {
        Seq::empty()
    } else if items.last().text().len() > 0 {
        filled(items.drop_last()).push(items.last().text())
    } else {
        filled(items.drop_last())
    }
}

impl CObject {
    /// The text, or the empty text for a value that is none.
    pub open spec fn text(self) -> Seq<char> {
        match self {
            CObject::String(text) => text@,
            _ => Seq::empty(),
        }
    }

    /// The number as the bits of a double, or those of zero for a value that
    /// is no number.
    pub open spec fn number(self) -> u64 {
        match self {
            CObject::Number(bits) => bits,
            _ => 0,
        }
    }

    /// The section, if the value is one.
    pub open spec fn object(self) -> Option<Section> {
        match self {
            CObject::Object(section) => Some(section),
            _ => None,
        }
    }

    /// The texts of a list without the empty ones, or no text at all for a
    /// value that is no list.
    pub open spec fn list(self) -> Seq<Seq<char>> {
        match self {
            CObject::Array(items) => filled(items@),
            _ => Seq::empty(),
        }
    }

    /// The value as a text; a value that is none converts to the empty text.
    pub fn as_string(&self) -> (r: String)
        ensures
            r@ == self.text(),
    {
        match self {
            CObject::String(text) => text.clone(),
            _ => String::new(),
        }
    }

    /// The value as a number, in the bits of a double; a value that is none
    /// converts to zero.
    pub fn as_number(&self) -> (r: u64)
        ensures
            r == self.number(),
    {
        match self {
            CObject::Number(bits) => *bits,
            _ => 0,
        }
    }

    /// The value as a section, where it is one.
    pub fn as_object(&self) -> (r: Option<&Section>)
        ensures
            match r {
                Some(section) => self.object() == Some(*section),
                None => self.object() is None,
            },
    {
        match self {
            CObject::Object(section) => Some(section),
            _ => None,
        }
    }

    /// The value as a list of texts: of a list, its texts that are not empty,
    /// in order; of any other value, nothing.
    pub fn as_list(&self) -> (r: Vec<String>)
        ensures
            texts(r@) == self.list(),
    {
        let mut out: Vec<String> = Vec::new();
        match self {
            CObject::Array(items) => {
                let mut i: usize = 0;
                assert(items@.take(0) =~= Seq::<CObject>::empty());
                assert(texts(out@) =~= Seq::<Seq<char>>::empty());
                while i < items.len()
                    invariant
                        i <= items.len(),
                        texts(out@) == filled(items@.take(i as int)),
                    decreases items.len() - i,
                {
                    assert(items@.take(i + 1).drop_last() =~= items@.take(i as int));
                    let text = items[i].as_string();
                    let ghost before = texts(out@);
                    if !text.as_str().is_empty() {
                        out.push(text);
                        assert(texts(out@) =~= before.push(items@[i as int].text()));
                    }
                    i = i + 1;
                }
                assert(items@.take(items.len() as int) =~= items@);
            },
            _ => {
                assert(texts(out@) =~= Seq::<Seq<char>>::empty());
            },
        }
        out
    }
}

/// The section stored under `key`, if a section is stored there.
pub open spec fn object_at(entries: Seq<(Seq<char>, CObject)>, key: Seq<char>) -> Option<Section> {
    match lookup(entries, key) {
        Some(value) => value.object(),
        None => None,
    }
}

/// The value stored under `key` as a text, if any value is stored there.
pub open spec fn text_at(entries: Seq<(Seq<char>, CObject)>, key: Seq<char>) -> Option<Seq<char>> {
    match lookup(entries, key) {
        Some(value) => Some(value.text()),
        None => None,
    }
}

/// The value stored under `key` as a number, if any value is stored there.
pub open spec fn number_at(entries: Seq<(Seq<char>, CObject)>, key: Seq<char>) -> Option<u64> {
    match lookup(entries, key) {
        Some(value) => Some(value.number()),
        None => None,
    }
}

impl Section {
    /// The section stored under `key`.
    pub fn object(&self, key: &str) -> (r: Option<&Section>)
        ensures
            match r {
                Some(section) => object_at(self@, key@) == Some(*section),
                None => object_at(self@, key@) is None,
            },
    {
        match self.get(key) {
            Some(value) => value.as_object(),
            None => None,
        }
    }

    /// The value stored under `key`, as a text.
    pub fn string(&self, key: &str) -> (r: Option<String>)
        ensures
            match r {
                Some(text) => text_at(self@, key@) == Some(text@),
                None => text_at(self@, key@) is None,
            },
    {
        match self.get(key) {
            Some(value) => Some(value.as_string()),
            None => None,
        }
    }

    /// The value stored under `key`, as a number.
    pub fn number(&self, key: &str) -> (r: Option<u64>)
        ensures
            r == number_at(self@, key@),
    {
        match self.get(key) {
            Some(value) => Some(value.as_number()),
            None => None,
        }
    }
}

} // verus!
