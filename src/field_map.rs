use vstd::prelude::*;
use crate::value::FieldValue;

verus! {

/// An ordered map from column names to values. Entries keep the order in
/// which their keys were first inserted, and each key occurs once.
#[derive(Debug, Clone, PartialEq)]
pub struct FieldMap {
    entries: Vec<(String, FieldValue)>,
}

/// The top-level shape of a conditions or data argument.
#[derive(Debug, Clone, PartialEq)]
pub enum Payload {
    /// No argument was given (a JSON `null`).
    Null,
    /// A JSON object.
    Object(FieldMap),
    /// Any other JSON value, which is never a valid argument.
    Other,
}

/// Whether `k` is the key of some entry of `s`.
pub open spec fn has_key(s: Seq<(Seq<char>, FieldValue)>, k: Seq<char>) -> bool {
    exists|i: int| 0 <= i < s.len() && #[trigger] s[i].0 == k
}

impl View for FieldMap {
    type V = Seq<(Seq<char>, FieldValue)>;

    closed spec fn view(&self) -> Seq<(Seq<char>, FieldValue)> {
        self.entries@.map_values(|e: (String, FieldValue)| (e.0@, e.1))
    }
}

impl FieldMap {
    /// No key occurs twice.
    pub open spec fn wf(&self) -> bool {
        forall|i: int, j: int|
            0 <= i < j < self@.len() ==> #[trigger] self@[i].0 != #[trigger] self@[j].0
    }

    /// The empty map.
    pub fn new() -> (r: FieldMap)
        ensures
            r@ == Seq::<(Seq<char>, FieldValue)>::empty(),
            r.wf(),
    {
        let r = FieldMap { entries: Vec::new() };
        assert(r@ =~= Seq::<(Seq<char>, FieldValue)>::empty());
        r
    }

    /// The number of entries.
    pub fn len(&self) -> (r: usize)
        ensures
            r == self@.len(),
    {
        self.entries.len()
    }

    /// Whether the map has no entry.
    pub fn is_empty(&self) -> (r: bool)
        ensures
            r == (self@.len() == 0),
    {
        self.entries.len() == 0
    }

    /// The key of the entry at position `i`.
    pub fn key_at(&self, i: usize) -> (r: &String)
        requires
            i < self@.len(),
        ensures
            r@ == self@[i as int].0,
    {
        &self.entries[i].0
    }

    /// The value of the entry at position `i`.
    pub fn value_at(&self, i: usize) -> (r: &FieldValue)
        requires
            i < self@.len(),
        ensures
            *r == self@[i as int].1,
    {
        &self.entries[i].1
    }

    /// Sets the value of `key`. An existing key keeps its position and takes
    /// the new value; a new key is appended at the end.
    pub fn insert(&mut self, key: String, value: FieldValue)
        ensures
            has_key(old(self)@, key@) ==> exists|i: int|
                0 <= i < old(self)@.len() && old(self)@[i].0 == key@ && final(self)@ == old(
                    self,
                )@.update(i, (key@, value)),
            !has_key(old(self)@, key@) ==> final(self)@ == old(self)@.push((key@, value)),
            old(self).wf() ==> final(self).wf(),
    {
        let n = self.entries.len();
        let mut i: usize = 0;
        while i < n
            invariant
                n == self.entries.len(),
                *self == *old(self),
                i <= n,
                forall|j: int| 0 <= j < i ==> #[trigger] self@[j].0 != key@,
            decreases n - i,
        {
            if self.entries[i].0 == key {
                let ghost before = self@;
                self.entries.set(i, (key, value));
                assert(self@ =~= before.update(i as int, (key@, value)));
                assert(before[i as int].0 == key@);
                assert(has_key(before, key@));
                return;
            }
            i = i + 1;
        }
        let ghost before = self@;
        self.entries.push((key, value));
        assert(self@ =~= before.push((key@, value)));
        assert(!has_key(before, key@));
    }
}

} // verus!
