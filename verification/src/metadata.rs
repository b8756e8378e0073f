//! Metadata: values attached to directives and postings under string keys.

use crate::account::Account;
use crate::amount::Amount;
use crate::currency::Currency;
use crate::date::Date;
use crate::decimal::Decimal;
use vstd::prelude::*;

verus! {

/// A tag, written `#tag` in a ledger.
pub type Tag = String;

/// A link, written `^link` in a ledger.
pub type Link = String;

/// A value of the metadata.
#[derive(Clone, Debug, PartialEq, Eq)]
pub enum MetaValue {
    Text(String),
    Account(Account),
    Date(Date),
    Currency(Currency),
    Tag(Tag),
    Bool(bool),
    Amount(Amount),
    Number(Decimal),
}

/// One entry of the metadata.
#[derive(Clone, Debug, PartialEq, Eq)]
pub struct MetaEntry {
    pub key: String,
    pub value: MetaValue,
}

/// Whether no key occurs twice among `entries`.
pub open spec fn keys_distinct(entries: Seq<MetaEntry>) -> bool {
    forall|i: int, j: int|
        0 <= i < j < entries.len() ==> (#[trigger] entries[i]).key@ != (#[trigger] entries[j]).key@
}

/// Whether `key` occurs among `entries`.
pub open spec fn has_key(entries: Seq<MetaEntry>, key: Seq<char>) -> bool {
    exists|i: int| 0 <= i < entries.len() && (#[trigger] entries[i]).key@ == key
}

/// The metadata of one directive or posting: values under keys, each key at
/// most once.
#[derive(Clone, Debug, PartialEq, Eq)]
pub struct Meta {
    entries: Vec<MetaEntry>,
}

impl Meta {
    /// Whether no key occurs twice. It holds of every value that this
    /// module hands out.
    pub closed spec fn wf(&self) -> bool {
        keys_distinct(self.entries@)
    }

    /// The entries, in the order in which their keys were first inserted.
    pub closed spec fn entries(&self) -> Seq<MetaEntry> {
        self.entries@
    }

    /// Whether the metadata has a value under `key`.
    pub open spec fn contains(&self, key: Seq<char>) -> bool {
        has_key(self.entries(), key)
    }

    /// Metadata without entries.
    pub fn new() -> (r: Meta)
        ensures
            r.wf(),
            r.entries().len() == 0,
    {
        Meta { entries: Vec::new() }
    }

    /// The number of entries.
    pub fn len(&self) -> (r: usize)
        ensures
            r == self.entries().len(),
    {
        self.entries.len()
    }

    /// The place of `key` among the entries.
    fn find(&self, key: &str) -> (r: Option<usize>)
        ensures
            match r {
                Some(i) => i < self.entries().len() && self.entries()[i as int].key@ == key@,
                None => !self.contains(key@),
            },
    {
        let mut i: usize = 0;
        while i < self.entries.len()
            invariant
                i <= self.entries@.len(),
                forall|j: int| 0 <= j < i ==> (#[trigger] self.entries@[j]).key@ != key@,
            decreases self.entries.len() - i,
        {
            if crate::text::str_eq(self.entries[i].key.as_str(), key) {
                return Some(i);
            }
            i = i + 1;
        }
        None
    }

    /// The value under `key`, if there is one.
    pub fn get(&self, key: &str) -> (r: Option<&MetaValue>)
        ensures
            r is Some <==> self.contains(key@),
            r is Some ==> exists|i: int|
                0 <= i < self.entries().len() && (#[trigger] self.entries()[i]).key@ == key@
                    && self.entries()[i].value == *r->0,
    {
        match self.find(key) {
            Some(i) => Some(&self.entries[i].value),
            None => None,
        }
    }

    /// The metadata with `value` under `key`. A value that stood under `key`
    /// is replaced; every other entry stays.
    pub fn with(self, key: String, value: MetaValue) -> (r: Meta)
        requires
            self.wf(),
        ensures
            r.wf(),
            r.contains(key@),
            forall|k: Seq<char>| k != key@ ==> (r.contains(k) <==> self.contains(k)),
            forall|i: int|
                0 <= i < r.entries().len() ==> (#[trigger] r.entries()[i]).key@ == key@
                    ==> r.entries()[i].value == value,
            forall|i: int|
                0 <= i < self.entries().len() && (#[trigger] self.entries()[i]).key@ != key@
                    ==> r.entries().contains(self.entries()[i]),
            r.entries().len() == self.entries().len() + if self.contains(key@) {
                0int
            } else {
                1int
            },
    {
        let found: Option<usize> = self.find(key.as_str());
        let ghost before = self.entries@;
        let mut entries: Vec<MetaEntry> = self.entries;
        match found {
            Some(i) => {
                entries.remove(i);
                entries.push(MetaEntry { key, value });
                proof {
                    let after = entries@;
                    assert forall|a: int, b: int| 0 <= a < b < after.len() implies (
                    #[trigger] after[a]).key@ != (#[trigger] after[b]).key@ by {
                        let sa = if a < i { a } else { a + 1 };
                        assert(after[a] == before[sa]);
                        if b < after.len() - 1 {
                            let sb = if b < i { b } else { b + 1 };
                            assert(after[b] == before[sb]);
                        } else {
                            assert(after[b].key@ == before[i as int].key@);
                        }
                    }
                    assert(after[after.len() - 1].key@ == key@);
                    assert forall|k: Seq<char>| k != key@ implies (has_key(after, k) <==> has_key(
                        before,
                        k,
                    )) by {
                        if has_key(after, k) {
                            let a = choose|a: int|
                                0 <= a < after.len() && (#[trigger] after[a]).key@ == k;
                            let sa = if a < i { a } else { a + 1 };
                            assert(after[a] == before[sa]);
                        }
                        if has_key(before, k) {
                            let a = choose|a: int|
                                0 <= a < before.len() && (#[trigger] before[a]).key@ == k;
                            let sa = if a < i { a } else { a - 1 };
                            assert(before[a] == after[sa]);
                        }
                    }
                    assert forall|a: int|
                        0 <= a < after.len() && (#[trigger] after[a]).key@ == key@ implies after[a].value
                        == value by {
                        if a < after.len() - 1 {
                            let sa = if a < i { a } else { a + 1 };
                            assert(after[a] == before[sa]);
                        }
                    }
                    assert forall|a: int|
                        0 <= a < before.len() && (#[trigger] before[a]).key@
                            != key@ implies after.contains(before[a]) by {
                        let sa = if a < i { a } else { a - 1 };
                        assert(after[sa] == before[a]);
                    }
                }
            },
            None => {
                entries.push(MetaEntry { key, value });
                proof {
                    let after = entries@;
                    assert(after[after.len() - 1].key@ == key@);
                    assert forall|k: Seq<char>| k != key@ implies (has_key(after, k) <==> has_key(
                        before,
                        k,
                    )) by {
                        if has_key(after, k) {
                            let a = choose|a: int|
                                0 <= a < after.len() && (#[trigger] after[a]).key@ == k;
                            assert(after[a] == before[a]);
                        }
                        if has_key(before, k) {
                            let a = choose|a: int|
                                0 <= a < before.len() && (#[trigger] before[a]).key@ == k;
                            assert(before[a] == after[a]);
                        }
                    }
                    assert forall|a: int|
                        0 <= a < before.len() && (#[trigger] before[a]).key@
                            != key@ implies after.contains(before[a]) by {
                        assert(after[a] == before[a]);
                    }
                }
            },
        }
        Meta { entries }
    }
}

impl Default for Meta {
    fn default() -> (r: Meta)
        ensures
            r.wf(),
            r.entries().len() == 0,
    {
        Meta::new()
    }
}

} // verus!
