//! The key source: a synchronous "get string by name" table, together with
//! the explicit per-scope override context used to isolate test runs from
//! the surrounding environment.
//!
//! A [`KeySource`] is plain data: a snapshot of named string parameters.
//! Code at the edge of the program fills one from the real environment and
//! hands it to the resolution engine.

use vstd::prelude::*;

verus! {

/// The outcome of looking one key up in a key source.
#[derive(Debug)]
pub enum LookupResult {
    /// The key is present and its value reads as text.
    Found(String),
    /// The key is absent.
    NotPresent,
    /// The key is present but its value cannot be read as text; the message
    /// describes the failure.
    NotDecodable(String),
}

/// Mathematical model of a lookup outcome.
pub enum LookupView {
    Found(Seq<char>),
    NotPresent,
    NotDecodable(Seq<char>),
}

impl View for LookupResult {
    type V = LookupView;

    open spec fn view(&self) -> LookupView {
        match self {
            LookupResult::Found(v) => LookupView::Found(v@),
            LookupResult::NotPresent => LookupView::NotPresent,
            LookupResult::NotDecodable(m) => LookupView::NotDecodable(m@),
        }
    }
}

impl Clone for LookupResult {
    /// Copies the outcome; the copy has the same model.
    fn clone(&self) -> (r: LookupResult)
        ensures
            r@ == self@,
    {
        match self {
            LookupResult::Found(v) => LookupResult::Found(v.clone()),
            LookupResult::NotPresent => LookupResult::NotPresent,
            LookupResult::NotDecodable(m) => LookupResult::NotDecodable(m.clone()),
        }
    }
}

/// One named entry of a key source.
#[derive(Debug)]
pub struct KeyEntry {
    /// The key under which the entry is found.
    pub key: String,
    /// What a lookup of that key yields.
    pub result: LookupResult,
}

/// Model of one key-source entry.
pub struct KeyEntryView {
    pub key: Seq<char>,
    pub result: LookupView,
}

impl View for KeyEntry {
    type V = KeyEntryView;

    open spec fn view(&self) -> KeyEntryView {
        KeyEntryView { key: self.key@, result: self.result@ }
    }
}

/// What looking up `key` in the entry sequence `s` yields: the outcome of
/// the first entry whose key matches, or `NotPresent` when none does.
pub open spec fn lookup_spec(s: Seq<KeyEntryView>, key: Seq<char>) -> LookupView
    decreases s.len(),
{
    if s.len() == 0 {
        LookupView::NotPresent
    } else if s[0].key == key {
        s[0].result
    } else {
        lookup_spec(s.drop_first(), key)
    }
}

/// A snapshot of named string parameters, consulted one key at a time.
#[derive(Debug)]
pub struct KeySource {
    entries: Vec<KeyEntry>,
}

impl KeySource {
    /// The entries of the source, in the order they are consulted.
    pub closed spec fn view(&self) -> Seq<KeyEntryView> {
        Seq::new(self.entries.len() as nat, |i: int| self.entries[i]@)
    }

    /// A source with no keys at all.
    pub fn new() -> (r: KeySource)
        ensures
            r@ == Seq::<KeyEntryView>::empty(),
    {
        let r = KeySource { entries: Vec::new() };
        proof {
            assert(r@ =~= Seq::<KeyEntryView>::empty());
        }
        r
    }

    /// Makes `key` present with the readable value `value`, shadowing any
    /// earlier entry for the same key.
    pub fn set(&mut self, key: &str, value: &str)
        ensures
            forall|k: Seq<char>|
                #[trigger] lookup_spec(final(self)@, k) == if k == key@ {
                    LookupView::Found(value@)
                } else {
                    lookup_spec(old(self)@, k)
                },
    {
        let entry = KeyEntry { key: key.to_owned(), result: LookupResult::Found(value.to_owned()) };
        self.entries.insert(0, entry);
        proof {
            assert forall|k: Seq<char>|
                #[trigger] lookup_spec(self@, k) == if k == key@ {
                    LookupView::Found(value@)
                } else {
                    lookup_spec(old(self)@, k)
                } by {
                assert(self@[0].key == key@);
                assert(self@.drop_first() =~= old(self)@);
            }
        }
    }

    /// Makes `key` present but unreadable, with `message` describing why,
    /// shadowing any earlier entry for the same key.
    pub fn set_unreadable(&mut self, key: &str, message: &str)
        ensures
            forall|k: Seq<char>|
                #[trigger] lookup_spec(final(self)@, k) == if k == key@ {
                    LookupView::NotDecodable(message@)
                } else {
                    lookup_spec(old(self)@, k)
                },
    {
        let entry = KeyEntry {
            key: key.to_owned(),
            result: LookupResult::NotDecodable(message.to_owned()),
        };
        self.entries.insert(0, entry);
        proof {
            assert forall|k: Seq<char>|
                #[trigger] lookup_spec(self@, k) == if k == key@ {
                    LookupView::NotDecodable(message@)
                } else {
                    lookup_spec(old(self)@, k)
                } by {
                assert(self@[0].key == key@);
                assert(self@.drop_first() =~= old(self)@);
            }
        }
    }

    /// Looks `key` up: the first entry whose key matches decides the
    /// outcome, and a key with no entry is `NotPresent`.
    pub fn lookup(&self, key: &str) -> (r: LookupResult)
        ensures
            r@ == lookup_spec(self@, key@),
    {
        let k = key.to_owned();
        let mut i: usize = 0;
        proof {
            assert(self@.skip(0) =~= self@);
        }
        while i < self.entries.len()
            invariant
                0 <= i <= self.entries.len(),
                k@ == key@,
                lookup_spec(self@, key@) == lookup_spec(self@.skip(i as int), key@),
            decreases self.entries.len() - i,
        {
            proof {
                assert(self@.skip(i as int).len() > 0);
                assert(self@.skip(i as int)[0] == self@[i as int]);
                assert(self@[i as int].key == self.entries[i as int].key@);
            }
            if self.entries[i].key == k {
                return self.entries[i].result.clone();
            }
            proof {
                assert(self@.skip(i as int).drop_first() =~= self@.skip(i + 1));
            }
            i = i + 1;
        }
        proof {
            assert(self@.skip(i as int).len() == 0);
        }
        LookupResult::NotPresent
    }
}

impl Clone for KeySource {
    /// Copies the source; the copy has the same model.
    fn clone(&self) -> (r: KeySource)
        ensures
            r@ == self@,
    {
        let mut entries: Vec<KeyEntry> = Vec::new();
        let mut i: usize = 0;
        while i < self.entries.len()
            invariant
                0 <= i <= self.entries.len(),
                entries@.len() == i as int,
                forall|j: int| 0 <= j < i as int ==> entries@[j]@ == self@[j],
            decreases self.entries.len() - i,
        {
            entries.push(
                KeyEntry { key: self.entries[i].key.clone(), result: self.entries[i].result.clone() },
            );
            i = i + 1;
        }
        let r = KeySource { entries };
        proof {
            assert(r@ =~= self@);
        }
        r
    }
}

} // verus!
