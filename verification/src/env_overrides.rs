//! An explicit override scope for key lookups, used to isolate test runs
//! from the real environment.
//!
//! An active scope answers every lookup from its own entries and never falls
//! back to the underlying key source; an inactive scope leaves lookups to
//! the underlying source untouched.  The scope is an explicit context value
//! handed through calls, so concurrent resolutions with different scopes
//! never observe each other's overrides.

use crate::key_source::KeyEntryView;
use crate::key_source::KeySource;
use crate::key_source::LookupResult;
use crate::key_source::LookupView;
use crate::key_source::lookup_spec;
use vstd::prelude::*;

verus! {

/// Model of an override scope: whether it is active, and its entries.
pub struct EnvOverridesView {
    pub active: bool,
    pub entries: Seq<KeyEntryView>,
}

/// An override scope for key lookups.
#[derive(Debug)]
pub struct EnvOverrides {
    active: bool,
    map: KeySource,
}

impl EnvOverrides {
    /// The model of the scope.
    pub closed spec fn view(&self) -> EnvOverridesView {
        EnvOverridesView { active: self.active, entries: self.map@ }
    }

    /// The override value the scope holds for `key`, if any.
    pub open spec fn get_spec(&self, key: Seq<char>) -> Option<Seq<char>> {
        match lookup_spec(self@.entries, key) {
            LookupView::Found(v) => Some(v),
            LookupView::NotPresent => None,
            LookupView::NotDecodable(_) => None,
        }
    }

    /// Begins an override scope with no overrides yet.
    pub fn init() -> (r: EnvOverrides)
        ensures
            r@.active,
            r@.entries == Seq::<KeyEntryView>::empty(),
    {
        EnvOverrides { active: true, map: KeySource::new() }
    }

    /// Sets an override for `key`, shadowing any earlier one.
    ///
    /// The scope must be active: setting an override outside an
    /// initialized scope is a caller bug.
    pub fn set(&mut self, key: &str, value: &str)
        requires
            old(self)@.active,
        ensures
            final(self)@.active,
            forall|k: Seq<char>|
                #[trigger] lookup_spec(final(self)@.entries, k) == if k == key@ {
                    LookupView::Found(value@)
                } else {
                    lookup_spec(old(self)@.entries, k)
                },
    {
        self.map.set(key, value);
    }

    /// The override value for `key`: `None` when the scope is inactive or
    /// holds no override for it.
    pub fn get(&self, key: &str) -> (r: Option<String>)
        ensures
            r.deep_view() == if self@.active {
                self.get_spec(key@)
            } else {
                None::<Seq<char>>
            },
    {
        if self.active {
            match self.map.lookup(key) {
                LookupResult::Found(v) => Some(v),
                LookupResult::NotPresent => None,
                LookupResult::NotDecodable(_) => None,
            }
        } else {
            None
        }
    }

    /// Whether the scope is active.
    pub fn is_initialized(&self) -> (r: bool)
        ensures
            r == self@.active,
    {
        self.active
    }

    /// Looks `key` up among the scope's own entries alone.
    fn lookup_override(&self, key: &str) -> (r: LookupResult)
        ensures
            r@ == lookup_spec(self@.entries, key@),
    {
        self.map.lookup(key)
    }

    /// The scope's own entries as a key source.
    fn map_as_source(&self) -> (r: KeySource)
        ensures
            r@ == self@.entries,
    {
        self.map.clone()
    }
}

impl Default for EnvOverrides {
    /// An inactive scope: lookups through it fall to the underlying source.
    fn default() -> (r: EnvOverrides)
        ensures
            !r@.active,
    {
        EnvOverrides { active: false, map: KeySource::new() }
    }
}

/// What reading `key` through the scope `ov` over the source `env` yields:
/// an active scope answers from its own entries alone, never falling back
/// to `env`; an inactive scope leaves the lookup to `env`.
pub open spec fn read_env_spec(
    ov: EnvOverridesView,
    env: Seq<KeyEntryView>,
    key: Seq<char>,
) -> LookupView {
    if ov.active {
        lookup_spec(ov.entries, key)
    } else {
        lookup_spec(env, key)
    }
}

/// An active scope isolates resolution from the underlying source
/// completely: what a read through it yields never depends on the
/// source, so resolutions running with different scopes never observe
/// each other's values.
pub proof fn lemma_active_scope_isolates(
    ov: EnvOverridesView,
    env1: Seq<KeyEntryView>,
    env2: Seq<KeyEntryView>,
    key: Seq<char>,
)
    requires
        ov.active,
    ensures
        read_env_spec(ov, env1, key) == read_env_spec(ov, env2, key),
{
}

/// Reads one key, honouring the override scope.
pub fn read_env(overrides: &EnvOverrides, env: &KeySource, key: &str) -> (r: LookupResult)
    ensures
        r@ == read_env_spec(overrides@, env@, key@),
{
    if overrides.is_initialized() {
        overrides.lookup_override(key)
    } else {
        env.lookup(key)
    }
}

/// The source that resolution effectively sees through an override scope:
/// every key reads as [`read_env`] would read it.
pub fn effective_source(overrides: &EnvOverrides, env: &KeySource) -> (r: KeySource)
    ensures
        forall|k: Seq<char>|
            #[trigger] lookup_spec(r@, k) == read_env_spec(overrides@, env@, k),
{
    if overrides.is_initialized() {
        overrides.map_as_source()
    } else {
        env.clone()
    }
}

} // verus!
