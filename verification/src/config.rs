//! Loading a typed configuration from a key source, and the field
//! resolver for caller-defined decoder types.

use crate::config_error::ConfigError;
use crate::config_error::ConfigFieldError;
use crate::config_error::ErrorNodeView;
use crate::config_value_decoder::ConfigValueDecoder;
use crate::key_source::KeySource;
use crate::key_source::LookupResult;
use crate::key_source::LookupView;
use crate::key_source::lookup_spec;
use crate::resolver::clone_keys;
use crate::resolver::clone_name;
use crate::resolver::first_present;
use vstd::prelude::*;

verus! {

/// A type that can be loaded from a key source in one resolution pass.
///
/// An implementation reads its fields' candidate keys from the source,
/// applies defaults, and returns either the constructed value or the full
/// error tree; it must never fail on the first error alone.
pub trait Config {
    /// Loads the configuration from the given key source, returning the
    /// constructed value or one error per failing field.
    fn load(source: &KeySource) -> Result<Self, ConfigError> where Self: Sized;
}

/// Turns a decode result into a field result: a decoded value resolves
/// the field, and a decode message becomes the field's parsing error,
/// carrying the raw value, the winning key and the field's identity.
pub fn leaf_outcome<T>(
    field_name: &Option<String>,
    field_idx: usize,
    env_var_name: &String,
    raw: String,
    decoded: Result<T, String>,
) -> (r: Result<T, ConfigFieldError>)
    ensures
        match decoded {
            Ok(v) => r == Ok::<T, ConfigFieldError>(v),
            Err(m) => r matches Err(e) && e@ == (ErrorNodeView::Parsing {
                idx: field_idx as int,
                name: field_name.deep_view(),
                raw: raw@,
                message: m@,
                key: env_var_name@,
            }),
        },
{
    match decoded {
        Ok(v) => Ok(v),
        Err(message) => Err(
            ConfigFieldError::ParsingError {
                field_idx,
                field_name: clone_name(field_name),
                raw,
                message,
                env_var_name: env_var_name.clone(),
            },
        ),
    }
}

/// Resolves one leaf field with a caller-defined decoder type.
///
/// The candidate keys are scanned in declared order, and the first key
/// that is present stops the scan, whether or not its value then decodes:
/// fallback to a later key happens only when a key is absent.  With every
/// key absent, an optional field resolves to no value, even when a
/// default is declared; otherwise a declared default resolves the field,
/// and without one the field is missing, with every tried key named.
/// When a present key's value decodes, the field resolves to that value;
/// when it does not, the decoder's message becomes the field's parsing
/// error; and an unreadable value becomes the field's `Other` error.
#[verifier::loop_isolation(false)]
pub fn resolve_leaf<T: ConfigValueDecoder>(
    field_name: &Option<String>,
    field_idx: usize,
    keys: &Vec<String>,
    optional: bool,
    default: Option<T>,
    src: &KeySource,
) -> (r: Result<Option<T>, ConfigFieldError>)
    ensures
        first_present(keys.deep_view(), src@, 0) is None ==> if optional {
            r == Ok::<Option<T>, ConfigFieldError>(None)
        } else {
            match default {
                Some(d) => r == Ok::<Option<T>, ConfigFieldError>(Some(d)),
                None => r matches Err(e) && e@ == (ErrorNodeView::Missing {
                    idx: field_idx as int,
                    name: field_name.deep_view(),
                    keys: keys.deep_view(),
                }),
            }
        },
        match first_present(keys.deep_view(), src@, 0) {
            Some(i) => match lookup_spec(src@, keys.deep_view()[i]) {
                LookupView::NotDecodable(m) => r matches Err(e) && e@ == (ErrorNodeView::Other {
                    idx: field_idx as int,
                    name: field_name.deep_view(),
                    message: m,
                }),
                LookupView::Found(raw) => (r matches Ok(v) && v is Some) || (r matches Err(e)
                    && e@ matches ErrorNodeView::Parsing {
                        idx: pi,
                        name: pn,
                        raw: pr,
                        key: pk,
                        ..
                    } && pi == field_idx as int && pn == field_name.deep_view() && pr == raw && pk
                    == keys.deep_view()[i]),
                LookupView::NotPresent => true,
            },
            None => true,
        },
{
    let n = keys.len();
    let mut i: usize = 0;
    while i < n
        invariant
            0 <= i <= n,
            first_present(keys.deep_view(), src@, 0) == first_present(
                keys.deep_view(),
                src@,
                i as int,
            ),
        decreases n - i,
    {
        proof {
            assert(keys.deep_view()[i as int] == keys[i as int]@);
        }
        let lr = src.lookup(keys[i].as_str());
        match lr {
            LookupResult::NotPresent => {
                i = i + 1;
            },
            LookupResult::NotDecodable(m) => {
                proof {
                    assert(first_present(keys.deep_view(), src@, i as int) == Some(i as int));
                }
                return Err(
                    ConfigFieldError::Other {
                        field_idx,
                        field_name: clone_name(field_name),
                        message: m,
                    },
                );
            },
            LookupResult::Found(raw) => {
                proof {
                    assert(first_present(keys.deep_view(), src@, i as int) == Some(i as int));
                }
                let raw_copy = raw.clone();
                let decoded = T::decode(raw);
                match leaf_outcome(field_name, field_idx, &keys[i], raw_copy, decoded) {
                    Ok(v) => {
                        return Ok(Some(v));
                    },
                    Err(e) => {
                        return Err(e);
                    },
                }
            },
        }
    }
    if optional {
        return Ok(None);
    }
    match default {
        Some(d) => Ok(Some(d)),
        None => Err(
            ConfigFieldError::MissingValue {
                field_name: clone_name(field_name),
                field_idx,
                env_vars: clone_keys(keys),
            },
        ),
    }
}

} // verus!
