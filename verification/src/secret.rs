//! A wrapper that marks a value as sensitive, so that reporting code
//! renders a masked placeholder instead of the literal value.

use core::hash::Hasher;
use vstd::prelude::*;
use vstd::string::StringExecFns;

verus! {

/// A wrapper for sensitive configuration values such as passwords and
/// tokens.  Reporting code renders it as `Secret(..)` with a hash of the
/// value in place of the value itself; no cryptographic protection is
/// implied, and the wrapped value stays accessible through the public
/// field.
#[derive(Clone)]
pub struct Secret<T>(pub T);

impl<T: core::hash::Hash> Secret<T> {
    /// A hash of the wrapped value as lowercase hexadecimal text, for
    /// logging or comparison without exposing the value.
    ///
    /// Relies on std's `DefaultHasher` (every instance made by `new`
    /// hashes alike) and on the `LowerHex` rendering of `u64`, which
    /// yields only hexadecimal digits.
    #[verifier::external_body]
    pub fn hashed(&self) -> (r: String)
        ensures
            r@.len() >= 1,
            forall|i: int| 0 <= i < r@.len() ==> is_hex_digit(#[trigger] r@[i]),
    {
        let mut hasher = std::collections::hash_map::DefaultHasher::new();
        self.0.hash(&mut hasher);
        format!("{:x}", hasher.finish())
    }

    /// The masked rendering of the secret: `Secret(` followed by the hash
    /// of the value and `)`.  The value itself never appears.
    pub fn masked(&self) -> (r: String)
        ensures
            ({
                let h = r@.subrange(7, r@.len() - 1);
                &&& r@.len() >= 9
                &&& r@ == "Secret("@ + h + ")"@
                &&& forall|i: int| 0 <= i < h.len() ==> is_hex_digit(#[trigger] h[i])
            }),
    {
        let mut out: String = "Secret(".to_owned();
        let h = self.hashed();
        out.append(h.as_str());
        out.append(")");
        proof {
            reveal_strlit("Secret(");
            reveal_strlit(")");
            assert(out@.subrange(7, out@.len() - 1) =~= h@);
            assert(out@ =~= "Secret("@ + h@ + ")"@);
        }
        out
    }
}

/// Whether `c` is a lowercase hexadecimal digit.
pub open spec fn is_hex_digit(c: char) -> bool {
    ('0' <= c && c <= '9') || ('a' <= c && c <= 'f')
}

} // verus!
