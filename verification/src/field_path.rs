//! Dotted paths of field identities, from the record root down to a leaf.
//!
//! A path segment is a field's declared name, or its positional index
//! rendered in decimal when the field has no name.

use crate::decimal::decimal_digits;
use crate::decimal::decimal_string;
use crate::text::split_string;
use vstd::prelude::*;
use vstd::string::StrSliceExecFns;
use vstd::string::StringExecFns;

verus! {

/// The dot-separated rendering of a sequence of path segments.
pub open spec fn dotted(segments: Seq<Seq<char>>) -> Seq<char>
    decreases segments.len(),
{
    if segments.len() == 0 {
        Seq::empty()
    } else if segments.len() == 1 {
        segments[0]
    } else {
        dotted(segments.drop_last()) + seq!['.'] + segments.last()
    }
}

/// A hierarchical field path, rendered as dot-separated segments.
#[derive(Debug)]
pub struct FieldPath {
    segments: Vec<String>,
}

impl FieldPath {
    /// The ordered segments of the path.
    pub closed spec fn view(&self) -> Seq<Seq<char>> {
        self.segments.deep_view()
    }

    /// Creates a new empty path representing the root level.
    pub fn root() -> (r: FieldPath)
        ensures
            r@ == Seq::<Seq<char>>::empty(),
    {
        let r = FieldPath { segments: Vec::new() };
        proof {
            assert(r@ =~= Seq::<Seq<char>>::empty());
        }
        r
    }

    /// Creates a new path by appending a segment to this path.
    pub fn with_segment(&self, rhs: &str) -> (r: FieldPath)
        ensures
            r@ == self@.push(rhs@),
    {
        let mut segments = self.segments.clone();
        segments.push(rhs.to_owned());
        let r = FieldPath { segments };
        proof {
            assert(r@ =~= self@.push(rhs@));
        }
        r
    }

    /// Converts the path to a dot-separated string representation.
    pub fn dotted_path(&self) -> (r: String)
        ensures
            r@ == dotted(self@),
    {
        let mut out = String::new();
        let mut i: usize = 0;
        while i < self.segments.len()
            invariant
                0 <= i <= self.segments.len(),
                out@ == dotted(self@.take(i as int)),
            decreases self.segments.len() - i,
        {
            if i > 0 {
                out.append(".");
            }
            out.append(self.segments[i].as_str());
            proof {
                reveal_strlit(".");
                assert(self@.take(i + 1).drop_last() =~= self@.take(i as int));
                assert(self@.take(i + 1).last() == self@[i as int]);
                if i == 0 {
                    assert(out@ =~= dotted(self@.take(i + 1)));
                } else {
                    assert(out@ =~= dotted(self@.take(i + 1)));
                }
            }
            i = i + 1;
        }
        proof {
            assert(self@.take(self.segments.len() as int) =~= self@);
        }
        out
    }
}

impl core::str::FromStr for FieldPath {
    type Err = ();

    /// Reads a dot-separated path back into its segments; the empty
    /// string is the root path.
    fn from_str(s: &str) -> Result<FieldPath, ()> {
        if s.unicode_len() == 0 {
            Ok(FieldPath::root())
        } else {
            Ok(FieldPath { segments: split_string(s, '.') })
        }
    }
}

/// The path segment of a field identity: the declared name, or the
/// positional index rendered in decimal when there is none.
pub open spec fn seg_of(name: Option<Seq<char>>, idx: int) -> Seq<char> {
    match name {
        Some(n) => n,
        None => if idx >= 0 {
            decimal_digits(idx as nat)
        } else {
            arbitrary()
        },
    }
}

/// Extends `path` by the segment of the given field identity.
pub fn push_segment(path: &FieldPath, name: &Option<String>, idx: usize) -> (r: FieldPath)
    ensures
        r@ == path@.push(seg_of(name.deep_view(), idx as int)),
{
    match name {
        Some(n) => path.with_segment(n.as_str()),
        None => {
            let d = decimal_string(idx);
            path.with_segment(d.as_str())
        },
    }
}

} // verus!
