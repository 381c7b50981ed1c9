//! The resolution engine: one pass over a schema against a key source.
//!
//! The field resolver scans a field's candidate keys in declared order and
//! stops at the first key that is present, whether or not its value then
//! decodes.  The record composer resolves every field independently and
//! aggregates all failures; the variant composer tries each variant in
//! order and keeps only the last failure.  Every function's result equals
//! a mathematical model of the pass, stated over the schema's and source's
//! views.

use crate::config_error::ConfigError;
use crate::config_error::ConfigFieldError;
use crate::config_error::ErrorNodeView;
use crate::decoders::nonzero_signed_spec;
use crate::decoders::nonzero_unsigned_spec;
use crate::decoders::parse_bool;
use crate::decoders::parse_char;
use crate::decoders::decode_nonzero_signed;
use crate::decoders::decode_nonzero_unsigned;
use crate::key_source::KeyEntryView;
use crate::key_source::KeySource;
use crate::key_source::LookupResult;
use crate::key_source::LookupView;
use crate::key_source::lookup_spec;
use crate::net_addr::IpValue;
use crate::net_addr::SockValue;
use crate::net_addr::ip_any_spec;
use crate::net_addr::ip_error_message;
use crate::net_addr::ipv4_error_message;
use crate::net_addr::ipv4_spec;
use crate::net_addr::ipv6_error_message;
use crate::net_addr::ipv6_spec;
use crate::net_addr::parse_ip_any;
use crate::net_addr::parse_ipv4;
use crate::net_addr::parse_ipv6;
use crate::net_addr::parse_sock_any;
use crate::net_addr::parse_sock_v4;
use crate::net_addr::parse_sock_v6;
use crate::net_addr::sock_any_spec;
use crate::net_addr::sock_error_message;
use crate::net_addr::sock_v4_spec;
use crate::net_addr::sock_v6_spec;
use crate::numeric::int_error_message;
use crate::numeric::int_error_string;
use crate::numeric::parse_signed;
use crate::numeric::parse_signed_exec;
use crate::numeric::parse_unsigned;
use crate::numeric::parse_unsigned_exec;
use crate::schema::ConfigValue;
use crate::schema::FieldKind;
use crate::schema::FieldKindView;
use crate::schema::FieldSpec;
use crate::schema::FieldSpecView;
use crate::schema::Schema;
use crate::schema::SchemaView;
use crate::schema::VariantSpec;
use crate::schema::VariantSpecView;
use crate::schema::decoder_view;
use crate::schema::field_spec_view;
use crate::schema::fields_views;
use crate::schema::values_views;
use crate::schema::variants_views;
use crate::schema::lemma_record_value_view;
use crate::schema::lemma_variant_value_view;
use crate::schema::lemma_schema_record_view;
use crate::schema::lemma_schema_sum_view;
use crate::schema::value_view;
use crate::config_error::error_views;
use crate::config_error::lemma_error_tree_view;
use crate::config_error::lemma_nested_node_view;
use crate::schema::DecoderKind;
use crate::schema::DecoderView;
use crate::schema::IntWidth;
use crate::schema::max_of_signed;
use crate::schema::max_of_unsigned;
use crate::schema::min_of_signed;
use crate::schema::ValueView;
use crate::text::lower_seq;
use crate::text::eq_ignore_ascii_case;
use vstd::prelude::*;
use vstd::string::StringExecFns;

verus! {

/// The index of the first declared name that matches `raw` up to ASCII
/// case, scanning from position `i`.
pub open spec fn first_choice(names: Seq<Seq<char>>, raw: Seq<char>, i: int) -> Option<int>
    decreases names.len() - i,
{
    if !(0 <= i < names.len()) {
        None
    } else if lower_seq(names[i]) == lower_seq(raw) {
        Some(i)
    } else {
        first_choice(names, raw, i + 1)
    }
}

/// The message of an enumeration decoder for an input that matches no
/// declared name; it names the offending input.
pub open spec fn choice_error_message(raw: Seq<char>) -> Seq<char> {
    "Invalid log level: "@ + raw
}

/// What decoding `raw` with the decoder `d` yields: the decoded value, or
/// the message describing the failure.  Decoding is a pure function of the
/// decoder and the raw string alone.
pub open spec fn decode_spec(d: DecoderView, raw: Seq<char>) -> Result<ValueView, Seq<char>>
    decreases d,
{
    match d {
        DecoderView::Text => Ok(ValueView::Str(raw)),
        DecoderView::Boolean => match parse_bool(raw) {
            Ok(b) => Ok(ValueView::Bool(b)),
            Err(m) => Err(m),
        },
        DecoderView::Character => match parse_char(raw) {
            Ok(c) => Ok(ValueView::Char(c)),
            Err(m) => Err(m),
        },
        DecoderView::Unsigned(w) => match parse_unsigned(raw, max_of_unsigned(w)) {
            Ok(v) => Ok(ValueView::Uint(v)),
            Err(e) => Err(int_error_message(e)),
        },
        DecoderView::Signed(w) => match parse_signed(raw, min_of_signed(w), max_of_signed(w)) {
            Ok(v) => Ok(ValueView::Int(v)),
            Err(e) => Err(int_error_message(e)),
        },
        DecoderView::NonZeroUnsigned(w) => match nonzero_unsigned_spec(raw, max_of_unsigned(w)) {
            Ok(v) => Ok(ValueView::Uint(v)),
            Err(m) => Err(m),
        },
        DecoderView::NonZeroSigned(w) => match nonzero_signed_spec(
            raw,
            min_of_signed(w),
            max_of_signed(w),
        ) {
            Ok(v) => Ok(ValueView::Int(v)),
            Err(m) => Err(m),
        },
        DecoderView::Ipv4 => match ipv4_spec(raw) {
            Some(ip) => Ok(ValueView::V4(ip)),
            None => Err(ipv4_error_message()),
        },
        DecoderView::Ipv6 => match ipv6_spec(raw) {
            Some(ip) => Ok(ValueView::V6(ip)),
            None => Err(ipv6_error_message()),
        },
        DecoderView::IpAny => match ip_any_spec(raw) {
            Some(IpValue::V4(ip)) => Ok(ValueView::V4(ip)),
            Some(IpValue::V6(ip)) => Ok(ValueView::V6(ip)),
            None => Err(ip_error_message()),
        },
        DecoderView::SocketV4 => match sock_v4_spec(raw) {
            Some(sa) => Ok(ValueView::Sock4(sa)),
            None => Err(sock_error_message()),
        },
        DecoderView::SocketV6 => match sock_v6_spec(raw) {
            Some(sa) => Ok(ValueView::Sock6(sa)),
            None => Err(sock_error_message()),
        },
        DecoderView::SocketAny => match sock_any_spec(raw) {
            Some(SockValue::V4(sa)) => Ok(ValueView::Sock4(sa)),
            Some(SockValue::V6(sa)) => Ok(ValueView::Sock6(sa)),
            None => Err(sock_error_message()),
        },
        DecoderView::Choice(names) => match first_choice(names, raw, 0) {
            Some(i) => Ok(ValueView::Choice(i)),
            None => Err(choice_error_message(raw)),
        },
        DecoderView::Optional(inner) => match decode_spec(*inner, raw) {
            Ok(v) => Ok(ValueView::Present(Box::new(v))),
            Err(m) => Err(m),
        },
        DecoderView::Secret(inner) => match decode_spec(*inner, raw) {
            Ok(v) => Ok(ValueView::Secret(Box::new(v))),
            Err(m) => Err(m),
        },
    }
}

/// The model of a decode result.
pub open spec fn decode_result_view(r: Result<ConfigValue, String>) -> Result<
    ValueView,
    Seq<char>,
> {
    match r {
        Ok(v) => Ok(v@),
        Err(m) => Err(m@),
    }
}

/// The largest value of an unsigned width.
fn unsigned_max_exec(w: IntWidth) -> (m: u128)
    ensures
        m as int == max_of_unsigned(w),
        m > 0,
{
    match w {
        IntWidth::W8 => u8::MAX as u128,
        IntWidth::W16 => u16::MAX as u128,
        IntWidth::W32 => u32::MAX as u128,
        IntWidth::W64 => u64::MAX as u128,
        IntWidth::W128 => u128::MAX,
        IntWidth::WSize => usize::MAX as u128,
    }
}

/// The smallest value of a signed width.
fn signed_min_exec(w: IntWidth) -> (m: i128)
    ensures
        m as int == min_of_signed(w),
        m < 0,
{
    match w {
        IntWidth::W8 => i8::MIN as i128,
        IntWidth::W16 => i16::MIN as i128,
        IntWidth::W32 => i32::MIN as i128,
        IntWidth::W64 => i64::MIN as i128,
        IntWidth::W128 => i128::MIN,
        IntWidth::WSize => isize::MIN as i128,
    }
}

/// The largest value of a signed width.
fn signed_max_exec(w: IntWidth) -> (m: i128)
    ensures
        m as int == max_of_signed(w),
        m > 0,
{
    match w {
        IntWidth::W8 => i8::MAX as i128,
        IntWidth::W16 => i16::MAX as i128,
        IntWidth::W32 => i32::MAX as i128,
        IntWidth::W64 => i64::MAX as i128,
        IntWidth::W128 => i128::MAX,
        IntWidth::WSize => isize::MAX as i128,
    }
}

/// Runs the decoder `d` on `raw`, exactly as [`decode_spec`] describes.
pub fn run_decoder(d: &DecoderKind, raw: String) -> (r: Result<ConfigValue, String>)
    ensures
        decode_result_view(r) == decode_spec(d@, raw@),
    decreases *d,
{
    match d {
        DecoderKind::Text => Ok(ConfigValue::Str(raw)),
        DecoderKind::Boolean => {
            if raw == "true".to_owned() {
                Ok(ConfigValue::Bool(true))
            } else if raw == "false".to_owned() {
                Ok(ConfigValue::Bool(false))
            } else {
                Err("provided string was not `true` or `false`".to_owned())
            }
        },
        DecoderKind::Character => {
            let n = vstd::string::StrSliceExecFns::unicode_len(raw.as_str());
            if n == 1 {
                Ok(ConfigValue::Char(vstd::string::StrSliceExecFns::get_char(raw.as_str(), 0)))
            } else if n == 0 {
                Err("cannot parse char from empty string".to_owned())
            } else {
                Err("too many characters in string".to_owned())
            }
        },
        DecoderKind::Unsigned(w) => {
            let max = unsigned_max_exec(*w);
            match parse_unsigned_exec(raw.as_str(), max) {
                Ok(v) => Ok(ConfigValue::Uint(v)),
                Err(e) => Err(int_error_string(e)),
            }
        },
        DecoderKind::Signed(w) => {
            let min = signed_min_exec(*w);
            let max = signed_max_exec(*w);
            match parse_signed_exec(raw.as_str(), min, max) {
                Ok(v) => Ok(ConfigValue::Int(v)),
                Err(e) => Err(int_error_string(e)),
            }
        },
        DecoderKind::NonZeroUnsigned(w) => {
            let max = unsigned_max_exec(*w);
            match decode_nonzero_unsigned(raw.as_str(), max) {
                Ok(v) => Ok(ConfigValue::Uint(v)),
                Err(m) => Err(m),
            }
        },
        DecoderKind::NonZeroSigned(w) => {
            let min = signed_min_exec(*w);
            let max = signed_max_exec(*w);
            match decode_nonzero_signed(raw.as_str(), min, max) {
                Ok(v) => Ok(ConfigValue::Int(v)),
                Err(m) => Err(m),
            }
        },
        DecoderKind::Ipv4 => {
            match parse_ipv4(raw.as_str()) {
                Some(ip) => Ok(ConfigValue::V4(ip)),
                None => Err("invalid IPv4 address syntax".to_owned()),
            }
        },
        DecoderKind::Ipv6 => {
            match parse_ipv6(raw.as_str()) {
                Some(ip) => Ok(ConfigValue::V6(ip)),
                None => Err("invalid IPv6 address syntax".to_owned()),
            }
        },
        DecoderKind::IpAny => {
            match parse_ip_any(raw.as_str()) {
                Some(IpValue::V4(ip)) => Ok(ConfigValue::V4(ip)),
                Some(IpValue::V6(ip)) => Ok(ConfigValue::V6(ip)),
                None => Err("invalid IP address syntax".to_owned()),
            }
        },
        DecoderKind::SocketV4 => {
            match parse_sock_v4(raw.as_str()) {
                Some(sa) => Ok(ConfigValue::Sock4(sa)),
                None => Err("invalid socket address syntax".to_owned()),
            }
        },
        DecoderKind::SocketV6 => {
            match parse_sock_v6(raw.as_str()) {
                Some(sa) => Ok(ConfigValue::Sock6(sa)),
                None => Err("invalid socket address syntax".to_owned()),
            }
        },
        DecoderKind::SocketAny => {
            match parse_sock_any(raw.as_str()) {
                Some(SockValue::V4(sa)) => Ok(ConfigValue::Sock4(sa)),
                Some(SockValue::V6(sa)) => Ok(ConfigValue::Sock6(sa)),
                None => Err("invalid socket address syntax".to_owned()),
            }
        },
        DecoderKind::Choice(names) => {
            let mut i: usize = 0;
            while i < names.len()
                invariant
                    0 <= i <= names.len(),
                    d@ == DecoderView::Choice(names.deep_view()),
                    first_choice(names.deep_view(), raw@, 0) == first_choice(
                        names.deep_view(),
                        raw@,
                        i as int,
                    ),
                decreases names.len() - i,
            {
                proof {
                    assert(names.deep_view()[i as int] == names[i as int]@);
                }
                if eq_ignore_ascii_case(names[i].as_str(), raw.as_str()) {
                    return Ok(ConfigValue::Choice(i));
                }
                i = i + 1;
            }
            let mut m: String = "Invalid log level: ".to_owned();
            m.append(raw.as_str());
            proof {
                assert(m@ == choice_error_message(raw@));
            }
            Err(m)
        },
        DecoderKind::Optional(inner) => {
            match run_decoder(inner, raw) {
                Ok(v) => Ok(ConfigValue::Present(Box::new(v))),
                Err(m) => Err(m),
            }
        },
        DecoderKind::Secret(inner) => {
            match run_decoder(inner, raw) {
                Ok(v) => Ok(ConfigValue::Secret(Box::new(v))),
                Err(m) => Err(m),
            }
        },
    }
}

/// The index of the first candidate key that is present in the source,
/// scanning from position `i`.  A key whose value is unreadable is still
/// present: presence alone stops the scan.
pub open spec fn first_present(keys: Seq<Seq<char>>, src: Seq<KeyEntryView>, i: int) -> Option<
    int,
>
    decreases keys.len() - i,
{
    if !(0 <= i < keys.len()) {
        None
    } else if !(lookup_spec(src, keys[i]) is NotPresent) {
        Some(i)
    } else {
        first_present(keys, src, i + 1)
    }
}

/// What resolving one field yields: its value, or exactly one error node.
///
/// The first present candidate key decides: an unreadable value is an
/// `Other` error, a value that fails to decode is a `Parsing` error naming
/// the raw value and the winning key, and a decoded value resolves the
/// field.  With every key absent, an optional field resolves to no value
/// even when a default is declared, a default resolves the field, and
/// otherwise the field is `Missing`, carrying every tried key.
pub open spec fn resolve_field_spec(
    f: FieldSpecView,
    idx: int,
    src: Seq<KeyEntryView>,
) -> Result<ValueView, ErrorNodeView>
    decreases f, 0int,
{
    match f.kind {
        FieldKindView::Nested(sub) => match resolve_schema_spec(sub, src) {
            Ok(v) => Ok(v),
            Err(tree) => Err(ErrorNodeView::Nested { idx, name: f.name, tree }),
        },
        FieldKindView::Leaf(d) => match first_present(f.keys, src, 0) {
            None => {
                if f.optional {
                    Ok(ValueView::Absent)
                } else {
                    match f.default {
                        Some(dv) => Ok(dv),
                        None => Err(ErrorNodeView::Missing { idx, name: f.name, keys: f.keys }),
                    }
                }
            },
            Some(i) => match lookup_spec(src, f.keys[i]) {
                LookupView::NotDecodable(m) => Err(
                    ErrorNodeView::Other { idx, name: f.name, message: m },
                ),
                LookupView::Found(raw) => match decode_spec(d, raw) {
                    Ok(v) => Ok(v),
                    Err(m) => Err(
                        ErrorNodeView::Parsing {
                            idx,
                            name: f.name,
                            raw,
                            message: m,
                            key: f.keys[i],
                        },
                    ),
                },
                LookupView::NotPresent => arbitrary(),
            },
        },
    }
}

/// The values and the error nodes of a record's fields, resolved
/// independently and in declaration order: no field's failure keeps a
/// later field from being resolved.
pub open spec fn resolve_fields_spec(fields: Seq<FieldSpecView>, src: Seq<KeyEntryView>) -> (
    Seq<ValueView>,
    Seq<ErrorNodeView>,
)
    decreases fields, 0int,
{
    if fields.len() == 0 {
        (Seq::<ValueView>::empty(), Seq::<ErrorNodeView>::empty())
    } else {
        let prior = resolve_fields_spec(fields.drop_last(), src);
        match resolve_field_spec(fields.last(), fields.len() - 1, src) {
            Ok(v) => (prior.0.push(v), prior.1),
            Err(e) => (prior.0, prior.1.push(e)),
        }
    }
}

/// What resolving a record yields: every field's value in declaration
/// order when none failed, else exactly the failing fields' error nodes in
/// declaration order.
pub open spec fn resolve_record_spec(fields: Seq<FieldSpecView>, src: Seq<KeyEntryView>) -> Result<
    Seq<ValueView>,
    Seq<ErrorNodeView>,
>
    decreases fields, 1int,
{
    let pair = resolve_fields_spec(fields, src);
    if pair.1.len() == 0 {
        Ok(pair.0)
    } else {
        Err(pair.1)
    }
}

/// The index of the first variant whose record resolves without errors,
/// scanning from position `i`.
pub open spec fn first_ok_variant(
    variants: Seq<VariantSpecView>,
    src: Seq<KeyEntryView>,
    i: int,
) -> Option<int>
    decreases variants, variants.len() - i,
{
    if !(0 <= i < variants.len()) {
        None
    } else if resolve_record_spec(variants[i].fields, src) is Ok {
        Some(i)
    } else {
        first_ok_variant(variants, src, i + 1)
    }
}

/// What one resolution pass yields: for a record, the record's values; for
/// a sum type, the first variant that resolves without errors, and, when
/// every variant fails, only the error tree of the last attempted variant,
/// the earlier variants' diagnostics being discarded.
pub open spec fn resolve_schema_spec(s: SchemaView, src: Seq<KeyEntryView>) -> Result<
    ValueView,
    Seq<ErrorNodeView>,
>
    decreases s, 2int,
{
    match s {
        SchemaView::Record(fields) => match resolve_record_spec(fields, src) {
            Ok(vs) => Ok(ValueView::Record(vs)),
            Err(es) => Err(es),
        },
        SchemaView::Sum(variants) => {
            if variants.len() == 0 {
                arbitrary()
            } else {
                match first_ok_variant(variants, src, 0) {
                    Some(i) => if 0 <= i < variants.len() {
                        match resolve_record_spec(variants[i].fields, src) {
                            Ok(vs) => Ok(ValueView::Variant(i, vs)),
                            Err(_) => arbitrary(),
                        }
                    } else {
                        arbitrary()
                    },
                    None => match resolve_record_spec(
                        variants[variants.len() - 1].fields,
                        src,
                    ) {
                        Ok(_) => arbitrary(),
                        Err(es) => Err(es),
                    },
                }
            }
        },
    }
}

/// The model of a field resolution result.
pub open spec fn field_result_view(r: Result<ConfigValue, ConfigFieldError>) -> Result<
    ValueView,
    ErrorNodeView,
> {
    match r {
        Ok(v) => Ok(v@),
        Err(e) => Err(e@),
    }
}

/// The model of a record resolution result.
pub open spec fn record_result_view(r: Result<Vec<ConfigValue>, ConfigError>) -> Result<
    Seq<ValueView>,
    Seq<ErrorNodeView>,
> {
    match r {
        Ok(vs) => Ok(values_views(vs@)),
        Err(e) => Err(e@),
    }
}

/// The model of a schema resolution result.
pub open spec fn schema_result_view(r: Result<ConfigValue, ConfigError>) -> Result<
    ValueView,
    Seq<ErrorNodeView>,
> {
    match r {
        Ok(v) => Ok(v@),
        Err(e) => Err(e@),
    }
}

/// Copies an optional field name; the copy has the same model.
pub(crate) fn clone_name(n: &Option<String>) -> (r: Option<String>)
    ensures
        r.deep_view() == n.deep_view(),
{
    match n {
        Some(s) => Some(s.clone()),
        None => None,
    }
}

/// Copies a key list; the copy has the same model.
pub(crate) fn clone_keys(keys: &Vec<String>) -> (r: Vec<String>)
    ensures
        r.deep_view() == keys.deep_view(),
{
    let mut out: Vec<String> = Vec::new();
    let mut i: usize = 0;
    while i < keys.len()
        invariant
            0 <= i <= keys.len(),
            out@.len() == i as int,
            forall|j: int| 0 <= j < i as int ==> out@[j]@ == keys@[j]@,
        decreases keys.len() - i,
    {
        out.push(keys[i].clone());
        i = i + 1;
    }
    proof {
        assert(out.deep_view() =~= keys.deep_view());
    }
    out
}

/// Copies a resolved value; the copy has the same model.
#[verifier::loop_isolation(false)]
pub fn clone_value(v: &ConfigValue) -> (r: ConfigValue)
    ensures
        r@ == v@,
    decreases *v,
{
    match v {
        ConfigValue::Str(s) => ConfigValue::Str(s.clone()),
        ConfigValue::Bool(b) => ConfigValue::Bool(*b),
        ConfigValue::Char(c) => ConfigValue::Char(*c),
        ConfigValue::Uint(u) => ConfigValue::Uint(*u),
        ConfigValue::Int(i) => ConfigValue::Int(*i),
        ConfigValue::V4(ip) => ConfigValue::V4(*ip),
        ConfigValue::V6(ip) => ConfigValue::V6(*ip),
        ConfigValue::Sock4(sa) => ConfigValue::Sock4(*sa),
        ConfigValue::Sock6(sa) => ConfigValue::Sock6(*sa),
        ConfigValue::Choice(i) => ConfigValue::Choice(*i),
        ConfigValue::Absent => ConfigValue::Absent,
        ConfigValue::Present(inner) => ConfigValue::Present(Box::new(clone_value(inner))),
        ConfigValue::Secret(inner) => ConfigValue::Secret(Box::new(clone_value(inner))),
        ConfigValue::Record(vs) => {
            let mut out: Vec<ConfigValue> = Vec::new();
            let mut i: usize = 0;
            while i < vs.len()
                invariant
                    0 <= i <= vs.len(),
                    out@.len() == i as int,
                    forall|j: int| 0 <= j < i as int ==> out@[j]@ == vs@[j]@,
                decreases vs.len() - i,
            {
                out.push(clone_value(&vs[i]));
                i = i + 1;
            }
            let r = ConfigValue::Record(out);
            proof {
                lemma_record_value_view(r->Record_0);
                lemma_record_value_view(v->Record_0);
                assert(values_views(out@) =~= values_views(vs@));
            }
            r
        },
        ConfigValue::Variant(tag, vs) => {
            let mut out: Vec<ConfigValue> = Vec::new();
            let mut i: usize = 0;
            while i < vs.len()
                invariant
                    0 <= i <= vs.len(),
                    out@.len() == i as int,
                    forall|j: int| 0 <= j < i as int ==> out@[j]@ == vs@[j]@,
                decreases vs.len() - i,
            {
                out.push(clone_value(&vs[i]));
                i = i + 1;
            }
            let r = ConfigValue::Variant(*tag, out);
            proof {
                lemma_variant_value_view(*tag, r->Variant_1);
                lemma_variant_value_view(*tag, v->Variant_1);
                assert(values_views(out@) =~= values_views(vs@));
            }
            r
        },
    }
}

impl Clone for ConfigValue {
    /// Copies the value; the copy has the same model.
    fn clone(&self) -> (r: ConfigValue)
        ensures
            r@ == self@,
    {
        clone_value(self)
    }
}

/// Resolves one field against the source, exactly as
/// [`resolve_field_spec`] describes.
#[verifier::loop_isolation(false)]
pub fn resolve_field(f: &FieldSpec, idx: usize, src: &KeySource) -> (r: Result<
    ConfigValue,
    ConfigFieldError,
>)
    requires
        nested_sums_have_variants(f@),
    ensures
        field_result_view(r) == resolve_field_spec(f@, idx as int, src@),
    decreases *f, 0int,
{
    match &f.kind {
        FieldKind::Nested(sub) => {
            match resolve_schema(sub, src) {
                Ok(v) => Ok(v),
                Err(tree) => {
                    let name = clone_name(&f.name);
                    proof {
                        lemma_nested_node_view(idx, name, tree);
                    }
                    Err(ConfigFieldError::Nested { field_idx: idx, field_name: name, error: tree })
                },
            }
        },
        FieldKind::Leaf(d) => {
            let n = f.keys.len();
            let mut i: usize = 0;
            while i < n
                invariant
                    0 <= i <= n,
                    n == f.keys.len(),
                    f@.kind == FieldKindView::Leaf(decoder_view(*d)),
                    first_present(f@.keys, src@, 0) == first_present(f@.keys, src@, i as int),
                decreases n - i,
            {
                proof {
                    assert(f@.keys[i as int] == f.keys[i as int]@);
                }
                let lr = src.lookup(f.keys[i].as_str());
                match lr {
                    LookupResult::NotPresent => {
                        i = i + 1;
                    },
                    LookupResult::NotDecodable(m) => {
                        proof {
                            assert(first_present(f@.keys, src@, i as int) == Some(i as int));
                        }
                        return Err(
                            ConfigFieldError::Other {
                                field_idx: idx,
                                field_name: clone_name(&f.name),
                                message: m,
                            },
                        );
                    },
                    LookupResult::Found(raw) => {
                        proof {
                            assert(first_present(f@.keys, src@, i as int) == Some(i as int));
                        }
                        let raw_copy = raw.clone();
                        match run_decoder(d, raw) {
                            Ok(v) => {
                                return Ok(v);
                            },
                            Err(m) => {
                                return Err(
                                    ConfigFieldError::ParsingError {
                                        field_idx: idx,
                                        field_name: clone_name(&f.name),
                                        raw: raw_copy,
                                        message: m,
                                        env_var_name: f.keys[i].clone(),
                                    },
                                );
                            },
                        }
                    },
                }
            }
            if f.optional {
                return Ok(ConfigValue::Absent);
            }
            match &f.default {
                Some(dv) => Ok(clone_value(dv)),
                None => Err(
                    ConfigFieldError::MissingValue {
                        field_name: clone_name(&f.name),
                        field_idx: idx,
                        env_vars: clone_keys(&f.keys),
                    },
                ),
            }
        },
    }
}

/// Every sum type in the schema fragment declares at least one variant.
pub open spec fn schema_sums_have_variants(s: SchemaView) -> bool
    decreases s, 1int,
{
    match s {
        SchemaView::Record(fields) => forall|i: int|
            0 <= i < fields.len() ==> nested_sums_have_variants(#[trigger] fields[i]),
        SchemaView::Sum(variants) => {
            &&& variants.len() > 0
            &&& forall|i: int, j: int|
                0 <= i < variants.len() && 0 <= j < variants[i].fields.len()
                    ==> nested_sums_have_variants(#[trigger] variants[i].fields[j])
        },
    }
}

/// Every sum type nested under the field declares at least one variant.
pub open spec fn nested_sums_have_variants(f: FieldSpecView) -> bool
    decreases f, 0int,
{
    match f.kind {
        FieldKindView::Leaf(_) => true,
        FieldKindView::Nested(sub) => schema_sums_have_variants(sub),
    }
}

/// Resolves every field of a record independently, exactly as
/// [`resolve_record_spec`] describes: an earlier field's failure never
/// keeps a later field from being resolved, and either every value or
/// every failure is returned.
#[verifier::loop_isolation(false)]
pub fn resolve_record(fields: &Vec<FieldSpec>, src: &KeySource) -> (r: Result<
    Vec<ConfigValue>,
    ConfigError,
>)
    requires
        forall|i: int|
            0 <= i < fields@.len() ==> nested_sums_have_variants(#[trigger] fields_views(fields@)[i]),
    ensures
        record_result_view(r) == resolve_record_spec(fields_views(fields@), src@),
    decreases *fields, 1int,
{
    let ghost fvs = fields_views(fields@);
    let mut values: Vec<ConfigValue> = Vec::new();
    let mut errors: Vec<ConfigFieldError> = Vec::new();
    let mut i: usize = 0;
    proof {
        assert(fvs.take(0) =~= Seq::<FieldSpecView>::empty());
        assert(values_views(values@) =~= resolve_fields_spec(fvs.take(0), src@).0);
        assert(error_views(errors@) =~= resolve_fields_spec(fvs.take(0), src@).1);
    }
    while i < fields.len()
        invariant
            0 <= i <= fields.len(),
            fvs == fields_views(fields@),
            forall|k: int| 0 <= k < fields@.len() ==> nested_sums_have_variants(#[trigger] fvs[k]),
            values_views(values@) == resolve_fields_spec(fvs.take(i as int), src@).0,
            error_views(errors@) == resolve_fields_spec(fvs.take(i as int), src@).1,
        decreases fields.len() - i,
    {
        proof {
            assert(fvs[i as int] == fields[i as int]@);
        }
        match resolve_field(&fields[i], i, src) {
            Ok(v) => values.push(v),
            Err(e) => errors.push(e),
        }
        proof {
            assert(fvs.take(i + 1).drop_last() =~= fvs.take(i as int));
            assert(fvs.take(i + 1).last() == fvs[i as int]);
            assert(values_views(values@) =~= resolve_fields_spec(fvs.take(i + 1), src@).0);
            assert(error_views(errors@) =~= resolve_fields_spec(fvs.take(i + 1), src@).1);
        }
        i = i + 1;
    }
    proof {
        assert(fvs.take(fields@.len() as int) =~= fvs);
    }
    if errors.len() == 0 {
        proof {
            assert(error_views(errors@).len() == 0);
        }
        Ok(values)
    } else {
        let e = ConfigError { field_errors: errors };
        proof {
            lemma_error_tree_view(e);
        }
        Err(e)
    }
}

/// Performs one resolution pass, exactly as [`resolve_schema_spec`]
/// describes.  A sum type must declare at least one variant.
#[verifier::loop_isolation(false)]
pub fn resolve_schema(schema: &Schema, src: &KeySource) -> (r: Result<ConfigValue, ConfigError>)
    requires
        schema_sums_have_variants(schema@),
    ensures
        schema_result_view(r) == resolve_schema_spec(schema@, src@),
    decreases *schema, 2int,
{
    match schema {
        Schema::Record(fields) => {
            proof {
                lemma_schema_record_view(*fields);
            }
            match resolve_record(fields, src) {
                Ok(vs) => {
                    let r = ConfigValue::Record(vs);
                    proof {
                        lemma_record_value_view(r->Record_0);
                    }
                    Ok(r)
                },
                Err(e) => Err(e),
            }
        },
        Schema::Sum(variants) => {
            let ghost vvs = variants_views(variants@);
            proof {
                lemma_schema_sum_view(*variants);
            }
            let n = variants.len();
            let mut i: usize = 0;
            let mut last_err: Option<ConfigError> = None;
            while i < n
                invariant
                    0 <= i <= n,
                    n == variants.len(),
                    vvs == variants_views(variants@),
                    schema@ == SchemaView::Sum(vvs),
                    schema_sums_have_variants(schema@),
                    first_ok_variant(vvs, src@, 0) == first_ok_variant(vvs, src@, i as int),
                    i > 0 ==> (last_err matches Some(e) && Err::<Seq<ValueView>, Seq<
                        ErrorNodeView,
                    >>(e@) == resolve_record_spec(vvs[i as int - 1].fields, src@)),
                decreases n - i,
            {
                proof {
                    assert(vvs[i as int].fields == fields_views(variants[i as int].fields@));
                    assert forall|k: int|
                        0 <= k < variants[i as int].fields@.len() implies nested_sums_have_variants(
                        #[trigger] fields_views(variants[i as int].fields@)[k],
                    ) by {
                        assert(vvs[i as int].fields[k] == fields_views(
                            variants[i as int].fields@,
                        )[k]);
                    }
                }
                match resolve_record(&variants[i].fields, src) {
                    Ok(vs) => {
                        proof {
                            assert(first_ok_variant(vvs, src@, i as int) == Some(i as int));
                        }
                        let r = ConfigValue::Variant(i, vs);
                        proof {
                            lemma_variant_value_view(i, r->Variant_1);
                        }
                        return Ok(r);
                    },
                    Err(e) => {
                        last_err = Some(e);
                    },
                }
                i = i + 1;
            }
            match last_err {
                Some(e) => Err(e),
                None => {
                    proof {
                        assert(false);
                    }
                    Err(ConfigError { field_errors: Vec::new() })
                },
            }
        },
    }
}


} // verus!
