//! The declarative schema: per-field candidate keys, defaults, optionality
//! and decoders, together with the uniform value that resolution builds.

use crate::net_addr::Ipv4Value;
use crate::net_addr::Ipv6Value;
use crate::net_addr::SockV4Value;
use crate::net_addr::SockV6Value;
use vstd::prelude::*;

verus! {

/// A resolved configuration value.
///
/// Leaf values come from decoders; `Record` and `Variant` are built by the
/// composers; `Absent` stands for an optional field none of whose keys was
/// present; `Present` and `Secret` are the optional and secret wrappers.
#[derive(Debug)]
pub enum ConfigValue {
    /// A string passed through unchanged (also used for filesystem paths).
    Str(String),
    /// A boolean.
    Bool(bool),
    /// A single character.
    Char(char),
    /// An unsigned integer, within the range of its decoder's width.
    Uint(u128),
    /// A signed integer, within the range of its decoder's width.
    Int(i128),
    /// An IPv4 address.
    V4(Ipv4Value),
    /// An IPv6 address.
    V6(Ipv6Value),
    /// An IPv4 socket address.
    Sock4(SockV4Value),
    /// An IPv6 socket address.
    Sock6(SockV6Value),
    /// The index of the matched name of an enumeration decoder.
    Choice(usize),
    /// No value: an optional field whose keys were all absent.
    Absent,
    /// A value of an optional field that was present.
    Present(Box<ConfigValue>),
    /// A value marked sensitive: reporting code masks it.
    Secret(Box<ConfigValue>),
    /// A record: one value per field, in declaration order.
    Record(Vec<ConfigValue>),
    /// A sum value: the index of the resolved variant and its field values.
    Variant(usize, Vec<ConfigValue>),
}

/// Mathematical model of a resolved value.
#[verifier::ext_equal]
pub enum ValueView {
    Str(Seq<char>),
    Bool(bool),
    Char(char),
    Uint(int),
    Int(int),
    V4(Ipv4Value),
    V6(Ipv6Value),
    Sock4(SockV4Value),
    Sock6(SockV6Value),
    Choice(int),
    Absent,
    Present(Box<ValueView>),
    Secret(Box<ValueView>),
    Record(Seq<ValueView>),
    Variant(int, Seq<ValueView>),
}

/// The model of a resolved value.
pub open spec fn value_view(v: ConfigValue) -> ValueView
    decreases v,
{
    match v {
        ConfigValue::Str(s) => ValueView::Str(s@),
        ConfigValue::Bool(b) => ValueView::Bool(b),
        ConfigValue::Char(c) => ValueView::Char(c),
        ConfigValue::Uint(u) => ValueView::Uint(u as int),
        ConfigValue::Int(i) => ValueView::Int(i as int),
        ConfigValue::V4(ip) => ValueView::V4(ip),
        ConfigValue::V6(ip) => ValueView::V6(ip),
        ConfigValue::Sock4(sa) => ValueView::Sock4(sa),
        ConfigValue::Sock6(sa) => ValueView::Sock6(sa),
        ConfigValue::Choice(i) => ValueView::Choice(i as int),
        ConfigValue::Absent => ValueView::Absent,
        ConfigValue::Present(inner) => ValueView::Present(Box::new(value_view(*inner))),
        ConfigValue::Secret(inner) => ValueView::Secret(Box::new(value_view(*inner))),
        ConfigValue::Record(vs) => ValueView::Record(
            Seq::new(
                vs.len() as nat,
                |i: int|
                    if 0 <= i < vs.len() {
                        value_view(vs[i])
                    } else {
                        arbitrary()
                    },
            ),
        ),
        ConfigValue::Variant(tag, vs) => ValueView::Variant(
            tag as int,
            Seq::new(
                vs.len() as nat,
                |i: int|
                    if 0 <= i < vs.len() {
                        value_view(vs[i])
                    } else {
                        arbitrary()
                    },
            ),
        ),
    }
}

impl View for ConfigValue {
    type V = ValueView;

    open spec fn view(&self) -> ValueView {
        value_view(*self)
    }
}

/// The width of an integer decoder.
#[derive(Debug, PartialEq, Eq, Structural, Clone, Copy)]
pub enum IntWidth {
    W8,
    W16,
    W32,
    W64,
    W128,
    WSize,
}

/// The largest value an unsigned decoder of width `w` accepts.
pub open spec fn max_of_unsigned(w: IntWidth) -> int {
    match w {
        IntWidth::W8 => u8::MAX as int,
        IntWidth::W16 => u16::MAX as int,
        IntWidth::W32 => u32::MAX as int,
        IntWidth::W64 => u64::MAX as int,
        IntWidth::W128 => u128::MAX as int,
        IntWidth::WSize => usize::MAX as int,
    }
}

/// The smallest value a signed decoder of width `w` accepts.
pub open spec fn min_of_signed(w: IntWidth) -> int {
    match w {
        IntWidth::W8 => i8::MIN as int,
        IntWidth::W16 => i16::MIN as int,
        IntWidth::W32 => i32::MIN as int,
        IntWidth::W64 => i64::MIN as int,
        IntWidth::W128 => i128::MIN as int,
        IntWidth::WSize => isize::MIN as int,
    }
}

/// The largest value a signed decoder of width `w` accepts.
pub open spec fn max_of_signed(w: IntWidth) -> int {
    match w {
        IntWidth::W8 => i8::MAX as int,
        IntWidth::W16 => i16::MAX as int,
        IntWidth::W32 => i32::MAX as int,
        IntWidth::W64 => i64::MAX as int,
        IntWidth::W128 => i128::MAX as int,
        IntWidth::WSize => isize::MAX as int,
    }
}

/// A reference to a decoder: which built-in decoding a leaf field uses.
#[derive(Debug)]
pub enum DecoderKind {
    /// Pass the raw string through unchanged (strings, filesystem paths).
    Text,
    /// The literal `true` or `false`.
    Boolean,
    /// Exactly one character.
    Character,
    /// A decimal unsigned integer of the given width.
    Unsigned(IntWidth),
    /// A decimal signed integer of the given width.
    Signed(IntWidth),
    /// As `Unsigned`, with the literal zero rejected.
    NonZeroUnsigned(IntWidth),
    /// As `Signed`, with the literal zero rejected.
    NonZeroSigned(IntWidth),
    /// A dotted-decimal IPv4 address.
    Ipv4,
    /// An IPv6 address in its standard textual forms.
    Ipv6,
    /// An IP address of either family: dotted-decimal first, else IPv6.
    IpAny,
    /// An IPv4 socket address of the form `address:port`.
    SocketV4,
    /// An IPv6 socket address of the form `[address]:port`.
    SocketV6,
    /// A socket address of either family: the IPv4 form first, else the
    /// bracketed IPv6 form.
    SocketAny,
    /// An enumeration: the raw string selects a declared name, compared
    /// case-insensitively; the value is the index of the matched name.
    Choice(Vec<String>),
    /// The optional wrapper: delegates to the inner decoder and wraps
    /// success as present.
    Optional(Box<DecoderKind>),
    /// The secret wrapper: delegates to the inner decoder and marks the
    /// value so reporting code masks it.
    Secret(Box<DecoderKind>),
}

/// Mathematical model of a decoder reference.
#[verifier::ext_equal]
pub enum DecoderView {
    Text,
    Boolean,
    Character,
    Unsigned(IntWidth),
    Signed(IntWidth),
    NonZeroUnsigned(IntWidth),
    NonZeroSigned(IntWidth),
    Ipv4,
    Ipv6,
    IpAny,
    SocketV4,
    SocketV6,
    SocketAny,
    Choice(Seq<Seq<char>>),
    Optional(Box<DecoderView>),
    Secret(Box<DecoderView>),
}

/// The model of a decoder reference.
pub open spec fn decoder_view(d: DecoderKind) -> DecoderView
    decreases d,
{
    match d {
        DecoderKind::Text => DecoderView::Text,
        DecoderKind::Boolean => DecoderView::Boolean,
        DecoderKind::Character => DecoderView::Character,
        DecoderKind::Unsigned(w) => DecoderView::Unsigned(w),
        DecoderKind::Signed(w) => DecoderView::Signed(w),
        DecoderKind::NonZeroUnsigned(w) => DecoderView::NonZeroUnsigned(w),
        DecoderKind::NonZeroSigned(w) => DecoderView::NonZeroSigned(w),
        DecoderKind::Ipv4 => DecoderView::Ipv4,
        DecoderKind::Ipv6 => DecoderView::Ipv6,
        DecoderKind::IpAny => DecoderView::IpAny,
        DecoderKind::SocketV4 => DecoderView::SocketV4,
        DecoderKind::SocketV6 => DecoderView::SocketV6,
        DecoderKind::SocketAny => DecoderView::SocketAny,
        DecoderKind::Choice(names) => DecoderView::Choice(names.deep_view()),
        DecoderKind::Optional(inner) => DecoderView::Optional(Box::new(decoder_view(*inner))),
        DecoderKind::Secret(inner) => DecoderView::Secret(Box::new(decoder_view(*inner))),
    }
}

impl View for DecoderKind {
    type V = DecoderView;

    open spec fn view(&self) -> DecoderView {
        decoder_view(*self)
    }
}

/// What a field is: a leaf with a decoder, or a nested sub-record with its
/// own schema.
#[derive(Debug)]
pub enum FieldKind {
    /// A leaf field, decoded from the value of one of its candidate keys.
    Leaf(DecoderKind),
    /// A nested field, resolved recursively against its own schema.
    Nested(Schema),
}

/// The declarative description of one field.
#[derive(Debug)]
pub struct FieldSpec {
    /// The declared name, or `None` for a positional field.
    pub name: Option<String>,
    /// The candidate keys, tried in order; empty exactly when the field is
    /// nested.
    pub keys: Vec<String>,
    /// Whether the field is optional: with every key absent it resolves to
    /// no value, and the default is never used.
    pub optional: bool,
    /// The default value, used when every key is absent and the field is
    /// not optional.
    pub default: Option<ConfigValue>,
    /// Whether the field is a leaf or a nested sub-record.
    pub kind: FieldKind,
}

/// An ordered sequence of fields (a record), or an ordered sequence of
/// named variants (a sum type), tried in declaration order.
#[derive(Debug)]
pub enum Schema {
    /// A record: every field resolves independently.
    Record(Vec<FieldSpec>),
    /// A sum type: the variants are tried in order and the first that
    /// resolves without errors wins.
    Sum(Vec<VariantSpec>),
}

/// One named variant of a sum type.
#[derive(Debug)]
pub struct VariantSpec {
    /// The declared name of the variant.
    pub name: String,
    /// The fields of the variant's record.
    pub fields: Vec<FieldSpec>,
}

/// Model of a field's kind.
#[verifier::ext_equal]
pub enum FieldKindView {
    Leaf(DecoderView),
    Nested(SchemaView),
}

/// Model of one field description.
#[verifier::ext_equal]
pub struct FieldSpecView {
    pub name: Option<Seq<char>>,
    pub keys: Seq<Seq<char>>,
    pub optional: bool,
    pub default: Option<ValueView>,
    pub kind: FieldKindView,
}

/// Model of a schema.
#[verifier::ext_equal]
pub enum SchemaView {
    Record(Seq<FieldSpecView>),
    Sum(Seq<VariantSpecView>),
}

/// Model of one variant.
#[verifier::ext_equal]
pub struct VariantSpecView {
    pub name: Seq<char>,
    pub fields: Seq<FieldSpecView>,
}

/// The model of one field description.
pub open spec fn field_spec_view(f: FieldSpec) -> FieldSpecView
    decreases f,
{
    FieldSpecView {
        name: f.name.deep_view(),
        keys: f.keys.deep_view(),
        optional: f.optional,
        default: match f.default {
            Some(v) => Some(value_view(v)),
            None => None,
        },
        kind: match f.kind {
            FieldKind::Leaf(d) => FieldKindView::Leaf(decoder_view(d)),
            FieldKind::Nested(s) => FieldKindView::Nested(schema_view(s)),
        },
    }
}

/// The model of a schema.
pub open spec fn schema_view(s: Schema) -> SchemaView
    decreases s,
{
    match s {
        Schema::Record(fields) => SchemaView::Record(
            Seq::new(
                fields.len() as nat,
                |i: int|
                    if 0 <= i < fields.len() {
                        field_spec_view(fields[i])
                    } else {
                        arbitrary()
                    },
            ),
        ),
        Schema::Sum(variants) => SchemaView::Sum(
            Seq::new(
                variants.len() as nat,
                |i: int|
                    if 0 <= i < variants.len() {
                        VariantSpecView {
                            name: variants[i].name@,
                            fields: Seq::new(
                                variants[i].fields.len() as nat,
                                |j: int|
                                    if 0 <= j < variants[i].fields.len() {
                                        field_spec_view(variants[i].fields[j])
                                    } else {
                                        arbitrary()
                                    },
                            ),
                        }
                    } else {
                        arbitrary()
                    },
            ),
        ),
    }
}

impl View for FieldSpec {
    type V = FieldSpecView;

    open spec fn view(&self) -> FieldSpecView {
        field_spec_view(*self)
    }
}

impl View for Schema {
    type V = SchemaView;

    open spec fn view(&self) -> SchemaView {
        schema_view(*self)
    }
}

/// The models of a sequence of resolved values.
pub open spec fn values_views(vs: Seq<ConfigValue>) -> Seq<ValueView> {
    Seq::new(vs.len(), |i: int| value_view(vs[i]))
}

/// The models of a sequence of field descriptions.
pub open spec fn fields_views(fields: Seq<FieldSpec>) -> Seq<FieldSpecView> {
    Seq::new(fields.len(), |i: int| field_spec_view(fields[i]))
}

/// The models of a sequence of variants.
pub open spec fn variants_views(variants: Seq<VariantSpec>) -> Seq<VariantSpecView> {
    Seq::new(
        variants.len(),
        |i: int|
            VariantSpecView {
                name: variants[i].name@,
                fields: fields_views(variants[i].fields@),
            },
    )
}

/// A record value's model is the record of its elements' models.
pub proof fn lemma_record_value_view(vs: Vec<ConfigValue>)
    ensures
        value_view(ConfigValue::Record(vs)) == ValueView::Record(values_views(vs@)),
{
    let a = value_view(ConfigValue::Record(vs));
    assert(a->Record_0 =~= values_views(vs@));
    assert(a =~~= ValueView::Record(values_views(vs@)));
}

/// A sum value's model is the variant of its elements' models.
pub proof fn lemma_variant_value_view(tag: usize, vs: Vec<ConfigValue>)
    ensures
        value_view(ConfigValue::Variant(tag, vs)) == ValueView::Variant(
            tag as int,
            values_views(vs@),
        ),
{
    let a = value_view(ConfigValue::Variant(tag, vs));
    assert(a->Variant_1 =~= values_views(vs@));
    assert(a =~~= ValueView::Variant(tag as int, values_views(vs@)));
}

/// A record schema's model is the record of its fields' models.
pub proof fn lemma_schema_record_view(fields: Vec<FieldSpec>)
    ensures
        schema_view(Schema::Record(fields)) == SchemaView::Record(fields_views(fields@)),
{
    let a = schema_view(Schema::Record(fields));
    assert(a->Record_0 =~= fields_views(fields@));
    assert(a =~~= SchemaView::Record(fields_views(fields@)));
}

/// A sum schema's model is the sum of its variants' models.
pub proof fn lemma_schema_sum_view(variants: Vec<VariantSpec>)
    ensures
        schema_view(Schema::Sum(variants)) == SchemaView::Sum(variants_views(variants@)),
{
    let a = schema_view(Schema::Sum(variants));
    assert(a->Sum_0 =~= variants_views(variants@)) by {
        assert forall|i: int| 0 <= i < variants@.len() implies a->Sum_0[i] == variants_views(
            variants@,
        )[i] by {
            assert(a->Sum_0[i].fields =~= variants_views(variants@)[i].fields);
            assert(a->Sum_0[i] =~~= variants_views(variants@)[i]);
        }
    }
    assert(a =~~= SchemaView::Sum(variants_views(variants@)));
}

/// The field invariant: the candidate-key list is non-empty exactly when
/// the field is a leaf, and a nested field's schema is well-formed too.
pub open spec fn wf_field(f: FieldSpecView) -> bool
    decreases f,
{
    &&& (f.kind is Leaf <==> f.keys.len() > 0)
    &&& match f.kind {
        FieldKindView::Leaf(_) => true,
        FieldKindView::Nested(s) => wf_schema(s),
    }
}

/// A schema is well-formed when every field of every record in it meets
/// the field invariant.
pub open spec fn wf_schema(s: SchemaView) -> bool
    decreases s,
{
    match s {
        SchemaView::Record(fields) => forall|i: int|
            0 <= i < fields.len() ==> wf_field(#[trigger] fields[i]),
        SchemaView::Sum(variants) => forall|i: int, j: int|
            0 <= i < variants.len() && 0 <= j < variants[i].fields.len() ==> wf_field(
                #[trigger] variants[i].fields[j],
            ),
    }
}

impl FieldSpec {
    /// Whether the field meets the invariant: the candidate-key list is
    /// non-empty exactly when the field is a leaf, and a nested field's
    /// schema is well-formed throughout.
    pub fn is_well_formed(&self) -> (r: bool)
        ensures
            r == wf_field(self@),
        decreases *self, 0int,
    {
        match &self.kind {
            FieldKind::Leaf(_) => self.keys.len() > 0,
            FieldKind::Nested(sub) => self.keys.len() == 0 && sub.is_well_formed(),
        }
    }
}

impl Schema {
    /// Whether every field of every record in the schema meets the field
    /// invariant.
    #[verifier::loop_isolation(false)]
    pub fn is_well_formed(&self) -> (r: bool)
        ensures
            r == wf_schema(self@),
        decreases *self, 2int,
    {
        match self {
            Schema::Record(fields) => {
                proof {
                    lemma_schema_record_view(*fields);
                }
                let mut i: usize = 0;
                while i < fields.len()
                    invariant
                        0 <= i <= fields.len(),
                        forall|j: int|
                            0 <= j < i as int ==> wf_field(#[trigger] fields_views(fields@)[j]),
                    decreases fields.len() - i,
                {
                    proof {
                        assert(fields_views(fields@)[i as int] == fields[i as int]@);
                    }
                    if !fields[i].is_well_formed() {
                        proof {
                            assert(!wf_field(fields_views(fields@)[i as int]));
                            assert(self@->Record_0[i as int] == fields_views(fields@)[i as int]);
                            assert(wf_schema(self@) ==> wf_field(self@->Record_0[i as int]));
                            assert(!wf_schema(self@));
                        }
                        return false;
                    }
                    i = i + 1;
                }
                true
            },
            Schema::Sum(variants) => {
                proof {
                    lemma_schema_sum_view(*variants);
                }
                let mut i: usize = 0;
                while i < variants.len()
                    invariant
                        0 <= i <= variants.len(),
                        forall|j: int, k: int|
                            0 <= j < i as int && 0 <= k < variants_views(variants@)[j].fields.len()
                                ==> wf_field(#[trigger] variants_views(variants@)[j].fields[k]),
                    decreases variants.len() - i,
                {
                    let mut k: usize = 0;
                    while k < variants[i].fields.len()
                        invariant
                            0 <= i < variants.len(),
                            0 <= k <= variants[i as int].fields.len(),
                            forall|j2: int|
                                0 <= j2 < k as int ==> wf_field(
                                    #[trigger] variants_views(variants@)[i as int].fields[j2],
                                ),
                        decreases variants[i as int].fields.len() - k,
                    {
                        proof {
                            assert(variants_views(variants@)[i as int].fields[k as int]
                                == variants[i as int].fields[k as int]@);
                        }
                        if !variants[i].fields[k].is_well_formed() {
                            proof {
                                assert(!wf_field(
                                    variants_views(variants@)[i as int].fields[k as int],
                                ));
                                assert(self@->Sum_0[i as int].fields[k as int] == variants_views(
                                    variants@,
                                )[i as int].fields[k as int]);
                                assert(wf_schema(self@) ==> wf_field(
                                    self@->Sum_0[i as int].fields[k as int],
                                ));
                                assert(!wf_schema(self@));
                            }
                            return false;
                        }
                        k = k + 1;
                    }
                    i = i + 1;
                }
                true
            },
        }
    }
}

} // verus!
