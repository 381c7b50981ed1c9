//! General properties of the resolution engine, stated and proved over
//! the models that the engine's contracts use.

use crate::config_error::ErrorNodeView;
use crate::key_source::KeyEntryView;
use crate::key_source::LookupView;
use crate::key_source::lookup_spec;
use crate::resolver::decode_spec;
use crate::resolver::choice_error_message;
use crate::resolver::first_choice;
use crate::resolver::first_ok_variant;
use crate::resolver::first_present;
use crate::resolver::resolve_field_spec;
use crate::resolver::resolve_fields_spec;
use crate::resolver::resolve_record_spec;
use crate::resolver::resolve_schema_spec;
use crate::schema::DecoderView;
use crate::schema::FieldKindView;
use crate::schema::FieldSpecView;
use crate::schema::SchemaView;
use crate::schema::ValueView;
use crate::schema::VariantSpecView;
use crate::text::lower_seq;
use vstd::prelude::*;

verus! {

/// Whether field `i` of the record fails to resolve.
pub open spec fn field_fails(fields: Seq<FieldSpecView>, i: int, src: Seq<KeyEntryView>) -> bool {
    resolve_field_spec(fields[i], i, src) is Err
}

/// The error node of failing field `i`.
pub open spec fn field_err_node(
    fields: Seq<FieldSpecView>,
    i: int,
    src: Seq<KeyEntryView>,
) -> ErrorNodeView {
    resolve_field_spec(fields[i], i, src)->Err_0
}

/// The identity tag an error node carries.
pub open spec fn node_idx(e: ErrorNodeView) -> int {
    match e {
        ErrorNodeView::Parsing { idx, .. } => idx,
        ErrorNodeView::Missing { idx, .. } => idx,
        ErrorNodeView::Other { idx, .. } => idx,
        ErrorNodeView::Nested { idx, .. } => idx,
    }
}

/// How many of the first `upto` fields fail to resolve.
pub open spec fn count_failing(fields: Seq<FieldSpecView>, src: Seq<KeyEntryView>, upto: int) -> int
    decreases upto,
{
    if upto <= 0 {
        0
    } else {
        count_failing(fields, src, upto - 1) + if field_fails(fields, upto - 1, src) {
            1int
        } else {
            0int
        }
    }
}

/// The key scan, characterized: a found position is the first present
/// key, and a scan that finds nothing saw only absent keys.
pub proof fn lemma_first_present_props(keys: Seq<Seq<char>>, src: Seq<KeyEntryView>, i: int)
    requires
        0 <= i <= keys.len(),
    ensures
        match first_present(keys, src, i) {
            Some(k) => i <= k < keys.len() && !(lookup_spec(src, keys[k]) is NotPresent) && forall|
                j: int,
            | i <= j < k ==> lookup_spec(src, #[trigger] keys[j]) is NotPresent,
            None => forall|j: int|
                i <= j < keys.len() ==> lookup_spec(src, #[trigger] keys[j]) is NotPresent,
        },
    decreases keys.len() - i,
{
    if i < keys.len() {
        if lookup_spec(src, keys[i]) is NotPresent {
            lemma_first_present_props(keys, src, i + 1);
        }
    }
}

/// An error node is always tagged with the index of the field it is for.
pub proof fn lemma_field_err_idx(f: FieldSpecView, idx: int, src: Seq<KeyEntryView>)
    ensures
        resolve_field_spec(f, idx, src) matches Err(e) ==> node_idx(e) == idx,
{
    match f.kind {
        FieldKindView::Leaf(_) => {
            lemma_first_present_props(f.keys, src, 0);
        },
        FieldKindView::Nested(_) => {
        },
    }
}

/// Prefix counts only look at the fields before the cut.
proof fn lemma_count_agree(
    a: Seq<FieldSpecView>,
    b: Seq<FieldSpecView>,
    src: Seq<KeyEntryView>,
    k: int,
)
    requires
        k <= a.len(),
        k <= b.len(),
        forall|i: int| 0 <= i < k ==> a[i] == b[i],
    ensures
        count_failing(a, src, k) == count_failing(b, src, k),
    decreases k,
{
    if k > 0 {
        lemma_count_agree(a, b, src, k - 1);
    }
}

/// The shape of the error tree of a record resolution: exactly one node
/// per failing field, each tagged with its own field's identity and equal
/// to that field's error, in declaration order; succeeding fields are
/// absent, and every failing field is represented.
#[verifier::rlimit(60)]
pub proof fn lemma_error_tree_shape(fields: Seq<FieldSpecView>, src: Seq<KeyEntryView>)
    ensures
        ({
            let errs = resolve_fields_spec(fields, src).1;
            &&& errs.len() == count_failing(fields, src, fields.len() as int)
            &&& forall|j: int|
                0 <= j < errs.len() ==> {
                    let i = node_idx(#[trigger] errs[j]);
                    &&& 0 <= i < fields.len()
                    &&& field_fails(fields, i, src)
                    &&& errs[j] == field_err_node(fields, i, src)
                }
            &&& forall|j1: int, j2: int|
                0 <= j1 < j2 < errs.len() ==> node_idx(errs[j1]) < node_idx(errs[j2])
            &&& forall|i: int|
                0 <= i < fields.len() && field_fails(fields, i, src) ==> exists|j: int|
                    0 <= j < errs.len() && #[trigger] errs[j] == field_err_node(fields, i, src)
                        && node_idx(errs[j]) == i
        }),
    decreases fields.len(),
{
    if fields.len() == 0 {
    } else {
        let prior = fields.drop_last();
        lemma_error_tree_shape(prior, src);
        lemma_count_agree(prior, fields, src, fields.len() - 1);
        let last_i = fields.len() - 1;
        lemma_field_err_idx(fields.last(), last_i, src);
        let errs = resolve_fields_spec(fields, src).1;
        let prior_errs = resolve_fields_spec(prior, src).1;
        assert forall|i: int| 0 <= i < prior.len() implies resolve_field_spec(prior[i], i, src)
            == resolve_field_spec(fields[i], i, src) by {
            assert(prior[i] == fields[i]);
        }
        if field_fails(fields, last_i, src) {
            assert(errs == prior_errs.push(field_err_node(fields, last_i, src)));
            assert forall|i: int|
                0 <= i < fields.len() && field_fails(fields, i, src) implies exists|j: int|
                0 <= j < errs.len() && #[trigger] errs[j] == field_err_node(fields, i, src)
                    && node_idx(errs[j]) == i by {
                if i < last_i {
                    assert(prior[i] == fields[i]);
                    assert(field_fails(prior, i, src));
                    assert(field_err_node(prior, i, src) == field_err_node(fields, i, src));
                    let j = choose|j: int|
                        0 <= j < prior_errs.len() && prior_errs[j] == field_err_node(prior, i, src)
                            && node_idx(prior_errs[j]) == i;
                    assert(errs[j] == prior_errs[j]);
                    assert(errs[j] == field_err_node(fields, i, src) && node_idx(errs[j]) == i);
                } else {
                    assert(errs[errs.len() - 1] == field_err_node(fields, i, src));
                }
            }
        } else {
            assert(errs == prior_errs);
            assert forall|i: int|
                0 <= i < fields.len() && field_fails(fields, i, src) implies exists|j: int|
                0 <= j < errs.len() && #[trigger] errs[j] == field_err_node(fields, i, src)
                    && node_idx(errs[j]) == i by {
                assert(prior[i] == fields[i]);
                assert(field_fails(prior, i, src));
                assert(field_err_node(prior, i, src) == field_err_node(fields, i, src));
                let j = choose|j: int|
                    0 <= j < prior_errs.len() && prior_errs[j] == field_err_node(prior, i, src)
                        && node_idx(prior_errs[j]) == i;
                assert(errs[j] == field_err_node(fields, i, src) && node_idx(errs[j]) == i);
            }
        }
    }
}

/// A field resolves to `Missing` exactly when it is a leaf whose
/// candidate keys are all absent, with no default and not optional; the
/// node then carries the field's identity and the full tried key list.
pub proof fn lemma_missing_value_exact(f: FieldSpecView, idx: int, src: Seq<KeyEntryView>)
    ensures
        (resolve_field_spec(f, idx, src) matches Err(e) && e is Missing) <==> (f.kind is Leaf
            && first_present(f.keys, src, 0) is None && !f.optional && f.default is None),
        (resolve_field_spec(f, idx, src) matches Err(e) && e is Missing) ==> resolve_field_spec(
            f,
            idx,
            src,
        )->Err_0 == (ErrorNodeView::Missing { idx, name: f.name, keys: f.keys }),
{
    match f.kind {
        FieldKindView::Leaf(_) => {
            lemma_first_present_props(f.keys, src, 0);
        },
        FieldKindView::Nested(_) => {
        },
    }
}

/// In any record resolved against any source, a `Missing` node for field
/// `i` stands in the error tree exactly when field `i` is a leaf whose
/// candidate keys are all absent from the source, with no default
/// declared and no optional mark; the node then carries the field's
/// identity and its full ordered key list.
pub proof fn lemma_missing_in_record(fields: Seq<FieldSpecView>, src: Seq<KeyEntryView>, i: int)
    requires
        0 <= i < fields.len(),
    ensures
        ({
            let errs = resolve_fields_spec(fields, src).1;
            (exists|j: int| 0 <= j < errs.len() && #[trigger] errs[j] is Missing && node_idx(
                errs[j],
            ) == i) <==> (fields[i].kind is Leaf && first_present(fields[i].keys, src, 0) is None
                && !fields[i].optional && fields[i].default is None)
        }),
        ({
            let errs = resolve_fields_spec(fields, src).1;
            forall|j: int|
                0 <= j < errs.len() && #[trigger] errs[j] is Missing && node_idx(errs[j]) == i
                    ==> errs[j] == (ErrorNodeView::Missing {
                    idx: i,
                    name: fields[i].name,
                    keys: fields[i].keys,
                })
        }),
{
    lemma_error_tree_shape(fields, src);
    lemma_missing_value_exact(fields[i], i, src);
    let errs = resolve_fields_spec(fields, src).1;
    if fields[i].kind is Leaf && first_present(fields[i].keys, src, 0) is None
        && !fields[i].optional && fields[i].default is None {
        assert(field_fails(fields, i, src));
        let j = choose|j: int|
            0 <= j < errs.len() && #[trigger] errs[j] == field_err_node(fields, i, src)
                && node_idx(errs[j]) == i;
        assert(errs[j] is Missing && node_idx(errs[j]) == i);
    }
    assert forall|j: int|
        0 <= j < errs.len() && #[trigger] errs[j] is Missing && node_idx(errs[j]) == i implies (
    fields[i].kind is Leaf && first_present(fields[i].keys, src, 0) is None && !fields[i].optional
        && fields[i].default is None && errs[j] == (ErrorNodeView::Missing {
        idx: i,
        name: fields[i].name,
        keys: fields[i].keys,
    })) by {
        assert(errs[j] == field_err_node(fields, i, src));
        assert(resolve_field_spec(fields[i], i, src) matches Err(e) && e is Missing);
    }
}

/// A nested field fails exactly when its sub-record fails, and then
/// yields exactly one `Nested` node at the parent level, wrapping the
/// child's complete error tree unflattened.
pub proof fn lemma_nested_error_wrapped(f: FieldSpecView, idx: int, src: Seq<KeyEntryView>)
    requires
        f.kind is Nested,
    ensures
        resolve_field_spec(f, idx, src) is Err <==> resolve_schema_spec(f.kind->Nested_0, src)
            is Err,
        resolve_field_spec(f, idx, src) matches Err(e) ==> e == (ErrorNodeView::Nested {
            idx,
            name: f.name,
            tree: resolve_schema_spec(f.kind->Nested_0, src)->Err_0,
        }),
{
}

/// A key scan with no present key before `w` and a present key at `w`
/// stops exactly at `w`.
pub proof fn lemma_first_present_at(
    keys: Seq<Seq<char>>,
    src: Seq<KeyEntryView>,
    w: int,
    i: int,
)
    requires
        0 <= i <= w < keys.len(),
        forall|j: int| 0 <= j < w ==> lookup_spec(src, #[trigger] keys[j]) is NotPresent,
        !(lookup_spec(src, keys[w]) is NotPresent),
    ensures
        first_present(keys, src, i) == Some(w),
    decreases w - i,
{
    if i < w {
        lemma_first_present_at(keys, src, w, i + 1);
    }
}

/// Fallback stops at first presence, not first success: once a candidate
/// key is present, what later candidate keys hold never matters.  Two
/// sources that agree that the keys before `w` are absent and agree on
/// key `w`, which is present, resolve the field identically — whether or
/// not the present value decodes.
pub proof fn lemma_fallback_stops_at_first_presence(
    f: FieldSpecView,
    idx: int,
    src1: Seq<KeyEntryView>,
    src2: Seq<KeyEntryView>,
    w: int,
)
    requires
        f.kind is Leaf,
        0 <= w < f.keys.len(),
        forall|j: int| 0 <= j < w ==> lookup_spec(src1, #[trigger] f.keys[j]) is NotPresent,
        forall|j: int| 0 <= j < w ==> lookup_spec(src2, #[trigger] f.keys[j]) is NotPresent,
        !(lookup_spec(src1, f.keys[w]) is NotPresent),
        lookup_spec(src2, f.keys[w]) == lookup_spec(src1, f.keys[w]),
    ensures
        resolve_field_spec(f, idx, src1) == resolve_field_spec(f, idx, src2),
{
    lemma_first_present_at(f.keys, src1, w, 0);
    lemma_first_present_at(f.keys, src2, w, 0);
}

/// The first succeeding variant of a scan, characterized: every variant
/// before it fails, and when the scan yields nothing, every variant from
/// the scan's start fails.
pub proof fn lemma_first_ok_variant_props(
    variants: Seq<VariantSpecView>,
    src: Seq<KeyEntryView>,
    i: int,
)
    requires
        0 <= i <= variants.len(),
    ensures
        match first_ok_variant(variants, src, i) {
            Some(k) => i <= k < variants.len() && resolve_record_spec(variants[k].fields, src)
                is Ok && forall|j: int|
                i <= j < k ==> resolve_record_spec(#[trigger] variants[j].fields, src) is Err,
            None => forall|j: int|
                i <= j < variants.len() ==> resolve_record_spec(#[trigger] variants[j].fields, src)
                    is Err,
        },
    decreases variants.len() - i,
{
    if i < variants.len() {
        if !(resolve_record_spec(variants[i].fields, src) is Ok) {
            lemma_first_ok_variant_props(variants, src, i + 1);
        }
    }
}

/// Variant trial and discard: the variants are tried in declaration
/// order; the first whose record resolves without errors yields the
/// constructed value, and when every variant fails, only the last
/// attempted variant's error tree is returned — the earlier variants'
/// diagnostics are discarded.
pub proof fn lemma_variant_resolution(variants: Seq<VariantSpecView>, src: Seq<KeyEntryView>)
    requires
        variants.len() > 0,
    ensures
        (exists|i: int|
            0 <= i < variants.len() && resolve_record_spec(
                #[trigger] variants[i].fields,
                src,
            ) is Ok) ==> ({
            let w = first_ok_variant(variants, src, 0);
            &&& w matches Some(k)
            &&& 0 <= w->0 < variants.len()
            &&& resolve_record_spec(variants[w->0].fields, src) is Ok
            &&& forall|j: int|
                0 <= j < w->0 ==> resolve_record_spec(#[trigger] variants[j].fields, src) is Err
            &&& resolve_schema_spec(SchemaView::Sum(variants), src) == Ok::<
                ValueView,
                Seq<ErrorNodeView>,
            >(
                ValueView::Variant(
                    w->0,
                    resolve_record_spec(variants[w->0].fields, src)->Ok_0,
                ),
            )
        }),
        (forall|i: int|
            0 <= i < variants.len() ==> resolve_record_spec(
                #[trigger] variants[i].fields,
                src,
            ) is Err) ==> resolve_schema_spec(SchemaView::Sum(variants), src) == Err::<
            ValueView,
            Seq<ErrorNodeView>,
        >(resolve_record_spec(variants[variants.len() - 1].fields, src)->Err_0),
{
    lemma_first_ok_variant_props(variants, src, 0);
    if exists|i: int|
        0 <= i < variants.len() && resolve_record_spec(#[trigger] variants[i].fields, src) is Ok {
        let i = choose|i: int|
            0 <= i < variants.len() && resolve_record_spec(#[trigger] variants[i].fields, src)
                is Ok;
        match first_ok_variant(variants, src, 0) {
            Some(_) => {
            },
            None => {
                assert(resolve_record_spec(variants[i].fields, src) is Err);
            },
        }
    }
}

/// A field declared both optional and with a default resolves to no
/// value when every candidate key is absent: the default is never used.
pub proof fn lemma_optional_wins_over_default(f: FieldSpecView, idx: int, src: Seq<KeyEntryView>)
    requires
        f.kind is Leaf,
        f.optional,
        first_present(f.keys, src, 0) is None,
    ensures
        resolve_field_spec(f, idx, src) == Ok::<ValueView, ErrorNodeView>(ValueView::Absent),
{
}

/// Name scans agree on inputs that are equal up to ASCII case.
proof fn lemma_first_choice_case(
    names: Seq<Seq<char>>,
    raw1: Seq<char>,
    raw2: Seq<char>,
    i: int,
)
    requires
        lower_seq(raw1) == lower_seq(raw2),
    ensures
        first_choice(names, raw1, i) == first_choice(names, raw2, i),
    decreases names.len() - i,
{
    if 0 <= i < names.len() {
        lemma_first_choice_case(names, raw1, raw2, i + 1);
    }
}

/// The enumeration decoder matches case-insensitively: inputs equal up
/// to ASCII case select the same declared name, and an input that
/// matches no name yields an error that names the offending input.
pub proof fn lemma_choice_case_insensitive(
    names: Seq<Seq<char>>,
    raw1: Seq<char>,
    raw2: Seq<char>,
)
    requires
        lower_seq(raw1) == lower_seq(raw2),
    ensures
        (decode_spec(DecoderView::Choice(names), raw1) matches Ok(v) ==> decode_spec(
            DecoderView::Choice(names),
            raw2,
        ) == Ok::<ValueView, Seq<char>>(v)),
        (decode_spec(DecoderView::Choice(names), raw1) is Err ==> decode_spec(
            DecoderView::Choice(names),
            raw2,
        ) == Err::<ValueView, Seq<char>>(choice_error_message(raw2))),
{
    lemma_first_choice_case(names, raw1, raw2, 0);
}

/// Decoding hides no state: it is a pure function of the decoder and the
/// raw input alone, so a decoder run twice on identical input yields an
/// identical result.
pub proof fn lemma_decoder_deterministic(d: DecoderView, raw1: Seq<char>, raw2: Seq<char>)
    requires
        raw1 == raw2,
    ensures
        decode_spec(d, raw1) == decode_spec(d, raw2),
{
}

} // verus!
