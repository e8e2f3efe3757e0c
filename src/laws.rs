use vstd::prelude::*;
use crate::type_info::{TypeInfo, refs_backward};
use crate::footprint::{DecodeError, footprint, fields_footprint, variants_footprint};
use crate::decode::{Item, tag_rank, decode_tag, decode_fields, decode_elements, variant_decoded};
use crate::primitive::compact_u32;

verus! {

/// Whatever a successful decode of a tag run consumes from the sequence is that
/// run's footprint: stepping over a run without its bytes and decoding it move
/// the sequence cursor equally far.
pub proof fn lemma_consumed_is_footprint(ti: Seq<TypeInfo>, i: int, buf: Seq<u8>, pos: int, depth: nat)
    ensures
        decode_tag(ti, i, buf, pos, depth) matches Ok((_items, c, _p)) ==> footprint(ti, i) == Ok::<int, DecodeError>(c),
    decreases depth, 1int, 0int,
{
    if 0 <= i < ti.len() && depth > 0 {
        match ti[i] {
            TypeInfo::Optional => {
                if pos < buf.len() && buf[pos] == 1 {
                    lemma_consumed_is_footprint(ti, i + 1, buf, pos + 1, (depth - 1) as nat);
                }
            },
            TypeInfo::StructStart => {
                lemma_fields_consumed_is_footprint(ti, i + 1, TypeInfo::StructEnd, buf, pos, (depth - 1) as nat);
            },
            _ => {},
        }
    }
}

/// The fields of a composite or of an enum variant, decoded, consume their footprint.
pub proof fn lemma_fields_consumed_is_footprint(ti: Seq<TypeInfo>, j: int, end: TypeInfo, buf: Seq<u8>, pos: int, depth: nat)
    ensures
        decode_fields(ti, j, end, buf, pos, depth) matches Ok((_items, c, _p)) ==> fields_footprint(ti, j, end) == Ok::<int, DecodeError>(c),
    decreases depth, 2int, ti.len() - j,
{
    if 0 <= j < ti.len() && ti[j] != end {
        lemma_consumed_is_footprint(ti, j, buf, pos, depth);
        if let Ok((_items, c, p)) = decode_tag(ti, j, buf, pos, depth) {
            if 1 <= c <= ti.len() - j {
                lemma_fields_consumed_is_footprint(ti, j + c, end, buf, p, depth);
            }
        }
    }
}

/// An absent optional that wraps a composite reads exactly its presence byte,
/// and moves the sequence cursor past the optional's tag and the composite's
/// whole footprint, however deeply the composite nests.
pub proof fn lemma_absent_optional_skips(ti: Seq<TypeInfo>, i: int, buf: Seq<u8>, pos: int, depth: nat)
    requires
        0 <= i < ti.len(),
        ti[i] is Optional,
        i + 1 < ti.len(),
        ti[i + 1] is StructStart,
        0 <= pos < buf.len(),
        buf[pos] == 0,
        depth > 0,
        footprint(ti, i + 1) is Ok,
    ensures
        decode_tag(ti, i, buf, pos, depth) == Ok::<(Seq<Item>, int, int), DecodeError>(
            (seq![Item::Absent], 1 + footprint(ti, i + 1)->Ok_0, pos + 1),
        ),
{
}

/// Resolving a back-reference to the composite at `q` decodes exactly what the
/// composite decodes there, from the same byte, with the same nesting left,
/// while the reference itself occupies one entry of the sequence.
pub proof fn lemma_back_reference_resolves(ti: Seq<TypeInfo>, p: int, q: usize, buf: Seq<u8>, pos: int, depth: nat)
    requires
        0 <= q < p < ti.len(),
        ti[p] == TypeInfo::RefType(q),
        ti[q as int] is StructStart,
        depth > 0,
    ensures
        decode_tag(ti, p, buf, pos, depth) == (match decode_tag(ti, q as int, buf, pos, depth) {
            Ok((items, _c, next)) => Ok((items, 1, next)),
            Err(e) => Err::<(Seq<Item>, int, int), DecodeError>(e),
        }),
{
}

/// A back-reference past the end of the sequence is reported as such.
pub proof fn lemma_back_reference_out_of_range(ti: Seq<TypeInfo>, p: int, q: usize, buf: Seq<u8>, pos: int, depth: nat)
    requires
        0 <= p < ti.len(),
        ti[p] == TypeInfo::RefType(q),
        q >= ti.len(),
        depth > 0,
    ensures
        decode_tag(ti, p, buf, pos, depth) == Err::<(Seq<Item>, int, int), DecodeError>(DecodeError::BackReferenceOutOfRange),
{
}

/// Stepping over tag runs fails only on a malformed sequence.
pub proof fn lemma_footprint_fails_malformed(ti: Seq<TypeInfo>, i: int)
    ensures
        footprint(ti, i) is Err ==> footprint(ti, i) == Err::<int, DecodeError>(DecodeError::MalformedSequence),
        forall|end: TypeInfo| #[trigger] fields_footprint(ti, i, end) is Err
            ==> fields_footprint(ti, i, end) == Err::<int, DecodeError>(DecodeError::MalformedSequence),
        variants_footprint(ti, i) is Err ==> variants_footprint(ti, i) == Err::<int, DecodeError>(DecodeError::MalformedSequence),
    decreases ti.len() - i,
{
    if 0 <= i < ti.len() {
        lemma_footprint_fails_malformed(ti, i + 1);
        assert(fields_footprint(ti, i + 1, TypeInfo::StructEnd) is Err
            ==> fields_footprint(ti, i + 1, TypeInfo::StructEnd) == Err::<int, DecodeError>(DecodeError::MalformedSequence));
        assert(footprint(ti, i) is Err ==> footprint(ti, i) == Err::<int, DecodeError>(DecodeError::MalformedSequence));
        assert forall|end: TypeInfo| #[trigger] fields_footprint(ti, i, end) is Err
            implies fields_footprint(ti, i, end) == Err::<int, DecodeError>(DecodeError::MalformedSequence) by {
            if ti[i] != end {
                if let Ok(n) = footprint(ti, i) {
                    if 1 <= n <= ti.len() - i {
                        lemma_footprint_fails_malformed(ti, i + n);
                        assert(fields_footprint(ti, i, end) == (match fields_footprint(ti, i + n, end) {
                            Ok(m) => Ok(n + m),
                            Err(e) => Err::<int, DecodeError>(e),
                        }));
                    }
                }
            }
        }
        assert(fields_footprint(ti, i + 1, TypeInfo::EnumVariantEnd) is Err
            ==> fields_footprint(ti, i + 1, TypeInfo::EnumVariantEnd) == Err::<int, DecodeError>(DecodeError::MalformedSequence));
        if let Ok(f) = fields_footprint(ti, i + 1, TypeInfo::EnumVariantEnd) {
            if 1 <= f <= ti.len() - i - 1 {
                lemma_footprint_fails_malformed(ti, i + 1 + f);
            }
        }
    }
}

/// A sequence whose back-references never point forward, as the generator
/// makes them, never fails to decode with `BackReferenceOutOfRange`.
pub proof fn lemma_backward_refs_in_range(ti: Seq<TypeInfo>, i: int, buf: Seq<u8>, pos: int, depth: nat)
    requires
        refs_backward(ti),
    ensures
        decode_tag(ti, i, buf, pos, depth) != Err::<(Seq<Item>, int, int), DecodeError>(DecodeError::BackReferenceOutOfRange),
    decreases depth, tag_rank(ti, i), 0int,
{
    if 0 <= i < ti.len() && depth > 0 {
        lemma_footprint_fails_malformed(ti, i + 1);
        match ti[i] {
            TypeInfo::Optional => {
                if pos < buf.len() && buf[pos] == 1 {
                    lemma_backward_refs_in_range(ti, i + 1, buf, pos + 1, (depth - 1) as nat);
                }
            },
            TypeInfo::StructStart => {
                lemma_fields_refs_in_range(ti, i + 1, TypeInfo::StructEnd, buf, pos, (depth - 1) as nat);
            },
            TypeInfo::RefType(q) => {
                if q < ti.len() && ti[q as int] is StructStart {
                    lemma_backward_refs_in_range(ti, q as int, buf, pos, depth);
                }
            },
            TypeInfo::List => {
                if let Ok((n, width)) = compact_u32(buf, pos) {
                    lemma_elements_refs_in_range(ti, i + 1, buf, pos + width, (depth - 1) as nat, n as nat);
                }
            },
            TypeInfo::Enum => {
                if 0 <= pos < buf.len() {
                    lemma_variant_refs_in_range(ti, i + 1, buf[pos] as nat, buf, pos + 1, (depth - 1) as nat);
                }
            },
            _ => {},
        }
    }
}

/// The fields of a composite or variant, under `refs_backward`.
pub proof fn lemma_fields_refs_in_range(ti: Seq<TypeInfo>, j: int, end: TypeInfo, buf: Seq<u8>, pos: int, depth: nat)
    requires
        refs_backward(ti),
    ensures
        decode_fields(ti, j, end, buf, pos, depth) != Err::<(Seq<Item>, int, int), DecodeError>(DecodeError::BackReferenceOutOfRange),
    decreases depth, 2int, ti.len() - j,
{
    if 0 <= j < ti.len() && ti[j] != end {
        lemma_backward_refs_in_range(ti, j, buf, pos, depth);
        if let Ok((_items, c, p)) = decode_tag(ti, j, buf, pos, depth) {
            if 1 <= c <= ti.len() - j {
                lemma_fields_refs_in_range(ti, j + c, end, buf, p, depth);
            }
        }
    }
}

/// The elements of a list, under `refs_backward`.
pub proof fn lemma_elements_refs_in_range(ti: Seq<TypeInfo>, e: int, buf: Seq<u8>, pos: int, depth: nat, n: nat)
    requires
        refs_backward(ti),
    ensures
        decode_elements(ti, e, buf, pos, depth, n) != Err::<(Seq<Item>, int), DecodeError>(DecodeError::BackReferenceOutOfRange),
    decreases depth, 3int, n,
{
    if n > 0 {
        lemma_backward_refs_in_range(ti, e, buf, pos, depth);
        if let Ok((_items, _c, p)) = decode_tag(ti, e, buf, pos, depth) {
            lemma_elements_refs_in_range(ti, e, buf, p, depth, (n - 1) as nat);
        }
    }
}

/// The chosen variant of an enum, under `refs_backward`.
pub proof fn lemma_variant_refs_in_range(ti: Seq<TypeInfo>, j: int, k: nat, buf: Seq<u8>, pos: int, depth: nat)
    requires
        refs_backward(ti),
    ensures
        variant_decoded(ti, j, k, buf, pos, depth) != Err::<(Seq<Item>, int), DecodeError>(DecodeError::BackReferenceOutOfRange),
    decreases depth, 4int, ti.len() - j,
{
    if 0 <= j < ti.len() && (ti[j] is EnumVariantUnit || ti[j] is EnumVariantStart) {
        lemma_footprint_fails_malformed(ti, j + 1);
        if k == 0 {
            if ti[j] is EnumVariantStart {
                lemma_fields_refs_in_range(ti, j + 1, TypeInfo::EnumVariantEnd, buf, pos, depth);
            }
        } else if ti[j] is EnumVariantUnit {
            lemma_variant_refs_in_range(ti, j + 1, (k - 1) as nat, buf, pos, depth);
        } else if let Ok(f) = fields_footprint(ti, j + 1, TypeInfo::EnumVariantEnd) {
            if 1 <= f <= ti.len() - j - 1 {
                lemma_variant_refs_in_range(ti, j + 1 + f, (k - 1) as nat, buf, pos, depth);
            }
        }
    }
}

} // verus!
