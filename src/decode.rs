use vstd::prelude::*;
use crate::type_info::TypeInfo;
use crate::footprint::{DecodeError, footprint, fields_footprint, variants_footprint, skip_type, skip_fields, skip_variants};
use crate::primitive::{le_u32, compact_u32, read_u32, read_i8, read_compact_u32};

verus! {

/// Nesting limit of `decode`: composites, optionals, lists and enums inside each other.
pub const MAX_DEPTH: usize = 512;

/// One token of a decoded value. A value is written as a flat run of tokens:
/// a primitive as one token, an optional as `Present` followed by its payload
/// or as `Absent`, a composite as its fields between `Open` and `Close`, a
/// list as `Len` with its length followed by its elements, an enum as `Variant`
/// with the discriminant, followed by the variant's fields between `Open` and
/// `Close` unless it has none.
#[derive(Debug, PartialEq, Eq, Clone, Copy, Structural)]
pub enum Item {
    U8(u8),
    I8(i8),
    U32(u32),
    Void,
    Present,
    Absent,
    Open,
    Close,
    Len(u32),
    Variant(u8),
}

/// A decode's outcome: the tokens, the sequence entries used, the next byte position.
pub type Decoded = Result<(Seq<Item>, int, int), DecodeError>;

/// A back-reference ranks above the composite it resolves to: resolving it uses
/// up no nesting, and still ends.
pub open spec fn tag_rank(ti: Seq<TypeInfo>, i: int) -> int {
    if 0 <= i < ti.len() && ti[i] is RefType {
        1
    } else {
        0
    }
}

/// Decoding the tag run at `i` of `ti` against the bytes of `buf` from `pos`,
/// with at most `depth` levels of nesting.
pub open spec fn decode_tag(ti: Seq<TypeInfo>, i: int, buf: Seq<u8>, pos: int, depth: nat) -> Decoded
    decreases depth, tag_rank(ti, i), 0int,
{
    if i < 0 || i >= ti.len() {
        Err(DecodeError::MalformedSequence)
    } else if depth == 0 {
        Err(DecodeError::DepthLimitExceeded)
    } else {
        match ti[i] {
            TypeInfo::U8 => if pos < buf.len() {
                Ok((seq![Item::U8(buf[pos])], 1, pos + 1))
            } else {
                Err(DecodeError::BufferUnderrun)
            },
            TypeInfo::I8 => if pos < buf.len() {
                Ok((seq![Item::I8(buf[pos] as i8)], 1, pos + 1))
            } else {
                Err(DecodeError::BufferUnderrun)
            },
            TypeInfo::U32 => if pos + 4 <= buf.len() {
                Ok((seq![Item::U32(le_u32(buf, pos))], 1, pos + 4))
            } else {
                Err(DecodeError::BufferUnderrun)
            },
            TypeInfo::Void => Ok((seq![Item::Void], 1, pos)),
            TypeInfo::Optional => if pos >= buf.len() {
                Err(DecodeError::BufferUnderrun)
            } else if buf[pos] == 1 {
                match decode_tag(ti, i + 1, buf, pos + 1, (depth - 1) as nat) {
                    Ok((items, c, p)) => Ok((seq![Item::Present] + items, c + 1, p)),
                    Err(e) => Err(e),
                }
            } else if buf[pos] == 0 {
                match footprint(ti, i + 1) {
                    Ok(n) => Ok((seq![Item::Absent], n + 1, pos + 1)),
                    Err(e) => Err(e),
                }
            } else {
                Err(DecodeError::InvalidPresenceFlag)
            },
            TypeInfo::StructStart => match decode_fields(ti, i + 1, TypeInfo::StructEnd, buf, pos, (depth - 1) as nat) {
                Ok((items, c, p)) => Ok((seq![Item::Open] + items, c + 1, p)),
                Err(e) => Err(e),
            },
            TypeInfo::RefType(q) => if q >= ti.len() {
                Err(DecodeError::BackReferenceOutOfRange)
            } else if !(ti[q as int] is StructStart) {
                Err(DecodeError::BackReferenceTargetInvalid)
            } else {
                match decode_tag(ti, q as int, buf, pos, depth) {
                    Ok((items, _c, p)) => Ok((items, 1, p)),
                    Err(e) => Err(e),
                }
            },
            TypeInfo::List => match compact_u32(buf, pos) {
                Ok((n, width)) => match footprint(ti, i + 1) {
                    Ok(f) => match decode_elements(ti, i + 1, buf, pos + width, (depth - 1) as nat, n as nat) {
                        Ok((items, p)) => Ok((seq![Item::Len(n)] + items, f + 1, p)),
                        Err(e) => Err(e),
                    },
                    Err(e) => Err(e),
                },
                Err(e) => Err(e),
            },
            TypeInfo::Enum => if pos < 0 || pos >= buf.len() {
                Err(DecodeError::BufferUnderrun)
            } else {
                match variants_footprint(ti, i + 1) {
                    Ok(f) => match variant_decoded(ti, i + 1, buf[pos] as nat, buf, pos + 1, (depth - 1) as nat) {
                        Ok((items, p)) => Ok((seq![Item::Variant(buf[pos])] + items, f + 1, p)),
                        Err(e) => Err(e),
                    },
                    Err(e) => Err(e),
                }
            },
            TypeInfo::StructEnd | TypeInfo::EnumVariantStart | TypeInfo::EnumVariantEnd
            | TypeInfo::EnumVariantUnit => Err(DecodeError::MalformedSequence),
        }
    }
}

/// Decoding variant number `k` of the variants that start at `j`: the variants
/// before it are stepped over, and no bytes are read for them.
pub open spec fn variant_decoded(ti: Seq<TypeInfo>, j: int, k: nat, buf: Seq<u8>, pos: int, depth: nat)
    -> Result<(Seq<Item>, int), DecodeError>
    decreases depth, 4int, ti.len() - j,
{
    if j < 0 || j >= ti.len() || !(ti[j] is EnumVariantUnit || ti[j] is EnumVariantStart) {
        Err(DecodeError::InvalidDiscriminant)
    } else if k == 0 {
        if ti[j] is EnumVariantUnit {
            Ok((Seq::empty(), pos))
        } else {
            match decode_fields(ti, j + 1, TypeInfo::EnumVariantEnd, buf, pos, depth) {
                Ok((items, _c, p)) => Ok((seq![Item::Open] + items, p)),
                Err(e) => Err(e),
            }
        }
    } else if ti[j] is EnumVariantUnit {
        variant_decoded(ti, j + 1, (k - 1) as nat, buf, pos, depth)
    } else {
        match fields_footprint(ti, j + 1, TypeInfo::EnumVariantEnd) {
            Ok(f) => if 1 <= f <= ti.len() - j - 1 {
                variant_decoded(ti, j + 1 + f, (k - 1) as nat, buf, pos, depth)
            } else {
                Err(DecodeError::MalformedSequence)
            },
            Err(e) => Err(e),
        }
    }
}

/// Decoding `n` elements in a row, each described by the tag run at `e`: the
/// tokens and the next byte position.
pub open spec fn decode_elements(ti: Seq<TypeInfo>, e: int, buf: Seq<u8>, pos: int, depth: nat, n: nat)
    -> Result<(Seq<Item>, int), DecodeError>
    decreases depth, 3int, n,
{
    if n == 0 {
        Ok((Seq::empty(), pos))
    } else {
        match decode_tag(ti, e, buf, pos, depth) {
            Ok((items, _c, p)) => match decode_elements(ti, e, buf, p, depth, (n - 1) as nat) {
                Ok((rest, p2)) => Ok((items + rest, p2)),
                Err(err) => Err(err),
            },
            Err(err) => Err(err),
        }
    }
}

/// Decoding the fields of a composite, or of an enum variant, from the one at
/// `j` through the `end` tag that closes them.
pub open spec fn decode_fields(ti: Seq<TypeInfo>, j: int, end: TypeInfo, buf: Seq<u8>, pos: int, depth: nat) -> Decoded
    decreases depth, 2int, ti.len() - j,
{
    if j < 0 || j >= ti.len() {
        Err(DecodeError::MalformedSequence)
    } else if ti[j] == end {
        Ok((seq![Item::Close], 1, pos))
    } else {
        match decode_tag(ti, j, buf, pos, depth) {
            Ok((items, c, p)) => if 1 <= c <= ti.len() - j {
                match decode_fields(ti, j + c, end, buf, p, depth) {
                    Ok((rest, c2, p2)) => Ok((items + rest, c + c2, p2)),
                    Err(e) => Err(e),
                }
            } else {
                Err(DecodeError::MalformedSequence)
            },
            Err(e) => Err(e),
        }
    }
}

/// Decoding a whole sequence, which describes one type, from the first byte:
/// the tokens and the position of the first byte not read.
pub open spec fn decode_all(ti: Seq<TypeInfo>, buf: Seq<u8>) -> Result<(Seq<Item>, int), DecodeError> {
    match decode_tag(ti, 0, buf, 0, MAX_DEPTH as nat) {
        Ok((items, c, p)) => if c == ti.len() {
            Ok((items, p))
        } else {
            Err(DecodeError::MalformedSequence)
        },
        Err(e) => Err(e),
    }
}

pub open spec fn view_decoded(r: Result<(Vec<Item>, usize, usize), DecodeError>) -> Decoded {
    match r {
        Ok((v, c, p)) => Ok((v@, c as int, p as int)),
        Err(e) => Err(e),
    }
}

fn single(it: Item) -> (v: Vec<Item>)
    ensures
        v@ == seq![it],
{
    let mut v = Vec::new();
    v.push(it);
    assert(v@ =~= seq![it]);
    v
}

/// Decodes the tag run at `index` of `type_info` against `encoded` from byte
/// `pos`, allowing `depth` levels of nesting. Gives the tokens, the number of
/// sequence entries the run occupies, and the position of the next unread byte.
/// A back-reference is resolved against the whole of `type_info` and counts as
/// one entry, however large the composite it revisits. An optional's presence
/// byte is 1 when the payload follows and 0 when it does not; any other value
/// is an error.
#[verifier::rlimit(50)]
pub fn decode_type_info(type_info: &[TypeInfo], index: usize, encoded: &[u8], pos: usize, depth: usize)
    -> (r: Result<(Vec<Item>, usize, usize), DecodeError>)
    requires
        pos <= encoded@.len(),
    ensures
        view_decoded(r) == decode_tag(type_info@, index as int, encoded@, pos as int, depth as nat),
        r matches Ok((_v, c, p)) ==> 1 <= c <= type_info@.len() - index && pos <= p <= encoded@.len(),
    decreases depth, tag_rank(type_info@, index as int), 0int,
{
    if index >= type_info.len() {
        return Err(DecodeError::MalformedSequence);
    }
    if depth == 0 {
        return Err(DecodeError::DepthLimitExceeded);
    }
    let len = encoded.len();
    assert(encoded@.len() == len);
    match type_info[index] {
        TypeInfo::U8 => if pos < encoded.len() {
            Ok((single(Item::U8(encoded[pos])), 1, pos + 1))
        } else {
            Err(DecodeError::BufferUnderrun)
        },
        TypeInfo::I8 => match read_i8(encoded, pos) {
            Some(x) => Ok((single(Item::I8(x)), 1, pos + 1)),
            None => Err(DecodeError::BufferUnderrun),
        },
        TypeInfo::U32 => match read_u32(encoded, pos) {
            Some(x) => Ok((single(Item::U32(x)), 1, pos + 4)),
            None => Err(DecodeError::BufferUnderrun),
        },
        TypeInfo::Void => Ok((single(Item::Void), 1, pos)),
        TypeInfo::Optional => {
            if pos >= encoded.len() {
                Err(DecodeError::BufferUnderrun)
            } else if encoded[pos] == 1 {
                match decode_type_info(type_info, index + 1, encoded, pos + 1, depth - 1) {
                    Ok((inner, c, p)) => {
                        let mut items = single(Item::Present);
                        let mut inner = inner;
                        let ghost tail = inner@;
                        items.append(&mut inner);
                        assert(items@ =~= seq![Item::Present] + tail);
                        Ok((items, c + 1, p))
                    },
                    Err(e) => Err(e),
                }
            } else if encoded[pos] == 0 {
                match skip_type(type_info, index + 1) {
                    Ok(n) => Ok((single(Item::Absent), n + 1, pos + 1)),
                    Err(e) => Err(e),
                }
            } else {
                Err(DecodeError::InvalidPresenceFlag)
            }
        },
        TypeInfo::StructStart => match decode_struct(type_info, index + 1, TypeInfo::StructEnd, encoded, pos, depth - 1) {
            Ok((fields, c, p)) => {
                let mut items = single(Item::Open);
                let mut fields = fields;
                let ghost tail = fields@;
                items.append(&mut fields);
                assert(items@ =~= seq![Item::Open] + tail);
                Ok((items, c + 1, p))
            },
            Err(e) => Err(e),
        },
        TypeInfo::RefType(q) => {
            if q >= type_info.len() {
                Err(DecodeError::BackReferenceOutOfRange)
            } else if type_info[q] != TypeInfo::StructStart {
                Err(DecodeError::BackReferenceTargetInvalid)
            } else {
                match decode_type_info(type_info, q, encoded, pos, depth) {
                    Ok((items, _c, p)) => Ok((items, 1, p)),
                    Err(e) => Err(e),
                }
            }
        },
        TypeInfo::List => match read_compact_u32(encoded, pos) {
            Some((n, rest)) => match skip_type(type_info, index + 1) {
                Ok(f) => match decode_list(type_info, index + 1, encoded, len - rest, depth - 1, n) {
                    Ok((elements, p)) => {
                        let mut items = single(Item::Len(n));
                        let mut elements = elements;
                        let ghost tail = elements@;
                        items.append(&mut elements);
                        assert(items@ =~= seq![Item::Len(n)] + tail);
                        Ok((items, f + 1, p))
                    },
                    Err(e) => Err(e),
                },
                Err(e) => Err(e),
            },
            None => if pos < len && encoded[pos] % 4 == 3 && encoded[pos] / 4 != 0 {
                Err(DecodeError::InvalidLengthPrefix)
            } else {
                Err(DecodeError::BufferUnderrun)
            },
        },
        TypeInfo::Enum => {
            if pos >= len {
                return Err(DecodeError::BufferUnderrun);
            }
            let k = encoded[pos];
            match skip_variants(type_info, index + 1) {
                Ok(f) => match decode_variant(type_info, index + 1, k, encoded, pos + 1, depth - 1) {
                    Ok((fields, p)) => {
                        let mut items = single(Item::Variant(k));
                        let mut fields = fields;
                        let ghost tail = fields@;
                        items.append(&mut fields);
                        assert(items@ =~= seq![Item::Variant(k)] + tail);
                        Ok((items, f + 1, p))
                    },
                    Err(e) => Err(e),
                },
                Err(e) => Err(e),
            }
        },
        TypeInfo::StructEnd | TypeInfo::EnumVariantStart | TypeInfo::EnumVariantEnd
        | TypeInfo::EnumVariantUnit => Err(DecodeError::MalformedSequence),
    }
}

/// Decodes variant number `k` of the variants that start at `index`, stepping
/// over the variants before it without reading bytes. Gives the tokens of its
/// fields, if it has any, and the position of the next unread byte.
pub fn decode_variant(type_info: &[TypeInfo], index: usize, k: u8, encoded: &[u8], pos: usize, depth: usize)
    -> (r: Result<(Vec<Item>, usize), DecodeError>)
    requires
        pos <= encoded@.len(),
    ensures
        (match r {
            Ok((v, p)) => Ok((v@, p as int)),
            Err(e) => Err(e),
        }) == variant_decoded(type_info@, index as int, k as nat, encoded@, pos as int, depth as nat),
        r matches Ok((_v, p)) ==> pos <= p <= encoded@.len(),
    decreases depth, 4int, type_info@.len() - index,
{
    let mut j: usize = index;
    let mut left: u8 = k;
    loop
        invariant
            index <= j,
            pos <= encoded@.len(),
            variant_decoded(type_info@, index as int, k as nat, encoded@, pos as int, depth as nat)
                == variant_decoded(type_info@, j as int, left as nat, encoded@, pos as int, depth as nat),
        decreases type_info@.len() - j,
    {
        if j >= type_info.len() {
            return Err(DecodeError::InvalidDiscriminant);
        }
        let tag = type_info[j];
        if tag != TypeInfo::EnumVariantUnit && tag != TypeInfo::EnumVariantStart {
            return Err(DecodeError::InvalidDiscriminant);
        }
        if left == 0 {
            if tag == TypeInfo::EnumVariantUnit {
                return Ok((Vec::new(), pos));
            }
            return match decode_struct(type_info, j + 1, TypeInfo::EnumVariantEnd, encoded, pos, depth) {
                Ok((fields, _c, p)) => {
                    let mut items = single(Item::Open);
                    let mut fields = fields;
                    let ghost tail = fields@;
                    items.append(&mut fields);
                    assert(items@ =~= seq![Item::Open] + tail);
                    Ok((items, p))
                },
                Err(e) => Err(e),
            };
        }
        if tag == TypeInfo::EnumVariantUnit {
            j = j + 1;
        } else {
            match skip_fields(type_info, j + 1, TypeInfo::EnumVariantEnd) {
                Ok(f) => {
                    j = j + 1 + f;
                },
                Err(e) => {
                    return Err(e);
                },
            }
        }
        left = left - 1;
    }
}

/// Decodes `n` elements in a row from byte `pos`, each described by the tag run
/// at `index`, with `depth` levels of nesting left. Gives the tokens and the
/// position of the next unread byte.
pub fn decode_list(type_info: &[TypeInfo], index: usize, encoded: &[u8], pos: usize, depth: usize, n: u32)
    -> (r: Result<(Vec<Item>, usize), DecodeError>)
    requires
        pos <= encoded@.len(),
    ensures
        (match r {
            Ok((v, p)) => Ok((v@, p as int)),
            Err(e) => Err(e),
        }) == decode_elements(type_info@, index as int, encoded@, pos as int, depth as nat, n as nat),
        r matches Ok((_v, p)) ==> pos <= p <= encoded@.len(),
    decreases depth, 3int, n,
{
    let mut items: Vec<Item> = Vec::new();
    let mut k: u32 = 0;
    let mut p: usize = pos;
    while k < n
        invariant
            k <= n,
            pos <= p <= encoded@.len(),
            decode_elements(type_info@, index as int, encoded@, pos as int, depth as nat, n as nat) == (
                match decode_elements(type_info@, index as int, encoded@, p as int, depth as nat, (n - k) as nat) {
                    Ok((rest, p2)) => Ok((items@ + rest, p2)),
                    Err(e) => Err(e),
                }),
        decreases n - k,
    {
        match decode_type_info(type_info, index, encoded, p, depth) {
            Ok((element, _c, next)) => {
                let ghost before = items@;
                let ghost tail = decode_elements(type_info@, index as int, encoded@, next as int, depth as nat, (n - k - 1) as nat);
                let mut element = element;
                proof {
                    if let Ok((rest, _p2)) = tail {
                        assert(before + (element@ + rest) =~= (before + element@) + rest);
                    }
                }
                items.append(&mut element);
                p = next;
                k = k + 1;
            },
            Err(e) => {
                return Err(e);
            },
        }
    }
    assert(items@ + Seq::<Item>::empty() =~= items@);
    Ok((items, p))
}

/// Decodes the fields of a composite, or of an enum variant, from the one at
/// `index` through the `end` tag that closes them, with `depth` levels of
/// nesting left. The count of entries includes the `end` tag.
pub fn decode_struct(type_info: &[TypeInfo], index: usize, end: TypeInfo, encoded: &[u8], pos: usize, depth: usize)
    -> (r: Result<(Vec<Item>, usize, usize), DecodeError>)
    requires
        pos <= encoded@.len(),
    ensures
        view_decoded(r) == decode_fields(type_info@, index as int, end, encoded@, pos as int, depth as nat),
        r matches Ok((_v, c, p)) ==> 1 <= c <= type_info@.len() - index && pos <= p <= encoded@.len(),
    decreases depth, 2int, type_info@.len() - index,
{
    if index >= type_info.len() {
        return Err(DecodeError::MalformedSequence);
    }
    let mut items: Vec<Item> = Vec::new();
    let mut j: usize = index;
    let mut p: usize = pos;
    loop
        invariant
            index <= j <= type_info@.len(),
            pos <= p <= encoded@.len(),
            decode_fields(type_info@, index as int, end, encoded@, pos as int, depth as nat) == (
                match decode_fields(type_info@, j as int, end, encoded@, p as int, depth as nat) {
                    Ok((rest, c2, p2)) => Ok((items@ + rest, (j - index) + c2, p2)),
                    Err(e) => Err(e),
                }),
        decreases type_info@.len() - j,
    {
        if j >= type_info.len() {
            return Err(DecodeError::MalformedSequence);
        }
        if type_info[j] == end {
            let ghost before = items@;
            items.push(Item::Close);
            assert(items@ =~= before + seq![Item::Close]);
            return Ok((items, j - index + 1, p));
        }
        match decode_type_info(type_info, j, encoded, p, depth) {
            Ok((field, c, next)) => {
                let ghost before = items@;
                let ghost tail = decode_fields(type_info@, (j + c) as int, end, encoded@, next as int, depth as nat);
                let mut field = field;
                proof {
                    if let Ok((rest, _c2, _p2)) = tail {
                        assert(before + (field@ + rest) =~= (before + field@) + rest);
                    }
                }
                items.append(&mut field);
                j = j + c;
                p = next;
            },
            Err(e) => {
                return Err(e);
            },
        }
    }
}

/// Decodes the value that `encoded` holds, of the type that the whole of
/// `type_info` describes, with at most `MAX_DEPTH` levels of nesting. Entries
/// left over after the first run make the sequence malformed; bytes left over
/// are not read.
pub fn decode(type_info: &[TypeInfo], encoded: &[u8]) -> (r: Result<(Vec<Item>, usize), DecodeError>)
    ensures
        r matches Ok((v, p)) ==> decode_all(type_info@, encoded@) == Ok::<(Seq<Item>, int), DecodeError>((v@, p as int)),
        r matches Err(e) ==> decode_all(type_info@, encoded@) == Err::<(Seq<Item>, int), DecodeError>(e),
{
    match decode_type_info(type_info, 0, encoded, 0, MAX_DEPTH) {
        Ok((items, c, p)) => if c == type_info.len() {
            Ok((items, p))
        } else {
            Err(DecodeError::MalformedSequence)
        },
        Err(e) => Err(e),
    }
}

} // verus!
