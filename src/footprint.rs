use vstd::prelude::*;
use crate::type_info::TypeInfo;

verus! {

/// Why a decode failed.
#[derive(Debug, PartialEq, Eq, Clone, Copy, Structural)]
pub enum DecodeError {
    /// The bytes ran out before a required read.
    BufferUnderrun,
    /// A back-reference whose index lies outside the sequence.
    BackReferenceOutOfRange,
    /// A back-reference that does not point at a `StructStart`.
    BackReferenceTargetInvalid,
    /// The sequence ends inside a run, holds a closing or variant tag where none
    /// may stand, or holds entries past the run of the type it describes.
    MalformedSequence,
    /// Nesting went deeper than the decoder's limit.
    DepthLimitExceeded,
    /// A list's length prefix that does not fit in 32 bits.
    InvalidLengthPrefix,
    /// An enum's discriminant with no variant of that number.
    InvalidDiscriminant,
    /// An optional's presence byte that is neither 0 nor 1.
    InvalidPresenceFlag,
}

/// Number of sequence entries that the tag run starting at `i` occupies.
pub open spec fn footprint(ti: Seq<TypeInfo>, i: int) -> Result<int, DecodeError>
    decreases ti.len() - i, 0int,
{
    if i < 0 || i >= ti.len() {
        Err(DecodeError::MalformedSequence)
    } else {
        match ti[i] {
            TypeInfo::U8 | TypeInfo::I8 | TypeInfo::U32 | TypeInfo::Void | TypeInfo::RefType(_) => Ok(1),
            TypeInfo::Optional | TypeInfo::List => match footprint(ti, i + 1) {
                Ok(n) => Ok(n + 1),
                Err(e) => Err(e),
            },
            TypeInfo::StructStart => match fields_footprint(ti, i + 1, TypeInfo::StructEnd) {
                Ok(n) => Ok(n + 1),
                Err(e) => Err(e),
            },
            TypeInfo::Enum => match variants_footprint(ti, i + 1) {
                Ok(n) => Ok(n + 1),
                Err(e) => Err(e),
            },
            TypeInfo::StructEnd | TypeInfo::EnumVariantStart | TypeInfo::EnumVariantEnd
            | TypeInfo::EnumVariantUnit => Err(DecodeError::MalformedSequence),
        }
    }
}

/// Number of sequence entries that the variants of an enum occupy, from the one
/// at `j`: the run of `EnumVariantUnit` entries and of `EnumVariantStart` ..
/// `EnumVariantEnd` brackets that starts there.
pub open spec fn variants_footprint(ti: Seq<TypeInfo>, j: int) -> Result<int, DecodeError>
    decreases ti.len() - j, 2int,
{
    if j < 0 || j >= ti.len() {
        Ok(0)
    } else {
        match ti[j] {
            TypeInfo::EnumVariantUnit => match variants_footprint(ti, j + 1) {
                Ok(m) => Ok(m + 1),
                Err(e) => Err(e),
            },
            TypeInfo::EnumVariantStart => match fields_footprint(ti, j + 1, TypeInfo::EnumVariantEnd) {
                Ok(f) => if 1 <= f <= ti.len() - j - 1 {
                    match variants_footprint(ti, j + 1 + f) {
                        Ok(m) => Ok(1 + f + m),
                        Err(e) => Err(e),
                    }
                } else {
                    Err(DecodeError::MalformedSequence)
                },
                Err(e) => Err(e),
            },
            _ => Ok(0),
        }
    }
}

/// Number of sequence entries from the field at `j` of a composite, or of an
/// enum variant, up to and including the `end` tag that closes it.
pub open spec fn fields_footprint(ti: Seq<TypeInfo>, j: int, end: TypeInfo) -> Result<int, DecodeError>
    decreases ti.len() - j, 1int,
{
    if j < 0 || j >= ti.len() {
        Err(DecodeError::MalformedSequence)
    } else if ti[j] == end {
        Ok(1)
    } else {
        match footprint(ti, j) {
            Ok(n) => if 1 <= n <= ti.len() - j {
                match fields_footprint(ti, j + n, end) {
                    Ok(m) => Ok(n + m),
                    Err(e) => Err(e),
                }
            } else {
                Err(DecodeError::MalformedSequence)
            },
            Err(e) => Err(e),
        }
    }
}

/// Computes the footprint of the tag run at `index`: how far a decoder moves
/// along the sequence when it steps over that run without reading bytes.
pub fn skip_type(type_info: &[TypeInfo], index: usize) -> (r: Result<usize, DecodeError>)
    ensures
        r matches Ok(n) ==> footprint(type_info@, index as int) == Ok::<int, DecodeError>(n as int),
        r matches Err(e) ==> footprint(type_info@, index as int) == Err::<int, DecodeError>(e),
        r matches Ok(n) ==> 1 <= n <= type_info@.len() - index,
    decreases type_info@.len() - index, 0int,
{
    if index >= type_info.len() {
        return Err(DecodeError::MalformedSequence);
    }
    match type_info[index] {
        TypeInfo::U8 | TypeInfo::I8 | TypeInfo::U32 | TypeInfo::Void | TypeInfo::RefType(_) => Ok(1),
        TypeInfo::Optional | TypeInfo::List => match skip_type(type_info, index + 1) {
            Ok(n) => Ok(n + 1),
            Err(e) => Err(e),
        },
        TypeInfo::StructStart => match skip_fields(type_info, index + 1, TypeInfo::StructEnd) {
            Ok(n) => Ok(n + 1),
            Err(e) => Err(e),
        },
        TypeInfo::Enum => match skip_variants(type_info, index + 1) {
            Ok(n) => Ok(n + 1),
            Err(e) => Err(e),
        },
        TypeInfo::StructEnd | TypeInfo::EnumVariantStart | TypeInfo::EnumVariantEnd
        | TypeInfo::EnumVariantUnit => Err(DecodeError::MalformedSequence),
    }
}

/// Computes the footprint of the variants of an enum, from the one at `index`.
pub(crate) fn skip_variants(type_info: &[TypeInfo], index: usize) -> (r: Result<usize, DecodeError>)
    ensures
        r matches Ok(n) ==> variants_footprint(type_info@, index as int) == Ok::<int, DecodeError>(n as int),
        r matches Err(e) ==> variants_footprint(type_info@, index as int) == Err::<int, DecodeError>(e),
        r matches Ok(n) ==> index + n <= type_info@.len() || (index >= type_info@.len() && n == 0),
    decreases type_info@.len() - index, 2int,
{
    let mut j: usize = index;
    let mut total: usize = 0;
    loop
        invariant
            index <= j,
            total == j - index,
            j <= type_info@.len() || (index >= type_info@.len() && j == index),
            variants_footprint(type_info@, index as int) == (match variants_footprint(type_info@, j as int) {
                Ok(m) => Ok(total + m),
                Err(e) => Err(e),
            }),
        decreases type_info@.len() - j,
    {
        if j >= type_info.len() {
            return Ok(total);
        }
        match type_info[j] {
            TypeInfo::EnumVariantUnit => {
                j = j + 1;
                total = total + 1;
            },
            TypeInfo::EnumVariantStart => match skip_fields(type_info, j + 1, TypeInfo::EnumVariantEnd) {
                Ok(f) => {
                    j = j + 1 + f;
                    total = total + 1 + f;
                },
                Err(e) => {
                    return Err(e);
                },
            },
            _ => {
                return Ok(total);
            },
        }
    }
}

/// Computes the footprint of the fields from `index` through the closing `end`.
pub(crate) fn skip_fields(type_info: &[TypeInfo], index: usize, end: TypeInfo) -> (r: Result<usize, DecodeError>)
    ensures
        r matches Ok(n) ==> fields_footprint(type_info@, index as int, end) == Ok::<int, DecodeError>(n as int),
        r matches Err(e) ==> fields_footprint(type_info@, index as int, end) == Err::<int, DecodeError>(e),
        r matches Ok(n) ==> 1 <= n <= type_info@.len() - index,
    decreases type_info@.len() - index, 1int,
{
    let mut j: usize = index;
    let mut total: usize = 0;
    // the fields already stepped over, from index up to j
    loop
        invariant
            index <= j,
            total == j - index,
            j <= type_info@.len() || index >= type_info@.len(),
            fields_footprint(type_info@, index as int, end) == (match fields_footprint(type_info@, j as int, end) {
                Ok(m) => Ok(total + m),
                Err(e) => Err(e),
            }),
        decreases type_info@.len() - j,
    {
        if j >= type_info.len() {
            return Err(DecodeError::MalformedSequence);
        }
        if type_info[j] == end {
            return Ok(total + 1);
        }
        match skip_type(type_info, j) {
            Ok(n) => {
                j = j + n;
                total = total + n;
            },
            Err(e) => {
                return Err(e);
            },
        }
    }
}

} // verus!
