use vstd::prelude::*;
use std::any::TypeId;
use crate::type_info::{TypeInfo, refs_backward};

verus! {

#[verifier::external_type_specification]
#[verifier::external_body]
pub struct ExTypeId(std::any::TypeId);

/// Relies on `TypeId`'s `==`: two identifiers are equal exactly when they are
/// the same value.
#[verifier::external_body]
fn same_type(a: &TypeId, b: &TypeId) -> (r: bool)
    ensures
        r == (*a == *b),
{
    *a == *b
}

/// `later` keeps `earlier` as its beginning and has at least one entry more.
pub open spec fn extends(earlier: Seq<TypeInfo>, later: Seq<TypeInfo>) -> bool {
    &&& later.len() > earlier.len()
    &&& later.subrange(0, earlier.len() as int) == earlier
}

/// Each back-reference among the entries of `infos` from `from` on points no
/// further than its own position, and at one of the composites in `parents` or
/// at an entry from `from` on.
pub open spec fn refs_to_ancestors(infos: Seq<TypeInfo>, from: int, parents: Seq<(TypeId, usize)>) -> bool {
    forall|k: int|
        #![trigger infos[k]]
        from <= k < infos.len() && infos[k] is RefType ==> {
            &&& infos[k]->RefType_0 <= k
            &&& {
                ||| infos[k]->RefType_0 >= from
                ||| exists|j: int| 0 <= j < parents.len() && parents[j].1 == infos[k]->RefType_0
            }
        }
}

/// Every composite in `parents` starts no later than the end of `infos`.
pub open spec fn parents_within(parents: Seq<(TypeId, usize)>, infos: Seq<TypeInfo>) -> bool {
    forall|j: int| 0 <= j < parents.len() ==> #[trigger] parents[j].1 <= infos.len()
}

/// The first position, from `k` on, at which `parents` holds the composite `key`.
pub open spec fn first_parent(parents: Seq<(TypeId, usize)>, key: TypeId, k: int) -> Option<int>
    decreases parents.len() - k,
{
    if k < 0 || k >= parents.len() {
        None
    } else if parents[k].0 == key {
        Some(k)
    } else {
        first_parent(parents, key, k + 1)
    }
}

/// The entries that describing `T` appends when `infos` holds `at` entries and
/// `parents` the composites being described. A type without a key is described
/// in place. A composite already in `parents` gives one back-reference to the
/// first entry for it; any other composite is described in full, with itself
/// pushed onto `parents` at `at`.
pub open spec fn appended<T: Reflection + ?Sized>(parents: Seq<(TypeId, usize)>, at: int) -> Seq<TypeInfo> {
    match T::key() {
        None => T::described(parents, at),
        Some(key) => match first_parent(parents, key, 0) {
            Some(k) => seq![TypeInfo::RefType(parents[k].1)],
            None => T::described(parents.push((key, at as usize)), at),
        },
    }
}

/// A type that can describe its own shape as a type-info sequence.
pub trait Reflection: 'static {
    /// The identity of a composite, by which a recursive occurrence of it is
    /// recognised; `None` for a type that is never revisited by reference.
    /// Every impl of this crate defines it; the default only lets an impl
    /// written outside verified code leave it out.
    open spec fn key() -> Option<TypeId> {
        None
    }

    /// The entries that `get_type_info_into_impl` appends when `infos` holds
    /// `at` entries and `parents` the composites being described. Every impl
    /// of this crate defines it, as for `key`.
    open spec fn described(parents: Seq<(TypeId, usize)>, at: int) -> Seq<TypeInfo> {
        Seq::empty()
    }

    /// The identity of `Self` for the cycle check: `Some(TypeId::of::<Self>())`
    /// for a composite, `None` for a type that is described in place.
    fn type_key() -> (r: Option<TypeId>)
        ensures
            r == Self::key(),
    ;

    /// The sequence that describes `Self`, recursive parts folded into back-references.
    fn get_type_info() -> (r: Vec<TypeInfo>)
        ensures
            r@ == (match Self::key() {
                None => Self::described(seq![], 0),
                Some(key) => Self::described(seq![(key, 0usize)], 0),
            }),
            refs_backward(r@),
    {
        let mut infos: Vec<TypeInfo> = Vec::new();
        let mut parents: Vec<(TypeId, usize)> = Vec::new();
        Self::get_type_info_into(&mut infos, &mut parents);
        proof {
            if let Some(key) = Self::key() {
                assert(Seq::<(TypeId, usize)>::empty().push((key, 0usize)) =~= seq![(key, 0usize)]);
            }
            assert(infos@ =~= Seq::<TypeInfo>::empty() + (infos@));
        }
        infos
    }

    /// Appends the description of `Self` to `infos`. `parents` holds the
    /// composites being described, each with the position of its `StructStart`:
    /// where `Self` is one of them, a back-reference to it is appended instead.
    fn get_type_info_into(infos: &mut Vec<TypeInfo>, parents: &mut Vec<(TypeId, usize)>)
        requires
            parents_within(old(parents)@, old(infos)@),
        ensures
            final(parents)@ == old(parents)@,
            final(infos)@ == old(infos)@ + (match Self::key() {
                None => Self::described(old(parents)@, old(infos)@.len() as int),
                Some(key) => match first_parent(old(parents)@, key, 0) {
                    Some(k) => seq![TypeInfo::RefType(old(parents)@[k].1)],
                    None => Self::described(old(parents)@.push((key, old(infos)@.len() as usize)), old(infos)@.len() as int),
                },
            }),
            extends(old(infos)@, final(infos)@),
            refs_to_ancestors(final(infos)@, old(infos)@.len() as int, old(parents)@),
    {
        let key = match Self::type_key() {
            Some(key) => key,
            None => {
                Self::get_type_info_into_impl(infos, parents);
                return;
            },
        };
        let mut k: usize = 0;
        while k < parents.len()
            invariant
                k <= parents@.len(),
                infos@ == old(infos)@,
                parents@ == old(parents)@,
                parents_within(old(parents)@, old(infos)@),
                first_parent(parents@, key, 0) == first_parent(parents@, key, k as int),
                Self::key() == Some(key),
            decreases parents@.len() - k,
        {
            if same_type(&parents[k].0, &key) {
                let at = parents[k].1;
                assert(first_parent(parents@, key, k as int) == Some(k as int));
                assert(old(parents)@[k as int].1 <= old(infos)@.len());
                infos.push(TypeInfo::RefType(at));
                assert(infos@[old(infos)@.len() as int] == TypeInfo::RefType(at));
                assert(infos@.subrange(0, old(infos)@.len() as int) =~= old(infos)@);
                assert(infos@ =~= old(infos)@ + seq![TypeInfo::RefType(at)]);
                return;
            }
            k = k + 1;
        }
        assert(first_parent(parents@, key, k as int) == None::<int>);
        let at = infos.len();
        parents.push((key, at));
        assert(parents_within(parents@, infos@));
        Self::get_type_info_into_impl(infos, parents);
        parents.pop();
        assert(parents@ =~= old(parents)@);
    }

    /// Appends the description of `Self` itself, with no check against `parents`.
    fn get_type_info_into_impl(infos: &mut Vec<TypeInfo>, parents: &mut Vec<(TypeId, usize)>)
        requires
            parents_within(old(parents)@, old(infos)@),
        ensures
            final(parents)@ == old(parents)@,
            final(infos)@ == old(infos)@ + Self::described(old(parents)@, old(infos)@.len() as int),
            extends(old(infos)@, final(infos)@),
            refs_to_ancestors(final(infos)@, old(infos)@.len() as int, old(parents)@),
    ;
}

// The types below are described in place: they never enter `parents`, so a
// back-reference always points at a composite's `StructStart`.

impl Reflection for u8 {
    open spec fn key() -> Option<TypeId> {
        None
    }

    open spec fn described(parents: Seq<(TypeId, usize)>, at: int) -> Seq<TypeInfo> {
        seq![TypeInfo::U8]
    }

    fn type_key() -> (r: Option<TypeId>) {
        None
    }

    fn get_type_info_into_impl(infos: &mut Vec<TypeInfo>, parents: &mut Vec<(TypeId, usize)>) {
        infos.push(TypeInfo::U8);
        assert(infos@ =~= old(infos)@ + seq![TypeInfo::U8]);
        assert(infos@.subrange(0, old(infos)@.len() as int) =~= old(infos)@);
    }
}

impl Reflection for i8 {
    open spec fn key() -> Option<TypeId> {
        None
    }

    open spec fn described(parents: Seq<(TypeId, usize)>, at: int) -> Seq<TypeInfo> {
        seq![TypeInfo::I8]
    }

    fn type_key() -> (r: Option<TypeId>) {
        None
    }

    fn get_type_info_into_impl(infos: &mut Vec<TypeInfo>, parents: &mut Vec<(TypeId, usize)>) {
        infos.push(TypeInfo::I8);
        assert(infos@ =~= old(infos)@ + seq![TypeInfo::I8]);
        assert(infos@.subrange(0, old(infos)@.len() as int) =~= old(infos)@);
    }
}

impl Reflection for u32 {
    open spec fn key() -> Option<TypeId> {
        None
    }

    open spec fn described(parents: Seq<(TypeId, usize)>, at: int) -> Seq<TypeInfo> {
        seq![TypeInfo::U32]
    }

    fn type_key() -> (r: Option<TypeId>) {
        None
    }

    fn get_type_info_into_impl(infos: &mut Vec<TypeInfo>, parents: &mut Vec<(TypeId, usize)>) {
        infos.push(TypeInfo::U32);
        assert(infos@ =~= old(infos)@ + seq![TypeInfo::U32]);
        assert(infos@.subrange(0, old(infos)@.len() as int) =~= old(infos)@);
    }
}

impl Reflection for () {
    open spec fn key() -> Option<TypeId> {
        None
    }

    open spec fn described(parents: Seq<(TypeId, usize)>, at: int) -> Seq<TypeInfo> {
        seq![TypeInfo::Void]
    }

    fn type_key() -> (r: Option<TypeId>) {
        None
    }

    fn get_type_info_into_impl(infos: &mut Vec<TypeInfo>, parents: &mut Vec<(TypeId, usize)>) {
        infos.push(TypeInfo::Void);
        assert(infos@ =~= old(infos)@ + seq![TypeInfo::Void]);
        assert(infos@.subrange(0, old(infos)@.len() as int) =~= old(infos)@);
    }
}

impl<T: Reflection> Reflection for Option<T> {
    open spec fn key() -> Option<TypeId> {
        None
    }

    open spec fn described(parents: Seq<(TypeId, usize)>, at: int) -> Seq<TypeInfo> {
        seq![TypeInfo::Optional] + appended::<T>(parents, at + 1)
    }

    fn type_key() -> (r: Option<TypeId>) {
        None
    }

    fn get_type_info_into_impl(infos: &mut Vec<TypeInfo>, parents: &mut Vec<(TypeId, usize)>) {
        infos.push(TypeInfo::Optional);
        let ghost mid = infos@;
        T::get_type_info_into(infos, parents);
        assert(infos@ =~= old(infos)@ + (seq![TypeInfo::Optional] + appended::<T>(old(parents)@, old(infos)@.len() + 1int)));
        assert(infos@.subrange(0, old(infos)@.len() as int) =~= mid.subrange(0, old(infos)@.len() as int));
        assert(infos@.subrange(0, old(infos)@.len() as int) =~= old(infos)@);
        assert(infos@.subrange(0, mid.len() as int)[old(infos)@.len() as int] == infos@[old(infos)@.len() as int]);
    }
}

impl<T: Reflection> Reflection for Vec<T> {
    open spec fn key() -> Option<TypeId> {
        None
    }

    open spec fn described(parents: Seq<(TypeId, usize)>, at: int) -> Seq<TypeInfo> {
        seq![TypeInfo::List] + appended::<T>(parents, at + 1)
    }

    fn type_key() -> (r: Option<TypeId>) {
        None
    }

    fn get_type_info_into_impl(infos: &mut Vec<TypeInfo>, parents: &mut Vec<(TypeId, usize)>) {
        infos.push(TypeInfo::List);
        let ghost mid = infos@;
        T::get_type_info_into(infos, parents);
        assert(infos@ =~= old(infos)@ + (seq![TypeInfo::List] + appended::<T>(old(parents)@, old(infos)@.len() + 1int)));
        assert(infos@.subrange(0, old(infos)@.len() as int) =~= mid.subrange(0, old(infos)@.len() as int));
        assert(infos@.subrange(0, old(infos)@.len() as int) =~= old(infos)@);
        assert(infos@.subrange(0, mid.len() as int)[old(infos)@.len() as int] == infos@[old(infos)@.len() as int]);
    }
}

/// An owning pointer adds no entry of its own: it is described as what it holds.
impl<T: Reflection> Reflection for Box<T> {
    open spec fn key() -> Option<TypeId> {
        None
    }

    open spec fn described(parents: Seq<(TypeId, usize)>, at: int) -> Seq<TypeInfo> {
        appended::<T>(parents, at)
    }

    fn type_key() -> (r: Option<TypeId>) {
        None
    }

    fn get_type_info_into_impl(infos: &mut Vec<TypeInfo>, parents: &mut Vec<(TypeId, usize)>) {
        T::get_type_info_into(infos, parents);
    }
}

} // verus!
