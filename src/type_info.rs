use vstd::prelude::*;

verus! {

/// One entry of a type-info sequence: the linear description of a type's shape.
#[derive(Debug, PartialEq, Eq, Clone, Copy, Structural)]
pub enum TypeInfo {
    U8,
    I8,
    U32,
    /// Opens the field list of a composite; the fields follow in declaration order.
    StructStart,
    /// Closes the field list opened by the matching `StructStart`.
    StructEnd,
    /// The next entry describes the wrapped type; a presence byte precedes the payload.
    Optional,
    Enum,
    EnumVariantStart,
    EnumVariantEnd,
    /// A variant without any fields.
    EnumVariantUnit,
    /// The next entry describes the element type; a length prefix precedes the elements.
    List,
    /// A zero-sized value.
    Void,
    /// Revisits the composite whose `StructStart` stands at this position of the
    /// sequence, instead of describing it again.
    RefType(usize),
}

/// No back-reference of `ti` points past its own position.
pub open spec fn refs_backward(ti: Seq<TypeInfo>) -> bool {
    forall|k: int| 0 <= k < ti.len() && #[trigger] ti[k] is RefType ==> ti[k]->RefType_0 <= k
}

} // verus!
