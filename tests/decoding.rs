use parity_codec::{Encode, Output};
use reflection::{decode, decode_type_info, DecodeError, Item, Reflection, TypeInfo};
use std::any::TypeId;

struct Node<T> {
    data: T,
    next: Option<Box<Node<T>>>,
}

impl<T: Reflection> Reflection for Node<T> {
    fn type_key() -> Option<TypeId> {
        Some(TypeId::of::<Self>())
    }

    fn get_type_info_into_impl(infos: &mut Vec<TypeInfo>, parents: &mut Vec<(TypeId, usize)>) {
        infos.push(TypeInfo::StructStart);
        T::get_type_info_into(infos, parents);
        Option::<Box<Self>>::get_type_info_into(infos, parents);
        infos.push(TypeInfo::StructEnd);
    }
}

impl<T: Encode> Encode for Node<T> {
    fn encode_to<W: Output>(&self, dest: &mut W) {
        self.data.encode_to(dest);
        self.next.encode_to(dest);
    }
}

struct A(Option<Box<B>>);

impl Reflection for A {
    fn type_key() -> Option<TypeId> {
        Some(TypeId::of::<Self>())
    }

    fn get_type_info_into_impl(infos: &mut Vec<TypeInfo>, parents: &mut Vec<(TypeId, usize)>) {
        infos.push(TypeInfo::StructStart);
        Option::<Box<B>>::get_type_info_into(infos, parents);
        infos.push(TypeInfo::StructEnd);
    }
}

impl Encode for A {
    fn encode_to<W: Output>(&self, dest: &mut W) {
        self.0.encode_to(dest);
    }
}

struct B(A, Option<Box<B>>);

impl Reflection for B {
    fn type_key() -> Option<TypeId> {
        Some(TypeId::of::<Self>())
    }

    fn get_type_info_into_impl(infos: &mut Vec<TypeInfo>, parents: &mut Vec<(TypeId, usize)>) {
        infos.push(TypeInfo::StructStart);
        A::get_type_info_into(infos, parents);
        Option::<Box<B>>::get_type_info_into(infos, parents);
        infos.push(TypeInfo::StructEnd);
    }
}

impl Encode for B {
    fn encode_to<W: Output>(&self, dest: &mut W) {
        self.0.encode_to(dest);
        self.1.encode_to(dest);
    }
}

struct SomeStruct<T> {
    hello: u8,
    data: T,
}

impl<T: Reflection> Reflection for SomeStruct<T> {
    fn type_key() -> Option<TypeId> {
        Some(TypeId::of::<Self>())
    }

    fn get_type_info_into_impl(infos: &mut Vec<TypeInfo>, parents: &mut Vec<(TypeId, usize)>) {
        infos.push(TypeInfo::StructStart);
        u8::get_type_info_into(infos, parents);
        T::get_type_info_into(infos, parents);
        infos.push(TypeInfo::StructEnd);
    }
}

impl<T: Encode> Encode for SomeStruct<T> {
    fn encode_to<W: Output>(&self, dest: &mut W) {
        dest.push_byte(self.hello);
        self.data.encode_to(dest);
    }
}

#[allow(dead_code)]
enum SomeEnum {
    Var0,
    Var1 { data: u32, data2: i8 },
    Var2(SomeStruct<u32>),
}

impl Reflection for SomeEnum {
    fn type_key() -> Option<TypeId> {
        Some(TypeId::of::<Self>())
    }

    fn get_type_info_into_impl(infos: &mut Vec<TypeInfo>, parents: &mut Vec<(TypeId, usize)>) {
        infos.push(TypeInfo::Enum);
        infos.push(TypeInfo::EnumVariantUnit);
        infos.push(TypeInfo::EnumVariantStart);
        u32::get_type_info_into(infos, parents);
        i8::get_type_info_into(infos, parents);
        infos.push(TypeInfo::EnumVariantEnd);
        infos.push(TypeInfo::EnumVariantStart);
        SomeStruct::<u32>::get_type_info_into(infos, parents);
        infos.push(TypeInfo::EnumVariantEnd);
    }
}

struct Pair {
    first: Node<i8>,
    second: Node<i8>,
}

impl Reflection for Pair {
    fn type_key() -> Option<TypeId> {
        Some(TypeId::of::<Self>())
    }

    fn get_type_info_into_impl(infos: &mut Vec<TypeInfo>, parents: &mut Vec<(TypeId, usize)>) {
        infos.push(TypeInfo::StructStart);
        Node::<i8>::get_type_info_into(infos, parents);
        Node::<i8>::get_type_info_into(infos, parents);
        infos.push(TypeInfo::StructEnd);
    }
}

impl Encode for Pair {
    fn encode_to<W: Output>(&self, dest: &mut W) {
        self.first.encode_to(dest);
        self.second.encode_to(dest);
    }
}

/// The tokens that a decode of `node` is expected to give.
fn node_items(node: &Node<u32>, out: &mut Vec<Item>) {
    out.push(Item::Open);
    out.push(Item::U32(node.data));
    match &node.next {
        Some(next) => {
            out.push(Item::Present);
            node_items(next, out);
        }
        None => out.push(Item::Absent),
    }
    out.push(Item::Close);
}

fn chain(values: &[u32]) -> Option<Box<Node<u32>>> {
    let mut next = None;
    for v in values.iter().rev() {
        next = Some(Box::new(Node { data: *v, next }));
    }
    next
}

/// A human-readable rendering of decoded tokens, with the field names of `Node`.
fn render_node(items: &[Item], at: &mut usize) -> String {
    assert_eq!(items[*at], Item::Open);
    *at += 1;
    let data = match items[*at] {
        Item::U32(x) => x,
        ref other => panic!("unexpected token {:?}", other),
    };
    *at += 1;
    let next = match items[*at] {
        Item::Present => {
            *at += 1;
            format!("Some({})", render_node(items, at))
        }
        Item::Absent => {
            *at += 1;
            "None".to_string()
        }
        ref other => panic!("unexpected token {:?}", other),
    };
    assert_eq!(items[*at], Item::Close);
    *at += 1;
    format!("data:{},next:{}", data, next)
}

#[test]
fn list_of_three_nodes() {
    let list = chain(&[1, 2, 3]).unwrap();
    let infos = Node::<u32>::get_type_info();
    assert_eq!(
        infos,
        vec![
            TypeInfo::StructStart,
            TypeInfo::U32,
            TypeInfo::Optional,
            TypeInfo::RefType(0),
            TypeInfo::StructEnd
        ]
    );
    let encoded = list.encode();
    assert_eq!(encoded, vec![1, 0, 0, 0, 1, 2, 0, 0, 0, 1, 3, 0, 0, 0, 0]);
    let items = decode(&infos, &encoded).unwrap().0;
    let mut at = 0;
    assert_eq!(
        render_node(&items, &mut at),
        "data:1,next:Some(data:2,next:Some(data:3,next:None))"
    );
    assert_eq!(at, items.len());
}

#[test]
fn chains_round_trip() {
    let infos = Node::<u32>::get_type_info();
    for n in [1usize, 2, 10, 100] {
        let values: Vec<u32> = (0..n as u32).map(|i| i.wrapping_mul(2654435761)).collect();
        let list = chain(&values).unwrap();
        let mut expected = Vec::new();
        node_items(&list, &mut expected);
        assert_eq!(decode(&infos, &list.encode()).unwrap().0, expected);
    }
}

#[test]
fn optional_chain_of_length_zero_and_one() {
    let infos = Option::<Box<Node<u32>>>::get_type_info();
    assert_eq!(
        infos,
        vec![
            TypeInfo::Optional,
            TypeInfo::StructStart,
            TypeInfo::U32,
            TypeInfo::Optional,
            TypeInfo::RefType(1),
            TypeInfo::StructEnd
        ]
    );
    let empty: Option<Box<Node<u32>>> = None;
    assert_eq!(decode(&infos, &empty.encode()).unwrap().0, vec![Item::Absent]);
    let one = chain(&[7]);
    assert_eq!(
        decode(&infos, &one.encode()).unwrap().0,
        vec![Item::Present, Item::Open, Item::U32(7), Item::Absent, Item::Close]
    );
}

#[test]
fn mutual_recursion_uses_back_references() {
    let infos = A::get_type_info();
    assert_eq!(
        infos,
        vec![
            TypeInfo::StructStart,
            TypeInfo::Optional,
            TypeInfo::StructStart,
            TypeInfo::RefType(0),
            TypeInfo::Optional,
            TypeInfo::RefType(2),
            TypeInfo::StructEnd,
            TypeInfo::StructEnd
        ]
    );
    let value = A(Some(Box::new(B(A(None), None))));
    let encoded = value.encode();
    assert_eq!(encoded, vec![1, 0, 0]);
    assert_eq!(
        decode(&infos, &encoded).unwrap().0,
        vec![
            Item::Open,
            Item::Present,
            Item::Open,
            Item::Open,
            Item::Absent,
            Item::Close,
            Item::Absent,
            Item::Close,
            Item::Close
        ]
    );
}

#[test]
fn mutual_recursion_rooted_at_the_second_type() {
    let infos = B::get_type_info();
    assert_eq!(
        infos,
        vec![
            TypeInfo::StructStart,
            TypeInfo::StructStart,
            TypeInfo::Optional,
            TypeInfo::RefType(0),
            TypeInfo::StructEnd,
            TypeInfo::Optional,
            TypeInfo::RefType(0),
            TypeInfo::StructEnd
        ]
    );
    let value = B(
        A(Some(Box::new(B(A(None), None)))),
        Some(Box::new(B(A(None), None))),
    );
    let encoded = value.encode();
    assert_eq!(encoded, vec![1, 0, 0, 1, 0, 0]);
    let inner = vec![Item::Open, Item::Open, Item::Absent, Item::Close, Item::Absent, Item::Close];
    let mut expected = vec![Item::Open, Item::Open, Item::Present];
    expected.extend(inner.iter().cloned());
    expected.push(Item::Close);
    expected.push(Item::Present);
    expected.extend(inner.iter().cloned());
    expected.push(Item::Close);
    assert_eq!(decode(&infos, &encoded).unwrap().0, expected);
}

#[test]
fn back_reference_past_the_end() {
    let infos = vec![TypeInfo::StructStart, TypeInfo::RefType(9), TypeInfo::StructEnd];
    assert_eq!(decode(&infos, &[]), Err(DecodeError::BackReferenceOutOfRange));
}

#[test]
fn back_reference_to_a_primitive() {
    let infos = vec![TypeInfo::StructStart, TypeInfo::U8, TypeInfo::RefType(1), TypeInfo::StructEnd];
    assert_eq!(decode(&infos, &[5]), Err(DecodeError::BackReferenceTargetInvalid));
}

#[test]
fn absent_optional_skips_nested_struct() {
    // an absent optional of a struct holding a struct, then a byte
    let infos = vec![
        TypeInfo::Optional,
        TypeInfo::StructStart,
        TypeInfo::U8,
        TypeInfo::StructStart,
        TypeInfo::I8,
        TypeInfo::Optional,
        TypeInfo::U32,
        TypeInfo::StructEnd,
        TypeInfo::StructEnd,
        TypeInfo::U8,
    ];
    let encoded = [0u8, 42];
    assert_eq!(
        decode_type_info(&infos, 0, &encoded, 0, 8),
        Ok((vec![Item::Absent], 9, 1))
    );
    assert_eq!(
        decode_type_info(&infos, 9, &encoded, 1, 8),
        Ok((vec![Item::U8(42)], 1, 2))
    );
}

#[test]
fn primitives_read_little_endian() {
    let infos = vec![
        TypeInfo::StructStart,
        TypeInfo::U32,
        TypeInfo::I8,
        TypeInfo::U8,
        TypeInfo::Void,
        TypeInfo::StructEnd,
    ];
    let encoded = [0x78u8, 0x56, 0x34, 0x12, 0xff, 0xfe];
    assert_eq!(
        decode(&infos, &encoded).unwrap().0,
        vec![
            Item::Open,
            Item::U32(0x1234_5678),
            Item::I8(-1),
            Item::U8(0xfe),
            Item::Void,
            Item::Close
        ]
    );
}

#[test]
fn buffer_underrun() {
    assert_eq!(decode(&[TypeInfo::U32], &[1, 2, 3]), Err(DecodeError::BufferUnderrun));
    assert_eq!(decode(&[TypeInfo::I8], &[]), Err(DecodeError::BufferUnderrun));
    assert_eq!(decode(&[TypeInfo::Optional, TypeInfo::U8], &[]), Err(DecodeError::BufferUnderrun));
    assert_eq!(decode(&[TypeInfo::Optional, TypeInfo::U8], &[1]), Err(DecodeError::BufferUnderrun));
}

#[test]
fn enum_variants_decode() {
    let infos = SomeEnum::get_type_info();
    assert_eq!(decode(&infos, &[0]).unwrap().0, vec![Item::Variant(0)]);
    assert_eq!(
        decode(&infos, &[1, 5, 0, 0, 0, 0xfe]).unwrap().0,
        vec![Item::Variant(1), Item::Open, Item::U32(5), Item::I8(-2), Item::Close]
    );
    let inner = SomeStruct { hello: 9u8, data: 300u32 };
    let mut encoded = vec![2u8];
    encoded.extend(inner.encode());
    assert_eq!(
        decode(&infos, &encoded).unwrap().0,
        vec![
            Item::Variant(2),
            Item::Open,
            Item::Open,
            Item::U8(9),
            Item::U32(300),
            Item::Close,
            Item::Close
        ]
    );
}

#[test]
fn enum_discriminant_without_variant() {
    let infos = SomeEnum::get_type_info();
    assert_eq!(decode(&infos, &[3]), Err(DecodeError::InvalidDiscriminant));
    assert_eq!(decode(&infos, &[]), Err(DecodeError::BufferUnderrun));
    assert_eq!(decode(&[TypeInfo::Enum], &[0]), Err(DecodeError::InvalidDiscriminant));
}

#[test]
fn lists_decode() {
    let infos = Vec::<u32>::get_type_info();
    let values: Vec<u32> = vec![1, 2, 70000];
    assert_eq!(
        decode(&infos, &values.encode()).unwrap().0,
        vec![Item::Len(3), Item::U32(1), Item::U32(2), Item::U32(70000)]
    );
    let empty: Vec<u32> = Vec::new();
    assert_eq!(decode(&infos, &empty.encode()).unwrap().0, vec![Item::Len(0)]);
}

#[test]
fn list_of_recursive_nodes() {
    let infos = Vec::<Node<u32>>::get_type_info();
    assert_eq!(
        infos,
        vec![
            TypeInfo::List,
            TypeInfo::StructStart,
            TypeInfo::U32,
            TypeInfo::Optional,
            TypeInfo::RefType(1),
            TypeInfo::StructEnd
        ]
    );
    let nodes = vec![*chain(&[1, 2]).unwrap(), *chain(&[3]).unwrap()];
    let mut expected = vec![Item::Len(2)];
    for node in &nodes {
        node_items(node, &mut expected);
    }
    assert_eq!(decode(&infos, &nodes.encode()).unwrap().0, expected);
}

#[test]
fn list_length_prefix_widths() {
    let infos = [TypeInfo::List, TypeInfo::Void];
    // two bytes: (0x01 + 0x01 * 256) / 4 elements
    let items = decode(&infos, &[0x01, 0x01]).unwrap().0;
    assert_eq!(items[0], Item::Len(64));
    assert_eq!(items.len(), 65);
    // four bytes
    let items = decode(&infos, &[0x02, 0x00, 0x01, 0x00]).unwrap().0;
    assert_eq!(items[0], Item::Len(16384));
    assert_eq!(items.len(), 16385);
    // a marker byte, then four bytes
    assert_eq!(
        decode(&infos, &[0x03, 0x02, 0x00, 0x00, 0x00]).unwrap().0,
        vec![Item::Len(2), Item::Void, Item::Void]
    );
    assert_eq!(decode(&infos, &[0x07, 0, 0, 0, 0]), Err(DecodeError::InvalidLengthPrefix));
    assert_eq!(decode(&infos, &[0x01]), Err(DecodeError::BufferUnderrun));
    assert_eq!(decode(&infos, &[]), Err(DecodeError::BufferUnderrun));
    assert_eq!(decode(&[TypeInfo::List, TypeInfo::U8], &[0x08, 1]), Err(DecodeError::BufferUnderrun));
}

#[test]
fn absent_optional_skips_enum_and_list() {
    let infos = vec![
        TypeInfo::Optional,
        TypeInfo::Enum,
        TypeInfo::EnumVariantUnit,
        TypeInfo::EnumVariantStart,
        TypeInfo::List,
        TypeInfo::U32,
        TypeInfo::EnumVariantEnd,
        TypeInfo::U8,
    ];
    assert_eq!(decode_type_info(&infos, 0, &[0, 7], 0, 8), Ok((vec![Item::Absent], 7, 1)));
    assert_eq!(decode_type_info(&infos, 7, &[0, 7], 1, 8), Ok((vec![Item::U8(7)], 1, 2)));
}

#[test]
fn misplaced_variant_tags() {
    assert_eq!(decode(&[TypeInfo::EnumVariantEnd], &[]), Err(DecodeError::MalformedSequence));
    assert_eq!(
        decode(&[TypeInfo::Optional, TypeInfo::EnumVariantUnit], &[0]),
        Err(DecodeError::MalformedSequence)
    );
}

#[test]
fn malformed_sequences() {
    assert_eq!(decode(&[], &[]), Err(DecodeError::MalformedSequence));
    assert_eq!(decode(&[TypeInfo::StructStart, TypeInfo::U8], &[1]), Err(DecodeError::MalformedSequence));
    assert_eq!(decode(&[TypeInfo::StructEnd], &[]), Err(DecodeError::MalformedSequence));
    assert_eq!(decode(&[TypeInfo::U8, TypeInfo::U8], &[1, 2]), Err(DecodeError::MalformedSequence));
    assert_eq!(
        decode(&[TypeInfo::Optional, TypeInfo::StructStart, TypeInfo::U8], &[0]),
        Err(DecodeError::MalformedSequence)
    );
}

#[test]
fn endless_self_reference_hits_depth_limit() {
    let infos = vec![TypeInfo::StructStart, TypeInfo::RefType(0), TypeInfo::StructEnd];
    assert_eq!(decode(&infos, &[]), Err(DecodeError::DepthLimitExceeded));
}

#[test]
fn generator_for_std_types() {
    assert_eq!(u8::get_type_info(), vec![TypeInfo::U8]);
    assert_eq!(i8::get_type_info(), vec![TypeInfo::I8]);
    assert_eq!(<()>::get_type_info(), vec![TypeInfo::Void]);
    assert_eq!(Vec::<u32>::get_type_info(), vec![TypeInfo::List, TypeInfo::U32]);
    assert_eq!(
        Option::<Box<Option<u8>>>::get_type_info(),
        vec![TypeInfo::Optional, TypeInfo::Optional, TypeInfo::U8]
    );
}

#[test]
fn generator_for_enum_and_generic_struct() {
    assert_eq!(
        SomeEnum::get_type_info(),
        vec![
            TypeInfo::Enum,
            TypeInfo::EnumVariantUnit,
            TypeInfo::EnumVariantStart,
            TypeInfo::U32,
            TypeInfo::I8,
            TypeInfo::EnumVariantEnd,
            TypeInfo::EnumVariantStart,
            TypeInfo::StructStart,
            TypeInfo::U8,
            TypeInfo::U32,
            TypeInfo::StructEnd,
            TypeInfo::EnumVariantEnd
        ]
    );
    let value = SomeStruct { hello: 9u8, data: 300u32 };
    assert_eq!(
        decode(&SomeStruct::<u32>::get_type_info(), &value.encode()).unwrap().0,
        vec![Item::Open, Item::U8(9), Item::U32(300), Item::Close]
    );
}

#[test]
fn sibling_of_same_type_is_expanded_again() {
    let infos = Pair::get_type_info();
    assert_eq!(
        infos,
        vec![
            TypeInfo::StructStart,
            TypeInfo::StructStart,
            TypeInfo::I8,
            TypeInfo::Optional,
            TypeInfo::RefType(1),
            TypeInfo::StructEnd,
            TypeInfo::StructStart,
            TypeInfo::I8,
            TypeInfo::Optional,
            TypeInfo::RefType(6),
            TypeInfo::StructEnd,
            TypeInfo::StructEnd
        ]
    );
    let value = Pair {
        first: Node { data: 1i8, next: Some(Box::new(Node { data: 2i8, next: None })) },
        second: Node { data: -3i8, next: None },
    };
    assert_eq!(
        decode(&infos, &value.encode()).unwrap().0,
        vec![
            Item::Open,
            Item::Open,
            Item::I8(1),
            Item::Present,
            Item::Open,
            Item::I8(2),
            Item::Absent,
            Item::Close,
            Item::Close,
            Item::Open,
            Item::I8(-3),
            Item::Absent,
            Item::Close,
            Item::Close
        ]
    );
}

#[test]
fn generator_is_deterministic() {
    assert_eq!(A::get_type_info(), A::get_type_info());
    assert_eq!(Node::<u8>::get_type_info(), Node::<u8>::get_type_info());
}

#[test]
fn decode_is_repeatable() {
    let infos = Node::<u32>::get_type_info();
    let bytes = chain(&[4, 5]).unwrap().encode();
    assert_eq!(decode(&infos, &bytes), decode(&infos, &bytes));
}

#[test]
fn generated_sequences_keep_references_in_range() {
    let sequences = vec![
        A::get_type_info(),
        B::get_type_info(),
        Node::<u32>::get_type_info(),
        Pair::get_type_info(),
        Vec::<Node<u32>>::get_type_info(),
    ];
    for infos in &sequences {
        for (k, info) in infos.iter().enumerate() {
            if let TypeInfo::RefType(at) = info {
                assert!(*at <= k);
                assert_eq!(infos[*at], TypeInfo::StructStart);
            }
        }
        for bytes in [vec![], vec![1, 1, 1, 1, 1, 1, 1], vec![0, 0, 0, 0, 0], vec![1, 0, 1, 0, 1, 0, 0, 0, 0]] {
            assert_ne!(decode(infos, &bytes), Err(DecodeError::BackReferenceOutOfRange));
        }
    }
}

#[test]
fn presence_flag_other_than_zero_or_one() {
    let infos = Option::<u8>::get_type_info();
    assert_eq!(decode(&infos, &[2, 5]), Err(DecodeError::InvalidPresenceFlag));
    assert_eq!(decode(&infos, &[0]).unwrap().0, vec![Item::Absent]);
    assert_eq!(decode(&infos, &[1, 5]).unwrap().0, vec![Item::Present, Item::U8(5)]);
}

#[test]
fn std_types_are_described_in_place() {
    assert_eq!(u32::type_key(), None);
    assert_eq!(Box::<u8>::type_key(), None);
    assert_eq!(Box::<u32>::get_type_info(), vec![TypeInfo::U32]);
    assert!(A::type_key().is_some());
    assert_ne!(A::type_key(), B::type_key());
}

#[test]
fn longest_chain_within_nesting_limit() {
    let infos = Node::<u32>::get_type_info();
    let values: Vec<u32> = (0..256u32).collect();
    let list = chain(&values).unwrap();
    let mut expected = Vec::new();
    node_items(&list, &mut expected);
    assert_eq!(decode(&infos, &list.encode()).unwrap().0, expected);
    let longer: Vec<u32> = (0..257u32).collect();
    let list = chain(&longer).unwrap();
    assert_eq!(decode(&infos, &list.encode()), Err(DecodeError::DepthLimitExceeded));
}

#[test]
fn decode_reports_bytes_read() {
    let list = chain(&[1, 2, 3]).unwrap();
    let encoded = list.encode();
    let (_, read) = decode(&Node::<u32>::get_type_info(), &encoded).unwrap();
    assert_eq!(read, encoded.len());
    // trailing bytes are left unread
    assert_eq!(decode(&[TypeInfo::U8], &[1, 2, 3]), Ok((vec![Item::U8(1)], 1)));
    assert_eq!(decode(&[TypeInfo::Void], &[9]), Ok((vec![Item::Void], 0)));
}
