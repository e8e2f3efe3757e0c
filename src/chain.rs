use vstd::prelude::*;
use crate::type_info::TypeInfo;
use crate::footprint::DecodeError;
use crate::primitive::le_u32;
use crate::decode::{Item, MAX_DEPTH, decode_tag, decode_fields, decode_all};

verus! {

/// The description of a singly linked list node holding a `u32`: its value,
/// then an optional reference back to the node itself.
pub open spec fn list_node_sequence() -> Seq<TypeInfo> {
    seq![TypeInfo::StructStart, TypeInfo::U32, TypeInfo::Optional, TypeInfo::RefType(0), TypeInfo::StructEnd]
}

/// The encoding of a chain of nodes whose values are the four-byte groups of
/// `g`: each value, then a presence byte, 1 before a next node and 0 at the end.
pub open spec fn chain_bytes(g: Seq<Seq<u8>>) -> Seq<u8>
    decreases g.len(),
{
    if g.len() == 0 {
        Seq::empty()
    } else if g.len() == 1 {
        g[0] + seq![0u8]
    } else {
        g[0] + seq![1u8] + chain_bytes(g.drop_first())
    }
}

/// The tokens of that chain: each node opened, its value, `Present` before the
/// next node or `Absent` at the end, and the node closed.
pub open spec fn chain_items(g: Seq<Seq<u8>>) -> Seq<Item>
    decreases g.len(),
{
    if g.len() == 0 {
        Seq::empty()
    } else if g.len() == 1 {
        seq![Item::Open, Item::U32(le_u32(g[0], 0)), Item::Absent, Item::Close]
    } else {
        seq![Item::Open, Item::U32(le_u32(g[0], 0)), Item::Present] + chain_items(g.drop_first()) + seq![Item::Close]
    }
}

pub open spec fn groups_of_four(g: Seq<Seq<u8>>) -> bool {
    forall|i: int| 0 <= i < g.len() ==> #[trigger] g[i].len() == 4
}

/// A chain of one or more nodes, found in `buf` at `pos`, decodes to its tokens
/// and uses up exactly its bytes, given two levels of nesting per node.
pub proof fn lemma_chain_decodes(g: Seq<Seq<u8>>, buf: Seq<u8>, pos: int, depth: nat)
    requires
        g.len() >= 1,
        groups_of_four(g),
        0 <= pos,
        pos + chain_bytes(g).len() <= buf.len(),
        buf.subrange(pos, pos + chain_bytes(g).len()) == chain_bytes(g),
        depth >= 2 * g.len(),
    ensures
        decode_tag(list_node_sequence(), 0, buf, pos, depth)
            == Ok::<(Seq<Item>, int, int), DecodeError>((chain_items(g), 5, pos + chain_bytes(g).len())),
    decreases g.len(),
{
    let ti = list_node_sequence();
    let cb = chain_bytes(g);
    let d1 = (depth - 1) as nat;
    assert(g[0].len() == 4);
    assert forall|i: int| 0 <= i < 4 implies buf[pos + i] == g[0][i] by {
        assert(buf.subrange(pos, pos + cb.len())[i] == cb[i]);
    }
    assert(le_u32(buf, pos) == le_u32(g[0], 0));
    let head = seq![Item::U32(le_u32(g[0], 0))];
    assert(decode_tag(ti, 1, buf, pos, d1) == Ok::<(Seq<Item>, int, int), DecodeError>((head, 1, pos + 4)));
    assert(buf[pos + 4] == cb[4]) by {
        assert(buf.subrange(pos, pos + cb.len())[4] == cb[4]);
    }
    let tail_close = seq![Item::Close];
    assert(decode_fields(ti, 4, TypeInfo::StructEnd, buf, pos + 5, d1) == Ok::<(Seq<Item>, int, int), DecodeError>((tail_close, 1, pos + 5)));
    if g.len() == 1 {
        assert(cb[4] == 0);
        assert(decode_tag(ti, 2, buf, pos + 4, d1) == Ok::<(Seq<Item>, int, int), DecodeError>((seq![Item::Absent], 2, pos + 5)));
        assert(decode_fields(ti, 2, TypeInfo::StructEnd, buf, pos + 4, d1)
            == Ok::<(Seq<Item>, int, int), DecodeError>((seq![Item::Absent] + tail_close, 3, pos + 5)));
        assert(decode_fields(ti, 1, TypeInfo::StructEnd, buf, pos, d1)
            == Ok::<(Seq<Item>, int, int), DecodeError>((head + (seq![Item::Absent] + tail_close), 4, pos + 5)));
        assert(seq![Item::Open] + (head + (seq![Item::Absent] + tail_close)) =~= chain_items(g));
    } else {
        let rest = g.drop_first();
        let rb = chain_bytes(rest);
        assert(cb == g[0] + seq![1u8] + rb);
        assert(cb[4] == 1);
        assert(groups_of_four(rest)) by {
            assert forall|i: int| 0 <= i < rest.len() implies #[trigger] rest[i].len() == 4 by {
                assert(rest[i] == g[i + 1]);
            }
        }
        assert(buf.subrange(pos + 5, pos + 5 + rb.len()) =~= rb) by {
            assert forall|i: int| 0 <= i < rb.len() implies buf.subrange(pos + 5, pos + 5 + rb.len())[i] == rb[i] by {
                assert(buf.subrange(pos, pos + cb.len())[5 + i] == cb[5 + i]);
            }
        }
        let d2 = (d1 - 1) as nat;
        lemma_chain_decodes(rest, buf, pos + 5, d2);
        let inner = chain_items(rest);
        let after = pos + 5 + rb.len();
        assert(decode_tag(ti, 3, buf, pos + 5, d2) == Ok::<(Seq<Item>, int, int), DecodeError>((inner, 1, after)));
        assert(decode_tag(ti, 2, buf, pos + 4, d1) == Ok::<(Seq<Item>, int, int), DecodeError>((seq![Item::Present] + inner, 2, after)));
        assert(decode_fields(ti, 4, TypeInfo::StructEnd, buf, after, d1) == Ok::<(Seq<Item>, int, int), DecodeError>((tail_close, 1, after)));
        assert(decode_fields(ti, 2, TypeInfo::StructEnd, buf, pos + 4, d1)
            == Ok::<(Seq<Item>, int, int), DecodeError>(((seq![Item::Present] + inner) + tail_close, 3, after)));
        assert(decode_fields(ti, 1, TypeInfo::StructEnd, buf, pos, d1)
            == Ok::<(Seq<Item>, int, int), DecodeError>((head + ((seq![Item::Present] + inner) + tail_close), 4, after)));
        assert(seq![Item::Open] + (head + ((seq![Item::Present] + inner) + tail_close)) =~= chain_items(g));
    }
}

/// Decoding the encoding of a chain of one to 256 nodes against the list node's
/// description gives back the chain's tokens, in order, and reads every byte.
/// Longer chains exceed
/// `MAX_DEPTH`, two levels per node.
pub proof fn lemma_chain_round_trip(g: Seq<Seq<u8>>)
    requires
        1 <= g.len() <= 256,
        groups_of_four(g),
    ensures
        decode_all(list_node_sequence(), chain_bytes(g)) == Ok::<(Seq<Item>, int), DecodeError>((chain_items(g), chain_bytes(g).len() as int)),
{
    let cb = chain_bytes(g);
    assert(cb.subrange(0, cb.len() as int) =~= cb);
    lemma_chain_decodes(g, cb, 0, MAX_DEPTH as nat);
}

} // verus!
