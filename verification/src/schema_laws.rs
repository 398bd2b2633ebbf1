//! What holds of the fields of messages: which of them are taken.

use crate::protobuf;
use crate::protobuf::{WireFault, WireField, WireValue};
use crate::schema;
use crate::schema::{Kind, Shape};
use vstd::prelude::*;
use vstd::utf8::valid_utf8;

verus! {

/// Whether a field can stand in a message: what is not known can be anything, a number is a
/// number, and all else is bytes: any, those of a text, or those of a message again.
pub open spec fn fitting(field: WireField, shape: Shape, depth: nat) -> bool {
    match shape.kind(field.tag) {
        Kind::Unknown => true,
        Kind::Number => field.value is Varint,
        Kind::Raw => field.value is Bytes,
        Kind::Text => field.value matches WireValue::Bytes(b) && valid_utf8(b),
        Kind::Message(inner) => field.value matches WireValue::Bytes(b) && depth > 0
            && schema::message_fault(b, inner, (depth - 1) as nat) is None,
    }
}

/// A message is taken exactly where it can be cut into fields and each of them can stand in it.
pub proof fn law_messages_that_are_taken(b: Seq<u8>, shape: Shape, depth: nat)
    ensures
        schema::message_fault(b, shape, depth) is None <==> {
            &&& protobuf::fields(b, depth) is Ok
            &&& forall|i: int|
                0 <= i < protobuf::fields(b, depth)->Ok_0.len() ==> fitting(
                    #[trigger] protobuf::fields(b, depth)->Ok_0[i],
                    shape,
                    depth,
                )
        },
{
    if protobuf::fields(b, depth) is Ok {
        lemma_fields_that_are_taken(protobuf::fields(b, depth)->Ok_0, shape, depth);
    }
}

proof fn lemma_fields_that_are_taken(fs: Seq<WireField>, shape: Shape, depth: nat)
    ensures
        schema::fields_fault(fs, shape, depth) is None <==> forall|i: int|
            0 <= i < fs.len() ==> fitting(#[trigger] fs[i], shape, depth),
    decreases fs.len(),
{
    if fs.len() > 0 {
        let head = fs.drop_last();
        lemma_fields_that_are_taken(head, shape, depth);
        assert(forall|i: int| 0 <= i < head.len() ==> #[trigger] head[i] == fs[i]);
        if schema::fields_fault(fs, shape, depth) is None {
            assert forall|i: int| 0 <= i < fs.len() implies fitting(
                #[trigger] fs[i],
                shape,
                depth,
            ) by {
                if i < head.len() {
                    assert(fitting(head[i], shape, depth));
                }
            }
        } else if forall|i: int| 0 <= i < fs.len() ==> fitting(#[trigger] fs[i], shape, depth) {
            assert forall|i: int| 0 <= i < head.len() implies fitting(
                #[trigger] head[i],
                shape,
                depth,
            ) by {
                assert(fitting(fs[i], shape, depth));
            }
            assert(fitting(fs[fs.len() - 1], shape, depth));
        }
    }
}

/// A number where bytes are expected, and bytes where a number is, are told apart by the way in
/// which they are written.
pub proof fn law_fields_of_another_kind(field: WireField, shape: Shape, depth: nat)
    ensures
        ({
            let fault = schema::fields_fault(seq![field], shape, depth);
            &&& shape.kind(field.tag) is Number && field.value is Bytes ==> fault == Some(
                WireFault::Mismatch(2, 0),
            )
            &&& shape.kind(field.tag) is Raw && field.value is Varint ==> fault == Some(
                WireFault::Mismatch(0, 2),
            )
            &&& shape.kind(field.tag) is Text && field.value is Varint ==> fault == Some(
                WireFault::Mismatch(0, 2),
            )
            &&& shape.kind(field.tag) is Message && field.value is Varint ==> fault == Some(
                WireFault::Mismatch(0, 2),
            )
            &&& shape.kind(field.tag) is Unknown ==> fault is None
        }),
{
    reveal_with_fuel(schema::fields_fault, 2);
    assert(seq![field].drop_last() =~= Seq::<WireField>::empty());
    assert(seq![field].last() == field);
}

} // verus!
