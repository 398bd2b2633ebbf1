//! What holds of the settings of registered I/O.

use crate::rio;
use crate::rio::{DiscoveryReply, RioConfig, RioErrorText};
use vstd::arithmetic::power2::*;
use vstd::prelude::*;

verus! {

/// Whether a number is a power of two that 32 bits hold.
pub open spec fn two_to_some_power(n: u32) -> bool {
    exists|k: nat| k < 32 && n == #[trigger] pow2(k)
}

/// A queue can have a capacity exactly where that is a power of two.
pub proof fn law_capacities(capacity: u32)
    ensures
        rio::valid_capacity(capacity) <==> two_to_some_power(capacity),
{
    lemma2_to64();
    if rio::valid_capacity(capacity) {
        let k = choose|k: nat| capacity as nat == #[trigger] pow2(k);
        if k > 32 {
            lemma_pow2_strictly_increases(32, k);
        }
        assert(capacity == pow2(k));
    }
    if two_to_some_power(capacity) {
        let k = choose|k: nat| k < 32 && capacity == #[trigger] pow2(k);
        lemma_pow2_pos(k);
        assert(capacity as nat == pow2(k));
    }
}

/// A configuration is valid exactly where the buffer is cut into whole frames without a rest
/// and both queues have capacities that they can have.
pub proof fn law_configurations(config: RioConfig)
    ensures
        config.valid() <==> {
            &&& config.frame_size > 0
            &&& config.buffer_length > 0
            &&& config.buffer_length as int % config.frame_size as int == 0
            &&& two_to_some_power(config.request_queue_capacity)
            &&& two_to_some_power(config.completion_queue_capacity)
        },
{
    law_capacities(config.request_queue_capacity);
    law_capacities(config.completion_queue_capacity);
}

/// A payload is described only where it fits its frame and the frame lies in the buffer.
pub proof fn law_descriptors_lie_in_the_buffer(
    buffer_length: nat,
    frame_size: u32,
    frame_index: usize,
    length: u32,
)
    requires
        buffer_length <= usize::MAX,
    ensures
        rio::descriptor_fault(buffer_length, frame_size, frame_index, length) is None <==> length
            <= frame_size && frame_index * frame_size + length <= buffer_length,
{
    assert(frame_index * frame_size >= 0) by (nonlinear_arith)
        requires
            frame_index >= 0,
            frame_size >= 0,
    ;
}

/// A slice is described only where it lies in the buffer and 32 bits hold its place and its
/// length.
pub proof fn law_slices_lie_in_the_buffer(buffer_length: nat, offset: usize, length: usize)
    requires
        buffer_length <= usize::MAX,
    ensures
        rio::slice_fault(buffer_length, offset, length) is None <==> offset + length
            <= buffer_length && offset <= 0xffff_ffff && length <= 0xffff_ffff,
{
}

/// The functions are found exactly where the search succeeded and gave a table that is long
/// enough; else the failure says what came of the search.
pub proof fn law_discovery(reply: DiscoveryReply, needed: u32)
    ensures
        rio::discovery_fault(reply, needed) is None <==> reply.result == 0 && (
        reply.table_size matches Some(size) && size >= needed),
        reply.result != 0 ==> rio::discovery_fault(reply, needed) == Some(
            RioErrorText::WindowsApi("WSAIoctl_discover"@, reply.last_error),
        ),
        reply.result == 0 && reply.table_size is None ==> rio::discovery_fault(reply, needed)
            == Some(RioErrorText::WindowsApi("WSAIoctl_null_table"@, reply.returned)),
        reply.result == 0 && (reply.table_size matches Some(size) && size < needed)
            ==> rio::discovery_fault(reply, needed) == Some(
            RioErrorText::WindowsApi("WSAIoctl_short_table"@, reply.table_size->0),
        ),
{
}

/// What is laid over a sequence stands in its front, and the rest of the sequence is kept.
pub proof fn law_overlays<T>(s: Seq<T>, over: Seq<T>, i: int)
    requires
        0 <= i < s.len(),
    ensures
        rio::overlaid(s, over).len() == s.len(),
        i < over.len() ==> rio::overlaid(s, over)[i] == over[i],
        i >= over.len() ==> rio::overlaid(s, over)[i] == s[i],
{
}

} // verus!
