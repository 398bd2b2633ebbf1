//! What holds of the checks around the DPDK runtime.

use crate::dpdk_safe;
use crate::dpdk_safe::{
    MempoolConfiguration, PortConfiguration, PortState, RxDescriptor,
};
use vstd::prelude::*;
use vstd::utf8::valid_utf8;

verus! {

/// A pool can be made exactly where it has a name, buffers with room, a cache smaller than the
/// pool and a node.
pub proof fn law_pools(c: MempoolConfiguration)
    ensures
        dpdk_safe::mempool_valid(c) <==> c.name@.len() >= 1 && c.count >= 1 && c.data_room_size >= 1
            && c.cache_size + 1 <= c.count && c.socket_id >= 0,
{
}

/// A port can be set up exactly where it has queues and descriptors in both directions.
pub proof fn law_ports(c: PortConfiguration)
    ensures
        dpdk_safe::port_valid(c) <==> c.rx_queues >= 1 && c.tx_queues >= 1 && c.rx_descriptors >= 1
            && c.tx_descriptors >= 1,
{
}

/// A receive queue can be taken exactly where the port is started and has it, nobody owns it,
/// and the burst is between 1 and 256 packets.
pub proof fn law_taking_receive_queues(port: PortState, queue_id: u16, burst_capacity: u16)
    ensures
        port.rx_fault(queue_id, burst_capacity) is None <==> {
            &&& port.started()
            &&& queue_id < port.configuration().rx_queues
            &&& !port.rx().contains(queue_id)
            &&& 1 <= burst_capacity <= 256
        },
{
}

/// A transmit queue can be taken exactly where the port is started and has it, and nobody owns
/// it.
pub proof fn law_taking_transmit_queues(port: PortState, queue_id: u16)
    ensures
        port.tx_fault(queue_id) is None <==> {
            &&& port.started()
            &&& queue_id < port.configuration().tx_queues
            &&& !port.tx().contains(queue_id)
        },
{
}

/// What a driver says of a packet makes sense exactly where the packet has a buffer, its bytes
/// are there where it has some, and they are no more than the packet is long.
pub proof fn law_received_packets(d: RxDescriptor)
    ensures
        dpdk_safe::descriptor_valid(d) <==> {
            &&& d.has_buffer
            &&& d.data_len > 0 ==> d.has_data
            &&& d.packet_len >= d.data_len
        },
{
}

/// A name ends before its first zero: it is the front of the bytes, holds no zero, and a zero
/// or nothing stands behind it.
pub proof fn law_names_end_at_a_zero(b: Seq<u8>)
    ensures
        ({
            let name = dpdk_safe::until_zero(b);
            &&& name.len() <= b.len()
            &&& name == b.take(name.len() as int)
            &&& forall|i: int| 0 <= i < name.len() ==> #[trigger] name[i] != 0
            &&& name.len() < b.len() ==> b[name.len() as int] == 0
        }),
    decreases b.len(),
{
    if b.len() > 0 && b[0] != 0 {
        let rest = b.drop_first();
        law_names_end_at_a_zero(rest);
        let tail = dpdk_safe::until_zero(rest);
        let name = dpdk_safe::until_zero(b);
        assert(name == seq![b[0]] + tail);
        assert(name =~= b.take(name.len() as int)) by {
            assert forall|i: int| 0 <= i < name.len() implies name[i] == b[i] by {
                if i > 0 {
                    assert(tail[i - 1] == rest.take(tail.len() as int)[i - 1]);
                    assert(rest[i - 1] == b[i]);
                }
            }
        }
        assert forall|i: int| 0 <= i < name.len() implies #[trigger] name[i] != 0 by {
            if i > 0 {
                assert(name[i] == tail[i - 1]);
            }
        }
        if name.len() < b.len() {
            assert(rest[tail.len() as int] == b[name.len() as int]);
        }
    } else {
        assert(dpdk_safe::until_zero(b) =~= b.take(0));
    }
}

/// Statistics are taken exactly where each name, in its 128 bytes, is text and not empty.
pub proof fn law_names_of_statistics(names: Seq<u8>, n: nat)
    ensures
        dpdk_safe::xstat_fault(names, n) is None <==> forall|i: int|
            0 <= i < n ==> {
                let name = dpdk_safe::until_zero(
                    #[trigger] names.subrange(i * 128, (i + 1) * 128),
                );
                valid_utf8(name) && name.len() > 0
            },
    decreases n,
{
    if n > 0 {
        law_names_of_statistics(names, (n - 1) as nat);
        let name = dpdk_safe::xstat_name(names, n - 1);
        assert(name == dpdk_safe::until_zero(names.subrange((n - 1) * 128, (n - 1 + 1) * 128)));
        if dpdk_safe::xstat_fault(names, n) is None {
            assert forall|i: int| 0 <= i < n implies {
                let name = dpdk_safe::until_zero(
                    #[trigger] names.subrange(i * 128, (i + 1) * 128),
                );
                valid_utf8(name) && name.len() > 0
            } by {
                if i < n - 1 {
                }
            }
        }
    }
}

/// The number of an error is what the runtime returned without its sign.
pub proof fn law_numbers_of_errors(result: i32)
    requires
        i32::MIN < result,
    ensures
        dpdk_safe::error_number(result) + result == 0,
{
}

} // verus!
