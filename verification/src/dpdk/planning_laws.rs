//! What holds of queue plans, buffer pools and the requests that are made of them.

use crate::dpdk::executor;
use crate::dpdk::executor::{Direction, NativeDpdkExecutionRequest, NativeDpdkReceiveRequest};
use crate::dpdk::planning;
use crate::dpdk::planning::{
    DataPlaneCpu, MbufPoolSizing, NicQueueCapacity, QueuePlan, QueueSelection,
};
use crate::dpdk_safe::{MempoolConfiguration, PortConfiguration};
use crate::error::NetToolError;
use crate::text;
use vstd::prelude::*;

verus! {

// -------------------------------------------------------------------------------- queue plans

/// A plan passes exactly where both numbers of queues are positive, there is an assignment for
/// each receive queue, numbered in order, and no processor owns two.
pub proof fn law_plans_that_pass(plan: QueuePlan)
    ensures
        planning::plan_fault(plan) is None <==> {
            let a = plan.rx_assignments@;
            &&& plan.rx_queues > 0
            &&& plan.tx_queues > 0
            &&& a.len() == plan.rx_queues
            &&& forall|i: int| 0 <= i < a.len() ==> (#[trigger] a[i]).queue_id == i
            &&& forall|i: int, j: int|
                0 <= i < a.len() && 0 <= j < a.len() && i != j ==> (#[trigger] a[i]).logical_cpu
                    != (#[trigger] a[j]).logical_cpu
        },
{
}

/// The processors of a node.
pub open spec fn on_node(cpus: Seq<DataPlaneCpu>, node: i32) -> Seq<DataPlaneCpu> {
    cpus.filter(|c: DataPlaneCpu| c.numa_node == node)
}

/// The near processors are those of the node, one for one and in their order.
pub proof fn law_near_processors(cpus: Seq<DataPlaneCpu>, node: i32)
    ensures
        planning::local_cpus(cpus, node).len() == on_node(cpus, node).len(),
        forall|i: int|
            0 <= i < on_node(cpus, node).len() ==> planning::local_cpus(cpus, node)[i] == (
            #[trigger] on_node(cpus, node)[i]).logical_id,
    decreases cpus.len(),
{
    reveal(Seq::filter);
    if cpus.len() > 0 {
        law_near_processors(cpus.drop_last(), node);
    }
}

/// Queues can be planned exactly where the interface has queues of both kinds, the
/// configuration allows one, no processor of the node occurs twice, and there are enough of
/// all three for the number asked for; where none is asked for, one processor is enough.
pub proof fn law_what_can_be_planned(
    node: i32,
    capacity: NicQueueCapacity,
    cpus: Seq<DataPlaneCpu>,
    maximum: u16,
    selection: QueueSelection,
)
    ensures
        planning::planning_fault(node, capacity, cpus, maximum, selection) is None <==> {
            let near = on_node(cpus, node);
            &&& capacity.receive > 0
            &&& capacity.transmit > 0
            &&& maximum > 0
            &&& forall|i: int, j: int|
                0 <= i < near.len() && 0 <= j < near.len() && i != j ==> (
                #[trigger] near[i]).logical_id != (#[trigger] near[j]).logical_id
            &&& match selection {
                QueueSelection::Auto => near.len() > 0,
                QueueSelection::Explicit(n) => 0 < n && n <= capacity.receive && n <= maximum && n
                    <= near.len(),
            }
        },
{
    law_near_processors(cpus, node);
    let near = on_node(cpus, node);
    let local = planning::local_cpus(cpus, node);
    if local.no_duplicates() {
        assert forall|i: int, j: int|
            0 <= i < near.len() && 0 <= j < near.len() && i != j implies (
        #[trigger] near[i]).logical_id != (#[trigger] near[j]).logical_id by {
            assert(local[i] != local[j]);
        }
    }
    if forall|i: int, j: int|
        0 <= i < near.len() && 0 <= j < near.len() && i != j ==> (#[trigger] near[i]).logical_id
            != (#[trigger] near[j]).logical_id {
        assert forall|i: int, j: int|
            0 <= i < local.len() && 0 <= j < local.len() && i != j implies local[i] != local[j] by {
            assert(near[i].logical_id != near[j].logical_id);
        }
    }
}

/// How many queues a plan has: as many receive queues as were asked for, and where that is left
/// open as many as the interface, the configuration and the near processors allow; as many
/// transmit queues as receive queues, as far as the interface has them.
pub proof fn law_numbers_of_queues(
    node: i32,
    capacity: NicQueueCapacity,
    cpus: Seq<DataPlaneCpu>,
    maximum: u16,
    selection: QueueSelection,
    plan: QueuePlan,
)
    requires
        planning::planned(
            node,
            capacity,
            cpus,
            maximum,
            selection,
            Ok::<QueuePlan, NetToolError>(plan),
        ),
    ensures
        plan.numa_node == node,
        selection matches QueueSelection::Explicit(n) ==> plan.rx_queues == n,
        plan.rx_queues <= capacity.receive,
        plan.rx_queues <= maximum,
        plan.rx_queues <= on_node(cpus, node).len(),
        selection is Auto ==> plan.rx_queues == capacity.receive || plan.rx_queues == maximum
            || plan.rx_queues == on_node(cpus, node).len(),
        plan.tx_queues <= capacity.transmit,
        plan.tx_queues <= plan.rx_queues,
        plan.tx_queues == capacity.transmit || plan.tx_queues == plan.rx_queues,
        plan.rx_assignments@.len() == plan.rx_queues,
{
    law_near_processors(cpus, node);
}

/// Which processors a plan uses: near ones, the smaller before the larger, and none where a
/// smaller near one is left over.
pub proof fn law_smallest_processors_are_taken(
    node: i32,
    capacity: NicQueueCapacity,
    cpus: Seq<DataPlaneCpu>,
    maximum: u16,
    selection: QueueSelection,
    plan: QueuePlan,
    k: int,
)
    requires
        planning::planned(
            node,
            capacity,
            cpus,
            maximum,
            selection,
            Ok::<QueuePlan, NetToolError>(plan),
        ),
        0 <= k < cpus.len(),
        cpus[k].numa_node == node,
    ensures
        ({
            let a = plan.rx_assignments@;
            &&& forall|i: int, j: int|
                0 <= i < j < a.len() ==> (#[trigger] a[i]).logical_cpu < (
                #[trigger] a[j]).logical_cpu
            &&& (exists|i: int|
                0 <= i < a.len() && (#[trigger] a[i]).logical_cpu == cpus[k].logical_id) || (
            forall|i: int|
                0 <= i < a.len() ==> (#[trigger] a[i]).logical_cpu < cpus[k].logical_id)
        }),
{
    let a = plan.rx_assignments@;
    let local = planning::local_cpus(cpus, node);
    let sorted = choose|sorted: Seq<u32>| #[trigger]
        planning::ascending(sorted) && sorted.to_multiset() == local.to_multiset() && sorted.len()
            == local.len() && forall|i: int|
            0 <= i < plan.rx_queues ==> (#[trigger] a[i]).logical_cpu == sorted[i];
    assert forall|i: int, j: int| 0 <= i < j < a.len() implies (#[trigger] a[i]).logical_cpu < (
    #[trigger] a[j]).logical_cpu by {
        assert(sorted[i] <= sorted[j]);
    }
    lemma_is_near(cpus, node, k);
    let id = cpus[k].logical_id;
    local.to_multiset_ensures();
    sorted.to_multiset_ensures();
    assert(local.to_multiset().contains(id));
    assert(sorted.contains(id));
    let m = choose|m: int| 0 <= m < sorted.len() && sorted[m] == id;
    if m < a.len() {
        assert(a[m].logical_cpu == id);
    } else {
        assert forall|i: int| 0 <= i < a.len() implies (#[trigger] a[i]).logical_cpu < id
            || exists|i: int| 0 <= i < a.len() && (#[trigger] a[i]).logical_cpu == id by {
            assert(sorted[i] <= sorted[m]);
        }
    }
}

proof fn lemma_is_near(cpus: Seq<DataPlaneCpu>, node: i32, k: int)
    requires
        0 <= k < cpus.len(),
        cpus[k].numa_node == node,
    ensures
        planning::local_cpus(cpus, node).contains(cpus[k].logical_id),
    decreases cpus.len(),
{
    let before = planning::local_cpus(cpus.drop_last(), node);
    let all = planning::local_cpus(cpus, node);
    if k == cpus.len() - 1 {
        assert(all[before.len() as int] == cpus[k].logical_id);
    } else {
        lemma_is_near(cpus.drop_last(), node, k);
        assert(cpus.drop_last()[k] == cpus[k]);
        let m = choose|m: int| 0 <= m < before.len() && before[m] == cpus[k].logical_id;
        assert(all[m] == before[m]);
    }
}

// ---------------------------------------------------------------------------------- the pools

/// What a pool has to hold: a buffer for every descriptor of every queue, for every packet of
/// every burst on its way through the pipeline of the larger number of queues, and what is
/// captured and kept in reserve.
pub proof fn law_pools_hold_every_buffer(s: MbufPoolSizing)
    ensures
        s.rx_queues >= s.tx_queues ==> planning::pool_size(s) == s.rx_queues
            * s.rx_descriptors_per_queue + s.tx_queues * s.tx_descriptors_per_queue + s.rx_queues
            * s.burst_size * s.pipeline_depth + s.capture_buffers + s.safety_margin,
        s.rx_queues <= s.tx_queues ==> planning::pool_size(s) == s.rx_queues
            * s.rx_descriptors_per_queue + s.tx_queues * s.tx_descriptors_per_queue + s.tx_queues
            * s.burst_size * s.pipeline_depth + s.capture_buffers + s.safety_margin,
{
}

/// A pool can be sized exactly where all that it needs is given and the size fits 64 bits.
pub proof fn law_pools_that_can_be_sized(s: MbufPoolSizing)
    ensures
        planning::sizing_fault(s) is None <==> {
            &&& s.rx_queues > 0
            &&& s.tx_queues > 0
            &&& s.rx_descriptors_per_queue > 0
            &&& s.tx_descriptors_per_queue > 0
            &&& s.burst_size > 0
            &&& s.pipeline_depth > 0
            &&& s.safety_margin > 0
            &&& planning::pool_size(s) <= 0xffff_ffff_ffff_ffff
        },
{
    assert(s.rx_queues as nat * s.rx_descriptors_per_queue as nat >= 0) by (nonlinear_arith);
    assert(s.tx_queues as nat * s.tx_descriptors_per_queue as nat >= 0) by (nonlinear_arith);
}

/// A pool that holds more of anything is never smaller.
pub proof fn law_larger_needs_larger_pools(a: MbufPoolSizing, b: MbufPoolSizing)
    requires
        a.rx_queues <= b.rx_queues,
        a.rx_descriptors_per_queue <= b.rx_descriptors_per_queue,
        a.tx_queues <= b.tx_queues,
        a.tx_descriptors_per_queue <= b.tx_descriptors_per_queue,
        a.burst_size <= b.burst_size,
        a.pipeline_depth <= b.pipeline_depth,
        a.capture_buffers <= b.capture_buffers,
        a.safety_margin <= b.safety_margin,
    ensures
        planning::pool_size(a) <= planning::pool_size(b),
{
    let qa = if a.rx_queues >= a.tx_queues {
        a.rx_queues
    } else {
        a.tx_queues
    };
    let qb = if b.rx_queues >= b.tx_queues {
        b.rx_queues
    } else {
        b.tx_queues
    };
    lemma_products(
        a.rx_queues as nat,
        a.rx_descriptors_per_queue as nat,
        b.rx_queues as nat,
        b.rx_descriptors_per_queue as nat,
    );
    lemma_products(
        a.tx_queues as nat,
        a.tx_descriptors_per_queue as nat,
        b.tx_queues as nat,
        b.tx_descriptors_per_queue as nat,
    );
    lemma_products(qa as nat, a.burst_size as nat, qb as nat, b.burst_size as nat);
    lemma_products(
        qa as nat * a.burst_size as nat,
        a.pipeline_depth as nat,
        qb as nat * b.burst_size as nat,
        b.pipeline_depth as nat,
    );
}

proof fn lemma_products(a: nat, b: nat, c: nat, d: nat)
    by (nonlinear_arith)
    requires
        a <= c,
        b <= d,
    ensures
        a * b <= c * d,
{
}

// ------------------------------------------------------------------------------- the requests

/// Whether a character is a hexadecimal digit.
pub open spec fn hexadecimal(c: char) -> bool {
    0x30 <= c as u32 <= 0x39 || 0x41 <= c as u32 <= 0x46 || 0x61 <= c as u32 <= 0x66
}

/// Whether a text is written `dddd:bb:ss.f`, in hexadecimal digits, the last of them below
/// eight.
pub open spec fn names_a_function(s: Seq<char>) -> bool {
    &&& s.len() == 12
    &&& hexadecimal(s[0]) && hexadecimal(s[1]) && hexadecimal(s[2]) && hexadecimal(s[3])
    &&& s[4] as u32 == 0x3a
    &&& hexadecimal(s[5]) && hexadecimal(s[6])
    &&& s[7] as u32 == 0x3a
    &&& hexadecimal(s[8]) && hexadecimal(s[9])
    &&& s[10] as u32 == 0x2e
    &&& 0x30 <= s[11] as u32 <= 0x37
}

proof fn lemma_numbers(c: char)
    ensures
        c as u32 == 0x3a <==> c == ':',
        c as u32 == 0x2e <==> c == '.',
        0x30 <= c as u32 <= 0x37 <==> '0' <= c <= '7',
{
}

proof fn lemma_names_a_function(s: Seq<char>)
    ensures
        executor::bdf_form(s) <==> names_a_function(s),
{
    lemma_numbers(s[4]);
    lemma_numbers(s[7]);
    lemma_numbers(s[10]);
    lemma_numbers(s[11]);
    if executor::bdf_form(s) {
        assert(text::is_hex_digit(s[0]) && text::is_hex_digit(s[1]) && text::is_hex_digit(s[2])
            && text::is_hex_digit(s[3]) && text::is_hex_digit(s[5]) && text::is_hex_digit(s[6])
            && text::is_hex_digit(s[8]) && text::is_hex_digit(s[9]) && text::is_hex_digit(s[11]));
    }
    if names_a_function(s) {
        assert(s[4] == ':' && s[7] == ':' && s[10] == '.');
        assert forall|i: int|
            0 <= i < 12 && i != 4 && i != 7 && i != 10 implies text::is_hex_digit(
            #[trigger] s[i],
        ) by {}
    }
}

/// Packets can be sent exactly where the interface is named, the frame has 64 bytes or more and
/// the length that is said, there is a packet to send and the plan passes.
pub proof fn law_requests_to_send(q: NativeDpdkExecutionRequest)
    ensures
        executor::execution_fault(q) is None <==> {
            &&& names_a_function(q.pci_address@)
            &&& q.frame_size >= 64
            &&& q.frame_template@.len() == q.frame_size
            &&& q.packets > 0
            &&& planning::plan_fault(q.queue_plan) is None
        },
{
    lemma_names_a_function(q.pci_address@);
}

/// Packets can be received exactly where the interface is named, there is time and the plan
/// passes.
pub proof fn law_requests_to_receive(q: NativeDpdkReceiveRequest)
    ensures
        executor::receive_fault(q) is None <==> {
            &&& names_a_function(q.pci_address@)
            &&& q.duration.seconds > 0 || q.duration.nanoseconds > 0
            &&& planning::plan_fault(q.queue_plan) is None
        },
{
    lemma_names_a_function(q.pci_address@);
}

/// How a pool and a port are set up for a plan: the queues of the plan with 1024 descriptors
/// each, on its node, and a pool of 9600 byte buffers for all of them, for bursts of 64 and
/// with 1024 in reserve.
pub proof fn law_setups_follow_the_plan(
    plan: QueuePlan,
    direction: Direction,
    port_id: u16,
    pool: MempoolConfiguration,
    port: PortConfiguration,
)
    requires
        executor::setup_planned(
            plan,
            direction,
            port_id,
            Ok::<(MempoolConfiguration, PortConfiguration), NetToolError>((pool, port)),
        ),
    ensures
        plan.rx_queues > 0 && plan.tx_queues > 0 && plan.numa_node >= 0,
        pool.count == 1024 * plan.rx_queues + 1024 * plan.tx_queues + 64 * (if plan.rx_queues
            >= plan.tx_queues {
            plan.rx_queues
        } else {
            plan.tx_queues
        }) + 1024,
        pool.cache_size == 256 && pool.data_room_size == 9600,
        pool.socket_id == plan.numa_node && port.socket_id == plan.numa_node,
        port.port_id == port_id,
        port.rx_queues == plan.rx_queues && port.tx_queues == plan.tx_queues,
        port.rx_descriptors == 1024 && port.tx_descriptors == 1024,
        direction is Transmit ==> pool.name@ == "nettool_speed_tx_"@ + text::decimal(
            port_id as nat,
        ),
        direction is Receive ==> pool.name@ == "nettool_speed_rx_"@ + text::decimal(port_id as nat),
{
    law_pools_hold_every_buffer(executor::sizing(plan));
}

/// A setup fails only where there are no queues or the node is negative.
pub proof fn law_setups_that_fail(plan: QueuePlan)
    ensures
        executor::setup_fault(plan) is Some <==> plan.rx_queues == 0 || plan.tx_queues == 0
            || plan.numa_node < 0,
{
}

/// The runtime is started for one interface and without telemetry.
pub proof fn law_runtime_arguments(direction: Direction, pci_address: Seq<char>)
    ensures
        executor::arguments_of(direction, pci_address) == seq![
            if direction is Transmit {
                "nettool-backend-dpdk"@
            } else {
                "nettool-backend-dpdk-rx"@
            },
            "--no-telemetry"@,
            "-a"@,
            pci_address,
        ],
{
}

/// A burst takes what is left to send, but never more than 64 packets, and something as long as
/// anything is left.
pub proof fn law_bursts(packets: u64, transmitted: u64)
    requires
        transmitted <= packets,
    ensures
        ({
            let n = executor::burst_size(packets, transmitted);
            &&& 0 <= n <= 64
            &&& transmitted + n <= packets
            &&& n == 64 || transmitted + n == packets
        }),
{
}

/// Packets are added up, each of them once, as long as the sum fits 64 bits.
pub proof fn law_packets_are_added_up(accepted: Seq<u16>, n: u16)
    ensures
        0 <= executor::total_of(accepted) <= 0xffff_ffff_ffff_ffff,
        executor::total_of(Seq::empty()) == 0,
        executor::total_of(accepted) + n <= 0xffff_ffff_ffff_ffff ==> executor::total_of(
            accepted.push(n),
        ) == executor::total_of(accepted) + n,
        executor::total_of(accepted) + n > 0xffff_ffff_ffff_ffff ==> executor::total_of(
            accepted.push(n),
        ) == 0xffff_ffff_ffff_ffff,
    decreases accepted.len(),
{
    assert(accepted.push(n).drop_last() =~= accepted);
    if accepted.len() > 0 {
        law_packets_are_added_up(accepted.drop_last(), accepted.last());
    }
}

} // verus!
