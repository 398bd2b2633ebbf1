//! Assigning receive queues to processors, and sizing the packet buffer pool.

use crate::error::{ErrorCode, NetToolError};
use vstd::prelude::*;

verus! {

/// A processor that a worker may use; processors of the system are left out beforehand.
#[derive(Clone, Copy, Debug, PartialEq, Eq, Structural)]
pub struct DataPlaneCpu {
    /// The logical processor.
    pub logical_id: u32,
    /// Its NUMA node.
    pub numa_node: i32,
}

/// How the number of queues is chosen.
#[derive(Clone, Copy, Debug, PartialEq, Eq, Structural)]
pub enum QueueSelection {
    /// The smallest of hardware, near processors and configuration.
    Auto,
    /// As the user says.
    Explicit(u16),
}

/// The queues that the hardware has.
#[derive(Clone, Copy, Debug, PartialEq, Eq, Structural)]
pub struct NicQueueCapacity {
    /// The receive queues.
    pub receive: u16,
    /// The transmit queues.
    pub transmit: u16,
}

/// A receive queue and the one processor that polls it.
#[derive(Clone, Copy, Debug, PartialEq, Eq, Structural)]
pub struct RxQueueAssignment {
    /// The queue.
    pub queue_id: u16,
    /// The processor.
    pub logical_cpu: u32,
}

/// The queues and processors of a port.
#[derive(Clone, Debug, PartialEq, Eq)]
pub struct QueuePlan {
    /// The NUMA node of the interface.
    pub numa_node: i32,
    /// The number of receive queues.
    pub rx_queues: u16,
    /// The number of transmit queues.
    pub tx_queues: u16,
    /// The owner of each receive queue.
    pub rx_assignments: Vec<RxQueueAssignment>,
}

/// Whether each processor owns at most one queue.
pub open spec fn owners_unique(a: Seq<RxQueueAssignment>) -> bool {
    forall|i: int, j: int|
        0 <= i < j < a.len() ==> (#[trigger] a[i]).logical_cpu != (#[trigger] a[j]).logical_cpu
}

/// Whether the queues are numbered from zero on.
pub open spec fn queues_contiguous(a: Seq<RxQueueAssignment>) -> bool {
    forall|i: int| 0 <= i < a.len() ==> (#[trigger] a[i]).queue_id == i
}

/// What is wrong with a plan, if something is.
pub open spec fn plan_fault(plan: QueuePlan) -> Option<Seq<char>> {
    let a = plan.rx_assignments@;
    if plan.rx_queues == 0 || plan.tx_queues == 0 {
        Some("queue plan RX/TX queues must be non-zero"@)
    } else if a.len() != plan.rx_queues {
        Some("queue plan assignment count does not match RX queues"@)
    } else if !owners_unique(a) {
        Some("queue plan CPU owners must be unique"@)
    } else if !queues_contiguous(a) {
        Some("queue plan queue IDs must be contiguous"@)
    } else {
        None
    }
}

impl QueuePlan {
    /// Checks that workers can take the plan over.
    ///
    /// # Errors
    ///
    /// Fails when a number of queues is zero, when the assignments are not as many as the
    /// receive queues, when a processor owns two queues or when the queues are not numbered
    /// from zero on.
    pub fn validate(&self) -> (r: Result<(), NetToolError>)
        ensures
            match r {
                Ok(_) => plan_fault(*self) is None,
                Err(e) => plan_fault(*self) is Some && e.is(
                    ErrorCode::InvalidArgument,
                    plan_fault(*self)->0,
                    false,
                ),
            },
    {
        if self.rx_queues == 0 || self.tx_queues == 0 {
            return Err(invalid("queue plan RX/TX queues must be non-zero"));
        }
        if self.rx_assignments.len() != self.rx_queues as usize {
            return Err(invalid("queue plan assignment count does not match RX queues"));
        }
        if !unique_owners(self.rx_assignments.as_slice()) {
            return Err(invalid("queue plan CPU owners must be unique"));
        }
        let mut i: usize = 0;
        while i < self.rx_assignments.len()
            invariant
                i <= self.rx_assignments@.len() == self.rx_queues,
                self.rx_queues != 0,
                self.tx_queues != 0,
                owners_unique(self.rx_assignments@),
                forall|j: int|
                    0 <= j < i ==> (#[trigger] self.rx_assignments@[j]).queue_id == j,
            decreases self.rx_assignments@.len() - i,
        {
            if self.rx_assignments[i].queue_id as usize != i {
                return Err(invalid("queue plan queue IDs must be contiguous"));
            }
            i += 1;
        }
        Ok(())
    }
}

fn unique_owners(a: &[RxQueueAssignment]) -> (r: bool)
    ensures
        r == owners_unique(a@),
{
    let mut i: usize = 0;
    while i < a.len()
        invariant
            i <= a@.len(),
            forall|x: int, y: int|
                0 <= x < y < i ==> (#[trigger] a@[x]).logical_cpu != (
                #[trigger] a@[y]).logical_cpu,
        decreases a@.len() - i,
    {
        let mut j: usize = 0;
        while j < i
            invariant
                j <= i < a@.len(),
                forall|x: int|
                    0 <= x < j ==> (#[trigger] a@[x]).logical_cpu != a@[i as int].logical_cpu,
            decreases i - j,
        {
            if a[j].logical_cpu == a[i].logical_cpu {
                return false;
            }
            j += 1;
        }
        i += 1;
    }
    true
}

/// The processors on a NUMA node, in the order given.
pub open spec fn local_cpus(cpus: Seq<DataPlaneCpu>, node: i32) -> Seq<u32>
    decreases cpus.len(),
{
    if cpus.len() == 0 {
        Seq::empty()
    } else {
        let before = local_cpus(cpus.drop_last(), node);
        if cpus.last().numa_node == node {
            before.push(cpus.last().logical_id)
        } else {
            before
        }
    }
}

/// The smaller of two numbers.
pub open spec fn least(a: int, b: int) -> int {
    if a <= b {
        a
    } else {
        b
    }
}

/// How many receive queues a selection asks for.
pub open spec fn requested_queues(
    capacity: NicQueueCapacity,
    local: nat,
    maximum: u16,
    selection: QueueSelection,
) -> int {
    match selection {
        QueueSelection::Auto => least(least(capacity.receive as int, local as int), maximum as int),
        QueueSelection::Explicit(n) => n as int,
    }
}

/// Why queues cannot be planned, if they cannot.
pub open spec fn planning_fault(
    node: i32,
    capacity: NicQueueCapacity,
    cpus: Seq<DataPlaneCpu>,
    maximum: u16,
    selection: QueueSelection,
) -> Option<Seq<char>> {
    let local = local_cpus(cpus, node);
    let requested = requested_queues(capacity, local.len(), maximum, selection);
    if capacity.receive == 0 || capacity.transmit == 0 || maximum == 0 {
        Some("NIC queue capacity and configured maximum must be non-zero"@)
    } else if !local.no_duplicates() {
        Some("available data-plane CPU IDs must be unique"@)
    } else if requested == 0 {
        Some("no same-NUMA data-plane CPU is available"@)
    } else if requested > capacity.receive || requested > maximum || requested > local.len() {
        Some("requested RX queues exceed NIC, configured, or same-NUMA CPU capacity"@)
    } else {
        None
    }
}

/// Whether a sequence of processors is sorted.
pub open spec fn ascending(s: Seq<u32>) -> bool {
    forall|i: int, j: int| 0 <= i <= j < s.len() ==> s[i] <= s[j]
}

/// Inserts a number into sorted numbers.
fn insert_ascending(v: &mut Vec<u32>, n: u32)
    requires
        ascending(old(v)@),
    ensures
        ascending(final(v)@),
        final(v)@.to_multiset() == old(v)@.to_multiset().insert(n),
        final(v)@.len() == old(v)@.len() + 1,
{
    let mut at: usize = 0;
    let ghost before = v@;
    while at < v.len() && v[at] < n
        invariant
            v@ == before,
            ascending(before),
            at <= v@.len(),
            forall|j: int| 0 <= j < at ==> v@[j] < n,
        decreases v@.len() - at,
    {
        at += 1;
    }
    v.insert(at, n);
    proof {
        vstd::seq_lib::to_multiset_insert(before, at as int, n);
        let after = v@;
        assert(after == before.insert(at as int, n));
        assert forall|i: int, j: int| 0 <= i <= j < after.len() implies after[i] <= after[j] by {
            let x = if i < at {
                before[i]
            } else if i == at {
                n
            } else {
                before[i - 1]
            };
            let y = if j < at {
                before[j]
            } else if j == at {
                n
            } else {
                before[j - 1]
            };
            assert(after[i] == x && after[j] == y);
            if i == at && j > at {
                assert(before[at as int] >= n);
                assert(before[at as int] <= before[j - 1]);
            }
        }
    }
}

/// How queues are planned: the smallest near processors take the queues in rising order.
pub open spec fn planned(
    node: i32,
    capacity: NicQueueCapacity,
    cpus: Seq<DataPlaneCpu>,
    maximum: u16,
    selection: QueueSelection,
    r: Result<QueuePlan, NetToolError>,
) -> bool {
    let fault = planning_fault(node, capacity, cpus, maximum, selection);
    let local = local_cpus(cpus, node);
    let requested = requested_queues(capacity, local.len(), maximum, selection);
    match r {
        Ok(plan) => {
            &&& fault is None
            &&& plan_fault(plan) is None
            &&& plan.numa_node == node
            &&& plan.rx_queues == requested
            &&& plan.tx_queues == least(requested, capacity.transmit as int)
            &&& exists|sorted: Seq<u32>| #[trigger]
                ascending(sorted) && sorted.to_multiset() == local.to_multiset() && sorted.len()
                    == local.len() && forall|i: int|
                    0 <= i < requested ==> (#[trigger] plan.rx_assignments@[i]).logical_cpu
                        == sorted[i]
        },
        Err(e) => fault is Some && e.is(ErrorCode::InvalidArgument, fault->0, false),
    }
}

/// Assigns queues to near processors, one processor to each queue, in rising order.
///
/// The processors must be those that are left after the system, control, storage and other
/// sessions have taken theirs.
///
/// # Errors
///
/// Fails when a capacity is zero, a processor occurs twice on the node or the queues exceed
/// the hardware, the configuration or the near processors.
pub fn plan_queues(
    nic_numa_node: i32,
    nic_capacity: NicQueueCapacity,
    available_cpus: &[DataPlaneCpu],
    configured_maximum: u16,
    selection: QueueSelection,
) -> (r: Result<QueuePlan, NetToolError>)
    ensures
        planned(
            nic_numa_node,
            nic_capacity,
            available_cpus@,
            configured_maximum,
            selection,
            r,
        ),
{
    if nic_capacity.receive == 0 || nic_capacity.transmit == 0 || configured_maximum == 0 {
        return Err(invalid("NIC queue capacity and configured maximum must be non-zero"));
    }
    let ghost local = local_cpus(available_cpus@, nic_numa_node);
    let mut sorted: Vec<u32> = Vec::new();
    let mut i: usize = 0;
    while i < available_cpus.len()
        invariant
            i <= available_cpus@.len(),
            ascending(sorted@),
            sorted@.to_multiset() == local_cpus(
                available_cpus@.take(i as int),
                nic_numa_node,
            ).to_multiset(),
            sorted@.len() == local_cpus(available_cpus@.take(i as int), nic_numa_node).len(),
        decreases available_cpus@.len() - i,
    {
        proof {
            let t = available_cpus@.take(i + 1);
            assert(t.drop_last() == available_cpus@.take(i as int));
            assert(t.last() == available_cpus@[i as int]);
            local_cpus(t.drop_last(), nic_numa_node).to_multiset_ensures();
        }
        if available_cpus[i].numa_node == nic_numa_node {
            insert_ascending(&mut sorted, available_cpus[i].logical_id);
        }
        i += 1;
    }
    proof {
        assert(available_cpus@.take(i as int) == available_cpus@);
    }
    let mut k: usize = 1;
    while k < sorted.len()
        invariant
            1 <= k,
            nic_capacity.receive != 0,
            nic_capacity.transmit != 0,
            configured_maximum != 0,
            local == local_cpus(available_cpus@, nic_numa_node),
            ascending(sorted@),
            sorted@.to_multiset() == local.to_multiset(),
            sorted@.len() == local.len(),
            forall|a: int, b: int|
                0 <= a < b < k && b < sorted@.len() ==> sorted@[a] < sorted@[b],
        decreases sorted@.len() - k,
    {
        if sorted[k - 1] == sorted[k] {
            proof {
                assert(sorted@[k - 1] == sorted@[k as int]);
                lemma_same_multiset_distinct(sorted@, local);
            }
            return Err(invalid("available data-plane CPU IDs must be unique"));
        }
        proof {
            assert(sorted@[k - 1] < sorted@[k as int]);
        }
        k += 1;
    }
    proof {
        assert(sorted@.no_duplicates());
        lemma_same_multiset_distinct(sorted@, local);
    }
    let count: usize = sorted.len();
    let requested: usize = match selection {
        QueueSelection::Auto => {
            let mut n: usize = nic_capacity.receive as usize;
            if count < n {
                n = count;
            }
            if (configured_maximum as usize) < n {
                n = configured_maximum as usize;
            }
            n
        },
        QueueSelection::Explicit(value) => value as usize,
    };
    if requested == 0 {
        return Err(invalid("no same-NUMA data-plane CPU is available"));
    }
    if requested > nic_capacity.receive as usize || requested > configured_maximum as usize
        || requested > count {
        return Err(
            invalid("requested RX queues exceed NIC, configured, or same-NUMA CPU capacity"),
        );
    }
    let transmit: u16 = if requested <= nic_capacity.transmit as usize {
        requested as u16
    } else {
        nic_capacity.transmit
    };
    let mut assignments: Vec<RxQueueAssignment> = Vec::new();
    let mut q: usize = 0;
    while q < requested
        invariant
            q <= requested <= sorted@.len(),
            requested <= u16::MAX,
            assignments@.len() == q,
            forall|j: int|
                0 <= j < q ==> (#[trigger] assignments@[j]).queue_id == j
                    && assignments@[j].logical_cpu == sorted@[j],
        decreases requested - q,
    {
        assignments.push(RxQueueAssignment { queue_id: q as u16, logical_cpu: sorted[q] });
        q += 1;
    }
    let plan = QueuePlan {
        numa_node: nic_numa_node,
        rx_queues: requested as u16,
        tx_queues: transmit,
        rx_assignments: assignments,
    };
    proof {
        assert(owners_unique(plan.rx_assignments@));
        assert(queues_contiguous(plan.rx_assignments@));
        assert(ascending(sorted@));
    }
    Ok(plan)
}

/// Two sequences with the same elements are both without duplicates, or both not.
proof fn lemma_same_multiset_distinct(a: Seq<u32>, b: Seq<u32>)
    requires
        a.to_multiset() == b.to_multiset(),
    ensures
        a.no_duplicates() <==> b.no_duplicates(),
{
    if a.no_duplicates() {
        lemma_distinct_of_multiset(a, b);
    }
    if b.no_duplicates() {
        lemma_distinct_of_multiset(b, a);
    }
}

proof fn lemma_distinct_of_multiset(a: Seq<u32>, b: Seq<u32>)
    requires
        a.to_multiset() == b.to_multiset(),
        a.no_duplicates(),
    ensures
        b.no_duplicates(),
{
    a.lemma_multiset_has_no_duplicates();
    assert forall|x: u32| b.to_multiset().contains(x) implies b.to_multiset().count(x) == 1 by {
        assert(a.to_multiset().contains(x));
    }
    b.lemma_multiset_has_no_duplicates_conv();
}

/// What determines the size of a packet buffer pool.
#[derive(Clone, Copy, Debug, PartialEq, Eq, Structural)]
pub struct MbufPoolSizing {
    /// The number of receive queues.
    pub rx_queues: u32,
    /// The descriptors of each receive queue.
    pub rx_descriptors_per_queue: u32,
    /// The number of transmit queues.
    pub tx_queues: u32,
    /// The descriptors of each transmit queue.
    pub tx_descriptors_per_queue: u32,
    /// The largest burst of a worker.
    pub burst_size: u32,
    /// The bursts that are in the pipeline at once.
    pub pipeline_depth: u32,
    /// The buffers that capturing holds at most.
    pub capture_buffers: u64,
    /// The reserve.
    pub safety_margin: u64,
}

/// The buffers in flight through the pipeline.
pub open spec fn in_flight(s: MbufPoolSizing) -> nat {
    let queues = if s.rx_queues >= s.tx_queues {
        s.rx_queues
    } else {
        s.tx_queues
    };
    queues as nat * s.burst_size as nat * s.pipeline_depth as nat
}

/// The buffers that a pool needs: all descriptors, all bursts in flight, the captured ones
/// and the reserve.
pub open spec fn pool_size(s: MbufPoolSizing) -> nat {
    s.rx_queues as nat * s.rx_descriptors_per_queue as nat + s.tx_queues as nat
        * s.tx_descriptors_per_queue as nat + in_flight(s) + s.capture_buffers as nat
        + s.safety_margin as nat
}

/// Why a pool cannot be sized, if it cannot.
pub open spec fn sizing_fault(s: MbufPoolSizing) -> Option<Seq<char>> {
    if s.rx_queues == 0 || s.rx_descriptors_per_queue == 0 || s.tx_queues == 0
        || s.tx_descriptors_per_queue == 0 || s.burst_size == 0 || s.pipeline_depth == 0
        || s.safety_margin == 0 {
        Some("mbuf sizing inputs must be non-zero"@)
    } else if in_flight(s) > u64::MAX {
        Some("pipeline capacity overflow"@)
    } else if pool_size(s) > u64::MAX {
        Some("mbuf pool capacity overflow"@)
    } else {
        None
    }
}

/// Computes the size of a packet buffer pool.
///
/// # Errors
///
/// Fails when a necessary number is zero or the size exceeds 64 bits.
pub fn required_mbufs(sizing: MbufPoolSizing) -> (r: Result<u64, NetToolError>)
    ensures
        match r {
            Ok(n) => sizing_fault(sizing) is None && n == pool_size(sizing),
            Err(e) => sizing_fault(sizing) is Some && e.is(
                ErrorCode::InvalidArgument,
                sizing_fault(sizing)->0,
                false,
            ),
        },
{
    if sizing.rx_queues == 0 || sizing.rx_descriptors_per_queue == 0 || sizing.tx_queues == 0
        || sizing.tx_descriptors_per_queue == 0 || sizing.burst_size == 0
        || sizing.pipeline_depth == 0 || sizing.safety_margin == 0 {
        return Err(invalid("mbuf sizing inputs must be non-zero"));
    }
    proof {
        lemma_product(sizing.rx_queues, sizing.rx_descriptors_per_queue);
        lemma_product(sizing.tx_queues, sizing.tx_descriptors_per_queue);
    }
    let rx: u64 = sizing.rx_queues as u64 * sizing.rx_descriptors_per_queue as u64;
    let tx: u64 = sizing.tx_queues as u64 * sizing.tx_descriptors_per_queue as u64;
    let queues: u32 = if sizing.rx_queues >= sizing.tx_queues {
        sizing.rx_queues
    } else {
        sizing.tx_queues
    };
    proof {
        lemma_product(queues, sizing.burst_size);
    }
    let bursts: u64 = queues as u64 * sizing.burst_size as u64;
    let flight: u64 = match bursts.checked_mul(sizing.pipeline_depth as u64) {
        Some(n) => n,
        None => {
            return Err(invalid("pipeline capacity overflow"));
        },
    };
    let total: u128 = rx as u128 + tx as u128 + flight as u128 + sizing.capture_buffers as u128
        + sizing.safety_margin as u128;
    if total > 0xffff_ffff_ffff_ffff {
        return Err(invalid("mbuf pool capacity overflow"));
    }
    Ok(total as u64)
}

proof fn lemma_product(a: u32, b: u32)
    ensures
        0 <= a * b <= u64::MAX,
{
    assert(0 <= a * b <= 0xffff_ffff * 0xffff_ffff) by (nonlinear_arith)
        requires
            0 <= a <= 0xffff_ffff,
            0 <= b <= 0xffff_ffff,
    ;
}

fn invalid(message: &str) -> (r: NetToolError)
    ensures
        r.is(ErrorCode::InvalidArgument, message@, false),
{
    NetToolError::new(ErrorCode::InvalidArgument, message, false)
}

/// Every plan keeps to what it was made from: it uses near processors only, never more
/// queues than the hardware, the configuration or the processors allow, and each processor
/// once.
pub proof fn law_planned_cpus_are_local(
    plan: QueuePlan,
    sorted: Seq<u32>,
    cpus: Seq<DataPlaneCpu>,
    node: i32,
    i: int,
)
    requires
        ascending(sorted),
        sorted.to_multiset() == local_cpus(cpus, node).to_multiset(),
        0 <= i < plan.rx_assignments@.len() <= sorted.len(),
        plan.rx_assignments@[i].logical_cpu == sorted[i],
    ensures
        exists|k: int|
            0 <= k < cpus.len() && (#[trigger] cpus[k]).numa_node == node && cpus[k].logical_id
                == plan.rx_assignments@[i].logical_cpu,
{
    let local = local_cpus(cpus, node);
    sorted.to_multiset_ensures();
    local.to_multiset_ensures();
    assert(sorted.contains(sorted[i]));
    assert(sorted.to_multiset().contains(sorted[i]));
    assert(local.contains(sorted[i]));
    lemma_local_member(cpus, node, sorted[i]);
}

proof fn lemma_local_member(cpus: Seq<DataPlaneCpu>, node: i32, id: u32)
    requires
        local_cpus(cpus, node).contains(id),
    ensures
        exists|k: int|
            0 <= k < cpus.len() && (#[trigger] cpus[k]).numa_node == node && cpus[k].logical_id
                == id,
    decreases cpus.len(),
{
    let before = local_cpus(cpus.drop_last(), node);
    if before.contains(id) {
        lemma_local_member(cpus.drop_last(), node, id);
        let k = choose|k: int|
            0 <= k < cpus.drop_last().len() && (#[trigger] cpus.drop_last()[k]).numa_node == node
                && cpus.drop_last()[k].logical_id == id;
        assert(cpus[k] == cpus.drop_last()[k]);
    } else {
        let all = local_cpus(cpus, node);
        let m = choose|m: int| 0 <= m < all.len() && all[m] == id;
        if m < before.len() {
            assert(before[m] == id);
        }
        assert(cpus[cpus.len() - 1] == cpus.last());
    }
}

} // verus!
