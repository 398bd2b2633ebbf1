//! What holds of packets that are received and sent through the DPDK runtime.

use crate::dpdk;
use crate::dpdk::executor;
use crate::dpdk::executor::Duration;
use crate::dpdk::native::Session;
use crate::dpdk_safe;
use crate::dpdk_safe::native;
use crate::dpdk_safe::native::{BurstReply, RxQueue, TxQueue, XstatsReply};
use crate::dpdk_safe::runtime::RuntimeStep;
use crate::dpdk_safe::{RxDescriptor, XStat};
use crate::error::NetToolError;
use vstd::prelude::*;

verus! {

// ----------------------------------------------------------------------------------- receiving

/// What is handed over of a packet is what the driver says of it, and the queue that it came
/// from.
pub proof fn law_what_is_said_of_packets(queue_id: u16, d: RxDescriptor)
    ensures
        native::metadata_of(queue_id, d).packet_length == d.packet_len,
        native::metadata_of(queue_id, d).captured_length == d.data_len,
        native::metadata_of(queue_id, d).queue_id == queue_id,
        native::metadata_of(queue_id, d).rss_hash == d.rss_hash,
        native::metadata_of(queue_id, d).offload_flags == d.offload_flags,
{
}

/// Packets are handed over one behind the other, each once, and the buffer of each is freed
/// right behind that.
pub proof fn law_packets_are_handed_over_and_freed(
    queue_id: u16,
    reply: BurstReply,
    n: int,
    i: int,
)
    requires
        0 <= i < n <= 0xffff,
        n <= reply.packets@.len(),
    ensures
        native::hands_of(queue_id, reply, n).len() == 2 * n,
        native::hands_of(queue_id, reply, n)[2 * i] == RuntimeStep::Hand(
            i as usize,
            native::metadata_of(queue_id, reply.packets@[i]),
        ),
        native::hands_of(queue_id, reply, n)[2 * i + 1] == RuntimeStep::FreeBuffer(i as usize),
    decreases n,
{
    lemma_hands_len(queue_id, reply, n - 1);
    if i < n - 1 {
        law_packets_are_handed_over_and_freed(queue_id, reply, n - 1, i);
    }
}

proof fn lemma_hands_len(queue_id: u16, reply: BurstReply, n: int)
    requires
        0 <= n,
    ensures
        native::hands_of(queue_id, reply, n).len() == 2 * n,
    decreases n,
{
    if n > 0 {
        lemma_hands_len(queue_id, reply, n - 1);
    }
}

/// Where packets are given up, every buffer among them is freed, and nothing else is done.
pub proof fn law_buffers_that_are_given_up(reply: BurstReply, from: int, to: int, i: int)
    requires
        0 <= from <= to <= 0xffff,
    ensures
        from <= i < to && native::packet_at(reply, i).has_buffer ==> native::frees_of(
            reply,
            from,
            to,
        ).contains(RuntimeStep::FreeBuffer(i as usize)),
        0 <= i < native::frees_of(reply, from, to).len() ==> (native::frees_of(reply, from, to)[i]
            matches RuntimeStep::FreeBuffer(k) && from <= k < to && native::packet_at(
            reply,
            k as int,
        ).has_buffer),
    decreases to - from,
{
    if from < to {
        law_buffers_that_are_given_up(reply, from, to - 1, i);
        let before = native::frees_of(reply, from, to - 1);
        let all = native::frees_of(reply, from, to);
        if from <= i < to && native::packet_at(reply, i).has_buffer {
            let step = RuntimeStep::FreeBuffer(i as usize);
            if i < to - 1 {
                let k = choose|k: int| 0 <= k < before.len() && before[k] == step;
                assert(all[k] == step);
            } else {
                assert(all[before.len() as int] == step);
            }
        }
    }
}

/// A burst succeeds only where every packet of it makes sense, and says how many were received.
/// It fails at the first that does not; those before it were handed over.
pub proof fn law_bursts_that_are_received(
    from: Seq<RuntimeStep>,
    to: Seq<RuntimeStep>,
    queue: RxQueue,
    r: Result<usize, NetToolError>,
)
    requires
        native::burst_received(from, to, queue, r),
    ensures
        to.len() > from.len(),
        to.take(from.len() as int) == from,
        to[from.len() as int] matches RuntimeStep::Receive(port, id, capacity, reply) && {
            &&& port == queue.port_id()
            &&& id == queue.queue_id()
            &&& capacity == queue.capacity()
            &&& r matches Ok(n) ==> {
                &&& n == reply.received
                &&& reply.received <= queue.capacity()
                &&& forall|i: int|
                    0 <= i < n ==> {
                        let d = #[trigger] native::packet_at(reply, i);
                        d.has_buffer && d.data_len <= d.packet_len && (d.data_len > 0 ==> d.has_data)
                    }
            }
            &&& r is Err ==> reply.received > queue.capacity() || exists|i: int|
                0 <= i < reply.received && {
                    let d = #[trigger] native::packet_at(reply, i);
                    !d.has_buffer || d.data_len > d.packet_len || (d.data_len > 0 && !d.has_data)
                }
        },
{
    let reply = choose|reply: BurstReply|
        {
            let behind = #[trigger] from.push(
                RuntimeStep::Receive(queue.port_id(), queue.queue_id(), queue.capacity(), reply),
            );
            if reply.received > queue.capacity() {
                to == behind && native::refused(r, "DPDK RX burst exceeded configured capacity"@)
            } else {
                native::taken(behind, to, queue.queue_id(), reply, r)
            }
        };
    let behind = from.push(
        RuntimeStep::Receive(queue.port_id(), queue.queue_id(), queue.capacity(), reply),
    );
    assert(to.take(from.len() as int) =~= from);
    assert(to[from.len() as int] == behind[from.len() as int]);
}

/// Statistics are taken exactly where the driver gave as many as it had announced, with a name
/// of 128 bytes for each.
pub proof fn law_statistics_that_are_whole(reply: XstatsReply, count: i32)
    ensures
        native::holds_all(reply, count) <==> reply.result == count && reply.values@.len() == count
            && reply.names@.len() == 128 * count,
{
}

/// Every statistic has the name and the value that stand at its place.
pub proof fn law_statistics_keep_their_places(
    names: Seq<u8>,
    values: Seq<u64>,
    stats: Vec<XStat>,
    i: int,
)
    requires
        dpdk_safe::decoded(names, values, Ok::<Vec<XStat>, NetToolError>(stats)),
        0 <= i < values.len(),
    ensures
        stats@.len() == values.len(),
        stats@[i].value == values[i],
        vstd::utf8::encode_utf8(stats@[i].name@) == dpdk_safe::until_zero(
            names.subrange(128 * i, 128 * i + 128),
        ),
{
    assert(vstd::utf8::encode_utf8(stats@[i].name@) == dpdk_safe::xstat_name(names, i));
}

// ------------------------------------------------------------------------------------- sending

/// A frame is sent only where it has between one and 65535 bytes and between one and 256 copies
/// are asked for; then the driver is asked once, for that frame and that many copies.
pub proof fn law_bursts_that_are_sent(
    from: Seq<RuntimeStep>,
    to: Seq<RuntimeStep>,
    queue: TxQueue,
    frame: Seq<u8>,
    count: u16,
    r: Result<u16, NetToolError>,
)
    requires
        native::burst_sent(from, to, queue, frame, count, r),
    ensures
        1 <= frame.len() <= 65535 && 1 <= count <= 256 ==> to.len() > from.len() && (
        to[from.len() as int] matches RuntimeStep::Send(port, id, pool, sent, copies, result)
            && port == queue.port_id() && id == queue.queue_id() && pool == queue.pool() && sent
            == frame && copies == count && (r matches Ok(n) ==> n == result) && (0 <= result
            <= 65535 <==> r is Ok)),
        !(1 <= frame.len() <= 65535 && 1 <= count <= 256) ==> to == from && r is Err,
{
    if 1 <= frame.len() <= 65535 && 1 <= count <= 256 {
        let result = choose|result: i32|
            {
                let behind = #[trigger] from.push(native::burst_step(queue, frame, count, result));
                if result < 0 {
                    r matches Err(e) && native::failed(
                        behind,
                        to,
                        "DPDK TX burst failed"@,
                        dpdk_safe::error_number(result),
                        e,
                    )
                } else if result > u16::MAX {
                    to == behind && native::refused(r, "DPDK TX result exceeds u16 capacity"@)
                } else {
                    to == behind && r == Ok::<u16, NetToolError>(result as u16)
                }
            };
        let behind = from.push(native::burst_step(queue, frame, count, result));
        assert(to[from.len() as int] == behind[from.len() as int]);
    }
}

/// Sending asks for what is left at every burst, at most 64 packets at once, and goes on only
/// while packets are left and the driver accepts some.
pub proof fn law_sending_goes_on(
    queue: TxQueue,
    frame: Seq<u8>,
    packets: u64,
    accepted: Seq<u16>,
    i: int,
)
    requires
        dpdk::native::is_progress(packets, accepted),
        0 <= i < accepted.len(),
    ensures
        accepted[i] > 0,
        executor::total_of(accepted.take(i)) < packets,
        dpdk::native::bursts_of(queue, frame, packets, accepted).len() == accepted.len(),
        dpdk::native::bursts_of(queue, frame, packets, accepted)[i] matches RuntimeStep::Send(
            port,
            id,
            pool,
            sent,
            copies,
            result,
        ) && port == queue.port_id() && id == queue.queue_id() && pool == queue.pool() && sent
            == frame && 1 <= copies <= 64 && executor::total_of(accepted.take(i)) + copies
            <= packets && result == accepted[i],
    decreases accepted.len(),
{
    let before = accepted.drop_last();
    dpdk::planning_laws::law_packets_are_added_up(before, accepted.last());
    lemma_bursts_len(queue, frame, packets, before);
    if i < accepted.len() - 1 {
        law_sending_goes_on(queue, frame, packets, before, i);
        assert(before.take(i) =~= accepted.take(i));
    } else {
        assert(before =~= accepted.take(i));
        let total = executor::total_of(before);
        dpdk::planning_laws::law_bursts(packets, total as u64);
    }
}

proof fn lemma_bursts_len(queue: TxQueue, frame: Seq<u8>, packets: u64, accepted: Seq<u16>)
    ensures
        dpdk::native::bursts_of(queue, frame, packets, accepted).len() == accepted.len(),
    decreases accepted.len(),
{
    if accepted.len() > 0 {
        lemma_bursts_len(queue, frame, packets, accepted.drop_last());
    }
}

// -------------------------------------------------------------------------------------- time

/// A time is shorter than another exactly where it has fewer nanoseconds in all.
pub proof fn law_shorter_times(a: Duration, b: Duration)
    requires
        a.nanoseconds < 1_000_000_000,
        b.nanoseconds < 1_000_000_000,
    ensures
        a.below(b) <==> a.seconds * 1_000_000_000 + a.nanoseconds < b.seconds * 1_000_000_000
            + b.nanoseconds,
{
}

/// Receiving goes on exactly until the time is over: every packet burst began before that, and
/// the packets of all bursts are counted.
pub proof fn law_receiving_lasts(
    from: Seq<RuntimeStep>,
    to: Seq<RuntimeStep>,
    queue: RxQueue,
    duration: Duration,
    n: u64,
    times: Seq<Duration>,
    replies: Seq<BurstReply>,
    i: int,
)
    requires
        dpdk::native::received_by(
            from,
            to,
            queue,
            duration,
            Ok::<u64, NetToolError>(n),
            times,
            replies,
        ),
        replies.len() < 0xffff_ffff_ffff_ffff,
    ensures
        n == dpdk::native::sum_of(replies),
        times.len() == replies.len(),
        0 <= i < times.len() ==> times[i].seconds < duration.seconds || (times[i].seconds
            == duration.seconds && times[i].nanoseconds < duration.nanoseconds),
        to.last() matches RuntimeStep::Elapsed(time) && (time.seconds > duration.seconds || (
        time.seconds == duration.seconds && time.nanoseconds >= duration.nanoseconds)),
        0 <= i < replies.len() ==> replies[i].received <= queue.capacity(),
{
}

/// The packets of bursts are added up, each of them once, as long as the sum fits 64 bits.
pub proof fn law_received_packets_are_added_up(replies: Seq<BurstReply>, reply: BurstReply)
    ensures
        dpdk::native::sum_of(Seq::empty()) == 0,
        dpdk::native::sum_of(replies) + reply.received <= 0xffff_ffff_ffff_ffff
            ==> dpdk::native::sum_of(replies.push(reply)) == dpdk::native::sum_of(replies)
            + reply.received,
{
    assert(replies.push(reply).drop_last() =~= replies);
}

// ------------------------------------------------------------------------------------ sessions

/// A session is closed in the reverse of the order in which it was opened: the port, its pool,
/// the runtime, and last the process gives the runtime up.
pub proof fn law_sessions_are_closed_in_reverse(from: Seq<RuntimeStep>, session: Session)
    ensures
        dpdk::native::session_closed(from, session) == from + seq![
            RuntimeStep::ClosePort(session.port_id()),
            RuntimeStep::FreePool(session.pool().address()),
            RuntimeStep::Cleanup,
            RuntimeStep::Release,
        ],
{
    assert(dpdk::native::session_closed(from, session) =~= from + seq![
        RuntimeStep::ClosePort(session.port_id()),
        RuntimeStep::FreePool(session.pool().address()),
        RuntimeStep::Cleanup,
        RuntimeStep::Release,
    ]);
}

/// Packets are sent and received through the first queue of the port of the session; received
/// ones come in bursts of at most 64.
pub proof fn law_first_queues(tx: TxQueue, rx: RxQueue, session: Session)
    ensures
        dpdk::native::is_first_tx(tx, session) <==> tx.port_id() == session.port_id()
            && tx.queue_id() == 0 && tx.pool() == session.pool().address(),
        dpdk::native::is_first_rx(rx, session) <==> rx.port_id() == session.port_id()
            && rx.queue_id() == 0 && rx.capacity() == 64,
{
}

} // verus!
