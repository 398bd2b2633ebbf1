//! What holds of rings that are shared with the kernel.

use crate::af_xdp::mapping;
use crate::af_xdp::mapping::{RingView, XdpDescriptor};
use crate::af_xdp::{AfXdpError, UmemRegion};
use crate::numbers;
use crate::octets;
use vstd::prelude::*;

verus! {

/// Counters of 32 bits run on and begin anew behind the largest number: one that was moved is
/// ahead by as much as it was moved.
pub proof fn law_counters_begin_anew(counter: u32, by: nat)
    requires
        by <= 0xffff_ffff,
    ensures
        numbers::ahead(numbers::moved(counter, by), counter) == by,
        numbers::ahead(counter, counter) == 0,
        counter + by <= 0xffff_ffff ==> numbers::moved(counter, by) == counter + by,
        counter + by > 0xffff_ffff ==> numbers::moved(counter, by) == counter + by - 0x1_0000_0000,
{
}

/// How a descriptor lies in memory: eight bytes of the address, four of the length and four of
/// the options, each the lowest first.
pub proof fn law_layout_of_descriptors(d: XdpDescriptor)
    ensures
        mapping::descriptor_bytes(d).len() == 16,
        mapping::descriptor_bytes(d).take(8) == octets::le64(d.address),
        mapping::descriptor_bytes(d).subrange(8, 12) == octets::le32(d.length),
        mapping::descriptor_bytes(d).subrange(12, 16) == octets::le32(d.options),
{
    let b = mapping::descriptor_bytes(d);
    assert(b.take(8) =~= octets::le64(d.address));
    assert(b.subrange(8, 12) =~= octets::le32(d.length));
    assert(b.subrange(12, 16) =~= octets::le32(d.options));
}

/// What a number of 32 bits is in memory: four bytes, the lowest first.
pub proof fn law_numbers_in_memory(n: u32)
    ensures
        octets::le32(n).len() == 4,
        octets::le32(n)[0] + octets::le32(n)[1] * 0x100 + octets::le32(n)[2] * 0x1_0000
            + octets::le32(n)[3] * 0x100_0000 == n,
{
}

/// Descriptors lie sixteen bytes apart behind the place where they begin; one can be reached
/// exactly where the ring has it and it lies in the mapped memory.
pub proof fn law_places_of_descriptors(v: RingView, slot: u32)
    requires
        v.bytes.len() <= usize::MAX,
    ensures
        v.place(slot) == v.offsets.descriptor + 16 * slot,
        v.slot_fault(slot) is None <==> slot < v.entries && v.offsets.descriptor + 16 * slot + 16
            <= v.bytes.len(),
        v.index_fault(v.offsets.producer) is None <==> v.offsets.producer + 4 <= v.bytes.len(),
        v.index_fault(v.offsets.consumer) is None <==> v.offsets.consumer + 4 <= v.bytes.len(),
{
}

/// What waits in a ring and what it has room for make up the ring; as many wait as were put in
/// and not taken out.
pub proof fn law_what_waits_and_what_is_free(v: RingView)
    ensures
        v.available() + v.free() == v.entries,
        numbers::ahead(v.producer(), v.consumer()) <= v.entries ==> v.available()
            == numbers::ahead(v.producer(), v.consumer()),
        numbers::ahead(v.producer(), v.consumer()) >= v.entries ==> v.free() == 0,
{
}

/// Taking out takes what waits, as far as there is room for it, in the order in which it was put
/// in, and moves the counter by that much. Where it fails, the ring stays as it is.
pub proof fn law_taking_out(
    before: RingView,
    after: RingView,
    umem: Option<UmemRegion>,
    room: Seq<XdpDescriptor>,
    output: Seq<XdpDescriptor>,
    r: Result<usize, AfXdpError>,
    i: int,
)
    requires
        mapping::taken(before, after, umem, room, output, r),
        room.len() <= usize::MAX,
    ensures
        r is Err ==> after == before,
        output.len() == room.len(),
        r matches Ok(n) ==> {
            &&& n <= before.available() && n <= room.len()
            &&& n == before.available() || n == room.len()
            &&& 0 <= i < n ==> output[i] == before.descriptor(
                (numbers::moved(before.consumer(), i as nat) as int % before.entries as int) as u32,
            )
            &&& n <= i < room.len() ==> output[i] == room[i]
            &&& n == 0 ==> after == before
            &&& n > 0 ==> after == before.with_index(
                before.offsets.consumer,
                numbers::moved(before.consumer(), n as nat),
            )
        },
{
}

/// Putting in puts as many as there is room for, and moves the counter by that much.
pub proof fn law_putting_in(
    before: RingView,
    after: RingView,
    items: Seq<Result<XdpDescriptor, Seq<char>>>,
    r: Result<usize, AfXdpError>,
)
    requires
        mapping::put_in(before, after, items, r),
        items.len() <= usize::MAX,
    ensures
        r matches Ok(n) ==> {
            &&& n <= before.free() && n <= items.len()
            &&& n == before.free() || n == items.len()
            &&& n == 0 ==> after == before
            &&& n > 0 ==> after == mapping::after_writes(
                before,
                items,
                before.producer(),
                n as nat,
            ).with_index(before.offsets.producer, numbers::moved(before.producer(), n as nat))
        },
{
}

/// A packet reaches up to the first descriptor that is not marked as continued; while that is
/// not there yet, there is no packet.
pub proof fn law_packets_end(
    v: RingView,
    umem: Option<UmemRegion>,
    start: u32,
    available: nat,
    i: nat,
    k: int,
)
    requires
        i <= available,
    ensures
        mapping::packet_length(v, umem, start, available, i) matches Ok(Some(n)) ==> {
            &&& i < n <= available
            &&& v.descriptor(v.slot(start, (n - 1) as nat)).options & 2 == 0
            &&& i <= k < n - 1 ==> v.descriptor(v.slot(start, k as nat)).options & 2 != 0
        },
        mapping::packet_length(v, umem, start, available, i) matches Ok(None) ==> (i <= k
            < available ==> v.descriptor(v.slot(start, k as nat)).options & 2 != 0),
    decreases available - i,
{
    if i < available && mapping::read_fault(v, umem, start, i) is None && v.descriptor(
        v.slot(start, i),
    ).options & 2 != 0 {
        law_packets_end(v, umem, start, available, i + 1, k);
    }
}

} // verus!
