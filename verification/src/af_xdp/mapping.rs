//! A ring as it lies in memory that is shared with the kernel.
//!
//! A ring has two counters, of what was put in and of what was taken out, and an array of
//! descriptors. The kernel says where in the mapped memory each of them is; numbers are stored
//! least significant byte first.

use crate::af_xdp;
use crate::af_xdp::{AfXdpError, AfXdpErrorText, UmemRegion};
use crate::numbers;
use crate::numbers::{advance, distance};
use crate::octets;
use crate::octets::{read_le32, read_le64, write_le32, write_le64};
use vstd::arithmetic::div_mod::*;
use vstd::prelude::*;

verus! {

/// The bytes of a descriptor.
pub const DESCRIPTOR_SIZE: usize = 16;

/// Where the parts of a ring are in the mapped memory.
#[derive(Clone, Copy, Debug, PartialEq, Eq, Structural)]
pub struct XdpRingOffset {
    /// The counter of what was put in.
    pub producer: u64,
    /// The counter of what was taken out.
    pub consumer: u64,
    /// The array of descriptors.
    pub descriptor: u64,
    /// The flags.
    pub flags: u64,
}

/// Where the parts of all rings are.
#[derive(Clone, Copy, Debug, PartialEq, Eq, Structural)]
pub struct XdpMmapOffsets {
    /// Of the ring of received packets.
    pub rx: XdpRingOffset,
    /// Of the ring of packets to send.
    pub tx: XdpRingOffset,
    /// Of the ring of free frames.
    pub fill: XdpRingOffset,
    /// Of the ring of sent frames.
    pub completion: XdpRingOffset,
}

/// A packet in the shared memory.
#[derive(Clone, Copy, Debug, PartialEq, Eq, Structural)]
pub struct XdpDescriptor {
    /// Where it begins.
    pub address: u64,
    /// Its bytes.
    pub length: u32,
    /// Options of the kernel.
    pub options: u32,
}

/// The bytes of a descriptor in memory.
pub open spec fn descriptor_bytes(d: XdpDescriptor) -> Seq<u8> {
    octets::le64(d.address) + octets::le32(d.length) + octets::le32(d.options)
}

/// What a mapped ring is: its bytes, where its parts are, and the length of its array.
#[verifier::ext_equal]
pub struct RingView {
    /// The mapped memory.
    pub bytes: Seq<u8>,
    /// Where the parts are.
    pub offsets: XdpRingOffset,
    /// The length of the array.
    pub entries: u32,
}

impl RingView {
    /// What is wrong with the place of a counter.
    pub open spec fn index_fault(self, offset: u64) -> Option<Seq<char>> {
        if offset > usize::MAX {
            Some("ring index offset overflows"@)
        } else if offset + 4 > self.bytes.len() {
            Some("ring index offset exceeds mapping"@)
        } else {
            None
        }
    }

    /// A counter.
    pub open spec fn index(self, offset: u64) -> u32 {
        octets::le_value(self.bytes.subrange(offset as int, offset + 4)) as u32
    }

    /// The ring with another value of a counter.
    pub open spec fn with_index(self, offset: u64, n: u32) -> RingView {
        RingView {
            bytes: octets::written(self.bytes, offset as int, octets::le32(n)),
            offsets: self.offsets,
            entries: self.entries,
        }
    }

    /// What was put in, counted.
    pub open spec fn producer(self) -> u32 {
        self.index(self.offsets.producer)
    }

    /// What was taken out, counted.
    pub open spec fn consumer(self) -> u32 {
        self.index(self.offsets.consumer)
    }

    /// Where a descriptor is.
    pub open spec fn place(self, slot: u32) -> int {
        self.offsets.descriptor + slot * 16
    }

    /// What is wrong with the place of a descriptor.
    pub open spec fn slot_fault(self, slot: u32) -> Option<Seq<char>> {
        if slot >= self.entries {
            Some("descriptor slot exceeds ring capacity"@)
        } else if self.offsets.descriptor > usize::MAX || slot * 16 > usize::MAX || self.place(slot)
            > usize::MAX {
            Some("descriptor offset overflows"@)
        } else if self.place(slot) + 16 > self.bytes.len() {
            Some("descriptor exceeds mapping"@)
        } else {
            None
        }
    }

    /// A descriptor.
    pub open spec fn descriptor(self, slot: u32) -> XdpDescriptor {
        let at = self.place(slot);
        XdpDescriptor {
            address: octets::le_value(self.bytes.subrange(at, at + 8)) as u64,
            length: octets::le_value(self.bytes.subrange(at + 8, at + 12)) as u32,
            options: octets::le_value(self.bytes.subrange(at + 12, at + 16)) as u32,
        }
    }

    /// The ring with another descriptor in a place.
    pub open spec fn with_descriptor(self, slot: u32, d: XdpDescriptor) -> RingView {
        RingView {
            bytes: octets::written(self.bytes, self.place(slot), descriptor_bytes(d)),
            offsets: self.offsets,
            entries: self.entries,
        }
    }

    /// The descriptors that wait to be taken out.
    pub open spec fn available(self) -> nat {
        let n = numbers::ahead(self.producer(), self.consumer());
        if n < self.entries {
            n
        } else {
            self.entries as nat
        }
    }

    /// The room for descriptors.
    pub open spec fn free(self) -> nat {
        (self.entries - self.available()) as nat
    }

    /// What is wrong with the places of the counters, that of what was taken out first.
    pub open spec fn taking_fault(self) -> Option<Seq<char>> {
        match self.index_fault(self.offsets.consumer) {
            Some(message) => Some(message),
            None => self.index_fault(self.offsets.producer),
        }
    }

    /// What is wrong with the places of the counters, that of what was put in first.
    pub open spec fn putting_fault(self) -> Option<Seq<char>> {
        match self.index_fault(self.offsets.producer) {
            Some(message) => Some(message),
            None => self.index_fault(self.offsets.consumer),
        }
    }

    /// The place of the descriptor that is so many behind a counter.
    pub open spec fn slot(self, start: u32, i: nat) -> u32 {
        (numbers::moved(start, i) as int % self.entries as int) as u32
    }

    /// Whether the length of the array is one that the counters can wrap around.
    pub open spec fn wraps(self) -> bool {
        self.entries > 0 && numbers::power_of_two(self.entries as nat)
    }
}

/// What is wrong with a descriptor, where it has to lie within memory that is shared.
pub open spec fn bounds_fault(umem: Option<UmemRegion>, d: XdpDescriptor) -> Option<Seq<char>> {
    match umem {
        None => None,
        Some(umem) => if d.address + d.length > u64::MAX {
            Some("descriptor address overflows"@)
        } else if d.address + d.length > umem.bytes() || d.length > umem.chunk() {
            Some("descriptor exceeds UMEM bounds"@)
        } else {
            None
        },
    }
}

/// Checks that a descriptor lies within the shared memory.
pub fn check_bounds(umem: &UmemRegion, descriptor: XdpDescriptor) -> (r: Result<(), &'static str>)
    ensures
        match r {
            Ok(_) => bounds_fault(Some(*umem), descriptor) is None,
            Err(message) => bounds_fault(Some(*umem), descriptor) == Some(message@),
        },
{
    match descriptor.address.checked_add(descriptor.length as u64) {
        None => Err("descriptor address overflows"),
        Some(end) => {
            if end > umem.length() || descriptor.length > umem.chunk_size() {
                return Err("descriptor exceeds UMEM bounds");
            }
            Ok(())
        },
    }
}

// ------------------------------------------------------------------------------- taking out

/// What is wrong with the descriptor that is so many behind a counter.
pub open spec fn read_fault(v: RingView, umem: Option<UmemRegion>, start: u32, i: nat) -> Option<
    Seq<char>,
> {
    match v.slot_fault(v.slot(start, i)) {
        Some(message) => Some(message),
        None => bounds_fault(umem, v.descriptor(v.slot(start, i))),
    }
}

/// The first of so many descriptors that something is wrong with, and what.
pub open spec fn first_read_fault(
    v: RingView,
    umem: Option<UmemRegion>,
    start: u32,
    n: nat,
) -> Option<(nat, Seq<char>)>
    decreases n,
{
    if n == 0 {
        None
    } else {
        match first_read_fault(v, umem, start, (n - 1) as nat) {
            Some(fault) => Some(fault),
            None => match read_fault(v, umem, start, (n - 1) as nat) {
                Some(message) => Some(((n - 1) as nat, message)),
                None => None,
            },
        }
    }
}

/// The first so many places of an output, filled with the descriptors behind a counter.
pub open spec fn filled(output: Seq<XdpDescriptor>, v: RingView, start: u32, n: nat) -> Seq<
    XdpDescriptor,
> {
    Seq::new(
        output.len(),
        |i: int|
            if i < n {
                v.descriptor(v.slot(start, i as nat))
            } else {
                output[i]
            },
    )
}

/// The smaller of two numbers.
pub open spec fn least(a: nat, b: nat) -> nat {
    if a < b {
        a
    } else {
        b
    }
}

/// Whether descriptors were taken out as they should be.
pub open spec fn taken(
    before: RingView,
    after: RingView,
    umem: Option<UmemRegion>,
    room: Seq<XdpDescriptor>,
    output: Seq<XdpDescriptor>,
    r: Result<usize, AfXdpError>,
) -> bool {
    let count = least(before.available(), room.len());
    match before.taking_fault() {
        Some(message) => {
            &&& af_xdp::refused(r, AfXdpErrorText::InvalidConfig(message))
            &&& after == before
            &&& output == room
        },
        None => match first_read_fault(before, umem, before.consumer(), count) {
            Some((at, message)) => {
                &&& af_xdp::refused(r, AfXdpErrorText::InvalidConfig(message))
                &&& after == before
                &&& output == filled(room, before, before.consumer(), at)
            },
            None => {
                &&& r == Ok::<usize, AfXdpError>(count as usize)
                &&& output == filled(room, before, before.consumer(), count)
                &&& after == if count == 0 {
                    before
                } else {
                    before.with_index(
                        before.offsets.consumer,
                        numbers::moved(before.consumer(), count),
                    )
                }
            },
        },
    }
}

/// The descriptors of the packet that begins behind a counter: every one but the last is
/// marked as continued. Nothing where the last one is not there yet.
pub open spec fn packet_length(
    v: RingView,
    umem: Option<UmemRegion>,
    start: u32,
    available: nat,
    i: nat,
) -> Result<Option<nat>, Seq<char>>
    decreases available - i,
{
    if i >= available {
        Ok(None)
    } else {
        match read_fault(v, umem, start, i) {
            Some(message) => Err(message),
            None => if v.descriptor(v.slot(start, i)).options & 2 == 0 {
                Ok(Some(i + 1))
            } else {
                packet_length(v, umem, start, available, i + 1)
            },
        }
    }
}

/// Whether a packet was taken out as it should be.
pub open spec fn packet_taken(
    before: RingView,
    after: RingView,
    umem: Option<UmemRegion>,
    room: Seq<XdpDescriptor>,
    output: Seq<XdpDescriptor>,
    r: Result<usize, AfXdpError>,
) -> bool {
    let fault = match before.taking_fault() {
        Some(message) => Some(message),
        None => match packet_length(before, umem, before.consumer(), before.available(), 0) {
            Err(message) => Some(message),
            Ok(Some(n)) => if room.len() < n {
                Some("RX output buffer is smaller than multi-buffer packet"@)
            } else {
                None
            },
            Ok(None) => None,
        },
    };
    match fault {
        Some(message) => {
            &&& af_xdp::refused(r, AfXdpErrorText::InvalidConfig(message))
            &&& after == before
            &&& output == room
        },
        None => match packet_length(before, umem, before.consumer(), before.available(), 0) {
            Ok(Some(n)) => {
                &&& r == Ok::<usize, AfXdpError>(n as usize)
                &&& output == filled(room, before, before.consumer(), n)
                &&& after == before.with_index(
                    before.offsets.consumer,
                    numbers::moved(before.consumer(), n),
                )
            },
            _ => {
                &&& r == Ok::<usize, AfXdpError>(0)
                &&& output == room
                &&& after == before
            },
        },
    }
}

/// A packet that is taken out is whole: every descriptor but the last is marked as continued,
/// and the last is not.
pub proof fn law_packets_are_whole(
    v: RingView,
    umem: Option<UmemRegion>,
    start: u32,
    available: nat,
    n: nat,
)
    requires
        packet_length(v, umem, start, available, 0) == Ok::<Option<nat>, Seq<char>>(Some(n)),
    ensures
        0 < n <= available,
        forall|i: nat|
            i < n - 1 ==> (#[trigger] v.descriptor(v.slot(start, i))).options & 2 != 0,
        v.descriptor(v.slot(start, (n - 1) as nat)).options & 2 == 0,
        forall|i: nat| i < n ==> #[trigger] read_fault(v, umem, start, i) is None,
{
    lemma_packet_from(v, umem, start, available, 0, n);
}

proof fn lemma_packet_from(
    v: RingView,
    umem: Option<UmemRegion>,
    start: u32,
    available: nat,
    from: nat,
    n: nat,
)
    requires
        packet_length(v, umem, start, available, from) == Ok::<Option<nat>, Seq<char>>(Some(n)),
    ensures
        from < n <= available,
        forall|i: nat|
            from <= i < n - 1 ==> (#[trigger] v.descriptor(v.slot(start, i))).options & 2 != 0,
        v.descriptor(v.slot(start, (n - 1) as nat)).options & 2 == 0,
        forall|i: nat| from <= i < n ==> #[trigger] read_fault(v, umem, start, i) is None,
    decreases available - from,
{
    if v.descriptor(v.slot(start, from)).options & 2 != 0 {
        lemma_packet_from(v, umem, start, available, from + 1, n);
        assert forall|i: nat| from <= i < n - 1 implies (#[trigger] v.descriptor(
            v.slot(start, i),
        )).options & 2 != 0 by {
            if i == from {
            }
        }
    }
}

// ------------------------------------------------------------------------------- putting in

/// What is wrong with the descriptor that is to be put so many behind a counter.
pub open spec fn write_fault(
    v: RingView,
    items: Seq<Result<XdpDescriptor, Seq<char>>>,
    start: u32,
    i: nat,
) -> Option<Seq<char>> {
    match items[i as int] {
        Err(message) => Some(message),
        Ok(_) => v.slot_fault(v.slot(start, i)),
    }
}

/// The first of so many descriptors that something is wrong with, and what.
pub open spec fn first_write_fault(
    v: RingView,
    items: Seq<Result<XdpDescriptor, Seq<char>>>,
    start: u32,
    n: nat,
) -> Option<(nat, Seq<char>)>
    decreases n,
{
    if n == 0 {
        None
    } else {
        match first_write_fault(v, items, start, (n - 1) as nat) {
            Some(fault) => Some(fault),
            None => match write_fault(v, items, start, (n - 1) as nat) {
                Some(message) => Some(((n - 1) as nat, message)),
                None => None,
            },
        }
    }
}

/// The ring with the first so many descriptors in the places behind a counter.
pub open spec fn after_writes(
    v: RingView,
    items: Seq<Result<XdpDescriptor, Seq<char>>>,
    start: u32,
    n: nat,
) -> RingView
    decreases n,
{
    if n == 0 {
        v
    } else {
        after_writes(v, items, start, (n - 1) as nat).with_descriptor(
            v.slot(start, (n - 1) as nat),
            items[n - 1]->Ok_0,
        )
    }
}

/// Whether descriptors were put in as they should be: as many as there is room for.
pub open spec fn put_in(
    before: RingView,
    after: RingView,
    items: Seq<Result<XdpDescriptor, Seq<char>>>,
    r: Result<usize, AfXdpError>,
) -> bool {
    let count = least(before.free(), items.len());
    match before.putting_fault() {
        Some(message) => {
            &&& af_xdp::refused(r, AfXdpErrorText::InvalidConfig(message))
            &&& after == before
        },
        None => match first_write_fault(before, items, before.producer(), count) {
            Some((at, message)) => {
                &&& af_xdp::refused(r, AfXdpErrorText::InvalidConfig(message))
                &&& after == after_writes(before, items, before.producer(), at)
            },
            None => {
                &&& r == Ok::<usize, AfXdpError>(count as usize)
                &&& after == if count == 0 {
                    before
                } else {
                    after_writes(before, items, before.producer(), count).with_index(
                        before.offsets.producer,
                        numbers::moved(before.producer(), count),
                    )
                }
            },
        },
    }
}

// ----------------------------------------------------------------------------------- a ring

/// A ring in memory that is shared with the kernel.
#[derive(Debug)]
pub struct XdpRingMapping {
    bytes: Vec<u8>,
    offsets: XdpRingOffset,
    entries: u32,
}

impl View for XdpRingMapping {
    type V = RingView;

    closed spec fn view(&self) -> RingView {
        RingView { bytes: self.bytes@, offsets: self.offsets, entries: self.entries }
    }
}

impl XdpRingMapping {
    /// A ring of so many descriptors in memory that was mapped.
    pub fn new(bytes: Vec<u8>, offsets: XdpRingOffset, entries: u32) -> (r: Self)
        ensures
            r@ == (RingView { bytes: bytes@, offsets, entries }),
    {
        XdpRingMapping { bytes, offsets, entries }
    }

    /// The mapped memory.
    pub fn bytes(&self) -> (r: &[u8])
        ensures
            r@ == self@.bytes,
    {
        self.bytes.as_slice()
    }

    /// Takes the mapped memory as the kernel has left it.
    pub fn refresh(&mut self, bytes: Vec<u8>)
        ensures
            final(self)@ == (RingView {
                bytes: bytes@,
                offsets: old(self)@.offsets,
                entries: old(self)@.entries,
            }),
    {
        self.bytes = bytes;
    }

    /// The length of the array.
    pub fn entries(&self) -> (r: u32)
        ensures
            r == self@.entries,
    {
        self.entries
    }

    /// Reads what was put in, counted.
    ///
    /// # Errors
    ///
    /// Fails when the counter is outside the mapped memory.
    pub fn producer_index(&self) -> (r: Result<u32, AfXdpError>)
        ensures
            match self@.index_fault(self@.offsets.producer) {
                None => r == Ok::<u32, AfXdpError>(self@.producer()),
                Some(message) => af_xdp::refused(r, AfXdpErrorText::InvalidConfig(message)),
            },
    {
        self.read_index(self.offsets.producer)
    }

    /// Reads what was taken out, counted.
    ///
    /// # Errors
    ///
    /// Fails when the counter is outside the mapped memory.
    pub fn consumer_index(&self) -> (r: Result<u32, AfXdpError>)
        ensures
            match self@.index_fault(self@.offsets.consumer) {
                None => r == Ok::<u32, AfXdpError>(self@.consumer()),
                Some(message) => af_xdp::refused(r, AfXdpErrorText::InvalidConfig(message)),
            },
    {
        self.read_index(self.offsets.consumer)
    }

    /// Sets what was put in.
    ///
    /// # Errors
    ///
    /// Fails when the counter is outside the mapped memory.
    pub fn publish_producer(&mut self, index: u32) -> (r: Result<(), AfXdpError>)
        ensures
            match old(self)@.index_fault(old(self)@.offsets.producer) {
                None => r is Ok && final(self)@ == old(self)@.with_index(
                    old(self)@.offsets.producer,
                    index,
                ),
                Some(message) => af_xdp::refused(r, AfXdpErrorText::InvalidConfig(message))
                    && final(self)@ == old(self)@,
            },
    {
        self.write_index(self.offsets.producer, index)
    }

    /// Sets what was taken out.
    ///
    /// # Errors
    ///
    /// Fails when the counter is outside the mapped memory.
    pub fn publish_consumer(&mut self, index: u32) -> (r: Result<(), AfXdpError>)
        ensures
            match old(self)@.index_fault(old(self)@.offsets.consumer) {
                None => r is Ok && final(self)@ == old(self)@.with_index(
                    old(self)@.offsets.consumer,
                    index,
                ),
                Some(message) => af_xdp::refused(r, AfXdpErrorText::InvalidConfig(message))
                    && final(self)@ == old(self)@,
            },
    {
        self.write_index(self.offsets.consumer, index)
    }

    /// Reads a descriptor.
    ///
    /// # Errors
    ///
    /// Fails when the ring has no such descriptor or it is outside the mapped memory.
    pub fn read_descriptor(&self, slot: u32) -> (r: Result<XdpDescriptor, AfXdpError>)
        ensures
            match self@.slot_fault(slot) {
                None => r == Ok::<XdpDescriptor, AfXdpError>(self@.descriptor(slot)),
                Some(message) => af_xdp::refused(r, AfXdpErrorText::InvalidConfig(message)),
            },
    {
        let at: usize = match self.descriptor_offset(slot) {
            Ok(at) => at,
            Err(message) => {
                return Err(AfXdpError::InvalidConfig(message.to_owned()));
            },
        };
        let total: usize = self.bytes.len();
        Ok(
            XdpDescriptor {
                address: read_le64(self.bytes.as_slice(), at),
                length: read_le32(self.bytes.as_slice(), at + 8),
                options: read_le32(self.bytes.as_slice(), at + 12),
            },
        )
    }

    /// Writes a descriptor.
    ///
    /// # Errors
    ///
    /// Fails when the ring has no such descriptor or it is outside the mapped memory.
    pub fn write_descriptor(&mut self, slot: u32, descriptor: XdpDescriptor) -> (r: Result<
        (),
        AfXdpError,
    >)
        ensures
            match old(self)@.slot_fault(slot) {
                None => r is Ok && final(self)@ == old(self)@.with_descriptor(slot, descriptor),
                Some(message) => af_xdp::refused(r, AfXdpErrorText::InvalidConfig(message))
                    && final(self)@ == old(self)@,
            },
    {
        let at: usize = match self.descriptor_offset(slot) {
            Ok(at) => at,
            Err(message) => {
                return Err(AfXdpError::InvalidConfig(message.to_owned()));
            },
        };
        let total: usize = self.bytes.len();
        write_le64(&mut self.bytes, at, descriptor.address);
        write_le32(&mut self.bytes, at + 8, descriptor.length);
        write_le32(&mut self.bytes, at + 12, descriptor.options);
        proof {
            assert(self@ =~= old(self)@.with_descriptor(slot, descriptor));
        }
        Ok(())
    }

    fn index_offset(&self, offset: u64) -> (r: Result<usize, &'static str>)
        ensures
            match r {
                Ok(at) => self@.index_fault(offset) is None && at == offset,
                Err(message) => self@.index_fault(offset) == Some(message@),
            },
    {
        if offset > usize::MAX as u64 {
            return Err("ring index offset overflows");
        }
        let at: usize = offset as usize;
        if self.bytes.len() < 4 || at > self.bytes.len() - 4 {
            return Err("ring index offset exceeds mapping");
        }
        Ok(at)
    }

    fn read_index(&self, offset: u64) -> (r: Result<u32, AfXdpError>)
        ensures
            match self@.index_fault(offset) {
                None => r == Ok::<u32, AfXdpError>(self@.index(offset)),
                Some(message) => af_xdp::refused(r, AfXdpErrorText::InvalidConfig(message)),
            },
    {
        match self.index_offset(offset) {
            Ok(at) => Ok(read_le32(self.bytes.as_slice(), at)),
            Err(message) => Err(AfXdpError::InvalidConfig(message.to_owned())),
        }
    }

    fn write_index(&mut self, offset: u64, index: u32) -> (r: Result<(), AfXdpError>)
        ensures
            match old(self)@.index_fault(offset) {
                None => r is Ok && final(self)@ == old(self)@.with_index(offset, index),
                Some(message) => af_xdp::refused(r, AfXdpErrorText::InvalidConfig(message))
                    && final(self)@ == old(self)@,
            },
    {
        match self.index_offset(offset) {
            Ok(at) => {
                write_le32(&mut self.bytes, at, index);
                Ok(())
            },
            Err(message) => Err(AfXdpError::InvalidConfig(message.to_owned())),
        }
    }

    fn descriptor_offset(&self, slot: u32) -> (r: Result<usize, &'static str>)
        ensures
            match r {
                Ok(at) => self@.slot_fault(slot) is None && at == self@.place(slot),
                Err(message) => self@.slot_fault(slot) == Some(message@),
            },
    {
        if slot >= self.entries {
            return Err("descriptor slot exceeds ring capacity");
        }
        if self.offsets.descriptor > usize::MAX as u64 {
            return Err("descriptor offset overflows");
        }
        let base: usize = self.offsets.descriptor as usize;
        let at: usize = match (slot as usize).checked_mul(DESCRIPTOR_SIZE) {
            None => {
                return Err("descriptor offset overflows");
            },
            Some(behind) => match base.checked_add(behind) {
                None => {
                    return Err("descriptor offset overflows");
                },
                Some(at) => at,
            },
        };
        if self.bytes.len() < DESCRIPTOR_SIZE || at > self.bytes.len() - DESCRIPTOR_SIZE {
            return Err("descriptor exceeds mapping");
        }
        Ok(at)
    }

    fn counters(&self, putting: bool) -> (r: Result<(u32, u32), AfXdpError>)
        ensures
            match if putting {
                self@.putting_fault()
            } else {
                self@.taking_fault()
            } {
                None => r == Ok::<(u32, u32), AfXdpError>((self@.producer(), self@.consumer())),
                Some(message) => af_xdp::refused(r, AfXdpErrorText::InvalidConfig(message)),
            },
    {
        if putting {
            match self.producer_index() {
                Err(e) => Err(e),
                Ok(producer) => match self.consumer_index() {
                    Err(e) => Err(e),
                    Ok(consumer) => Ok((producer, consumer)),
                },
            }
        } else {
            match self.consumer_index() {
                Err(e) => Err(e),
                Ok(consumer) => match self.producer_index() {
                    Err(e) => Err(e),
                    Ok(producer) => Ok((producer, consumer)),
                },
            }
        }
    }

    fn waiting(&self, producer: u32, consumer: u32) -> (r: u32)
        requires
            producer == self@.producer(),
            consumer == self@.consumer(),
        ensures
            r == self@.available(),
            r <= self@.entries,
    {
        let n: u32 = distance(producer, consumer);
        if n < self.entries {
            n
        } else {
            self.entries
        }
    }

    fn slot_behind(&self, start: u32, i: u32) -> (r: u32)
        requires
            self@.entries > 0,
        ensures
            r == self@.slot(start, i as nat),
            r < self@.entries,
    {
        advance(start, i) % self.entries
    }

    /// Reads the descriptor that is so many behind a counter and checks it.
    fn read_behind(&self, umem: Option<UmemRegion>, start: u32, i: u32) -> (r: Result<
        XdpDescriptor,
        AfXdpError,
    >)
        requires
            self@.entries > 0,
        ensures
            match read_fault(self@, umem, start, i as nat) {
                None => r == Ok::<XdpDescriptor, AfXdpError>(
                    self@.descriptor(self@.slot(start, i as nat)),
                ),
                Some(message) => af_xdp::refused(r, AfXdpErrorText::InvalidConfig(message)),
            },
    {
        match self.read_descriptor(self.slot_behind(start, i)) {
            Err(e) => Err(e),
            Ok(d) => match umem {
                None => Ok(d),
                Some(umem) => match check_bounds(&umem, d) {
                    Ok(_) => Ok(d),
                    Err(message) => Err(AfXdpError::InvalidConfig(message.to_owned())),
                },
            },
        }
    }

    /// Takes out descriptors, as many as there are and as there is room for, and returns their
    /// number.
    ///
    /// # Errors
    ///
    /// Fails, and takes nothing out, when a part of the ring is outside the mapped memory and
    /// when a descriptor is outside the shared memory.
    pub fn take_into(&mut self, umem: Option<UmemRegion>, output: &mut [XdpDescriptor]) -> (r:
        Result<usize, AfXdpError>)
        requires
            old(self)@.entries > 0,
        ensures
            taken(old(self)@, final(self)@, umem, old(output)@, final(output)@, r),
    {
        let (producer, consumer) = match self.counters(false) {
            Ok(counters) => counters,
            Err(e) => {
                return Err(e);
            },
        };
        let ghost room = output@;
        let ghost v = self@;
        let available: u32 = self.waiting(producer, consumer);
        let count: u32 = if (available as usize) < output.len() {
            available
        } else {
            output.len() as u32
        };
        let mut i: u32 = 0;
        proof {
            assert(output@ =~= filled(room, v, consumer, 0));
        }
        while i < count
            invariant
                i <= count,
                count <= output@.len(),
                count == least(v.available(), room.len()),
                v == self@,
                v == old(self)@,
                v.entries > 0,
                v.taking_fault() is None,
                consumer == v.consumer(),
                room == old(output)@,
                output@ == filled(room, v, consumer, i as nat),
                first_read_fault(v, umem, consumer, i as nat) is None,
            decreases count - i,
        {
            match self.read_behind(umem, consumer, i) {
                Ok(d) => {
                    output[i as usize] = d;
                },
                Err(e) => {
                    proof {
                        lemma_read_fault_stays(v, umem, consumer, (i + 1) as nat, count as nat);
                    }
                    return Err(e);
                },
            }
            i += 1;
            proof {
                assert(output@ =~= filled(room, v, consumer, i as nat));
            }
        }
        if count != 0 {
            match self.publish_consumer(advance(consumer, count)) {
                Ok(_) => {},
                Err(e) => {
                    return Err(e);
                },
            }
        }
        Ok(count as usize)
    }

    /// Takes out the descriptors of one packet and returns their number; none where the packet
    /// is not there as a whole.
    ///
    /// # Errors
    ///
    /// Fails, and takes nothing out, when a part of the ring is outside the mapped memory, when
    /// a descriptor is outside the shared memory and when there is no room for the packet.
    pub fn take_packet_into(&mut self, umem: UmemRegion, output: &mut [XdpDescriptor]) -> (r:
        Result<usize, AfXdpError>)
        requires
            old(self)@.entries > 0,
        ensures
            packet_taken(old(self)@, final(self)@, Some(umem), old(output)@, final(output)@, r),
    {
        let (producer, consumer) = match self.counters(false) {
            Ok(counters) => counters,
            Err(e) => {
                return Err(e);
            },
        };
        let ghost room = output@;
        let ghost v = self@;
        let available: u32 = self.waiting(producer, consumer);
        let mut needed: u32 = 0;
        let mut complete: bool = false;
        while needed < available && !complete
            invariant
                needed <= available,
                available == v.available(),
                available <= v.entries,
                v == self@,
                v.entries > 0,
                v == old(self)@,
                v.taking_fault() is None,
                consumer == v.consumer(),
                room == old(output)@,
                output@ == room,
                !complete ==> packet_length(v, Some(umem), consumer, available as nat, 0)
                    == packet_length(v, Some(umem), consumer, available as nat, needed as nat),
                complete ==> packet_length(v, Some(umem), consumer, available as nat, 0) == Ok::<
                    Option<nat>,
                    Seq<char>,
                >(Some(needed as nat)),
                forall|i: nat|
                    i < needed ==> #[trigger] read_fault(v, Some(umem), consumer, i) is None,
            decreases available - needed,
        {
            let d = match self.read_behind(Some(umem), consumer, needed) {
                Ok(d) => d,
                Err(e) => {
                    return Err(e);
                },
            };
            needed += 1;
            if d.options & 2 == 0 {
                complete = true;
            }
        }
        if !complete {
            return Ok(0);
        }
        if output.len() < needed as usize {
            return Err(
                AfXdpError::InvalidConfig(
                    "RX output buffer is smaller than multi-buffer packet".to_owned(),
                ),
            );
        }
        let mut i: u32 = 0;
        proof {
            assert(output@ =~= filled(room, v, consumer, 0));
        }
        while i < needed
            invariant
                i <= needed,
                needed <= output@.len(),
                v == self@,
                v.entries > 0,
                room.len() == output@.len(),
                output@ == filled(room, v, consumer, i as nat),
                forall|k: nat|
                    k < needed ==> #[trigger] read_fault(v, Some(umem), consumer, k) is None,
            decreases needed - i,
        {
            proof {
                assert(read_fault(v, Some(umem), consumer, i as nat) is None);
            }
            match self.read_behind(None, consumer, i) {
                Ok(d) => {
                    output[i as usize] = d;
                },
                Err(e) => {
                    return Err(e);
                },
            }
            i += 1;
            proof {
                assert(output@ =~= filled(room, v, consumer, i as nat));
            }
        }
        match self.publish_consumer(advance(consumer, needed)) {
            Ok(_) => Ok(needed as usize),
            Err(e) => Err(e),
        }
    }

    /// Puts in descriptors, as many as there is room for, and returns their number.
    ///
    /// # Errors
    ///
    /// Fails when a part of the ring is outside the mapped memory and when a descriptor is an
    /// error. Then the descriptors before it are in their places and none is counted.
    pub fn put(&mut self, items: &Vec<Result<XdpDescriptor, &'static str>>) -> (r: Result<
        usize,
        AfXdpError,
    >)
        requires
            old(self)@.entries > 0,
        ensures
            put_in(old(self)@, final(self)@, plain(items@), r),
    {
        let (producer, consumer) = match self.counters(true) {
            Ok(counters) => counters,
            Err(e) => {
                return Err(e);
            },
        };
        let free: u32 = self.entries - self.waiting(producer, consumer);
        let count: u32 = if (free as usize) < items.len() {
            free
        } else {
            items.len() as u32
        };
        match self.write_behind(items, producer, count) {
            Ok(_) => {},
            Err(e) => {
                return Err(e);
            },
        }
        if count != 0 {
            proof {
                lemma_writes_keep_layout(old(self)@, plain(items@), producer, count as nat);
            }
            match self.publish_producer(advance(producer, count)) {
                Ok(_) => {},
                Err(e) => {
                    return Err(e);
                },
            }
        }
        Ok(count as usize)
    }

    /// Writes descriptors in the places behind a counter.
    pub(crate) fn write_behind(
        &mut self,
        items: &Vec<Result<XdpDescriptor, &'static str>>,
        start: u32,
        count: u32,
    ) -> (r: Result<(), AfXdpError>)
        requires
            old(self)@.entries > 0,
            count <= items@.len(),
        ensures
            match first_write_fault(old(self)@, plain(items@), start, count as nat) {
                Some((at, message)) => {
                    &&& af_xdp::refused(r, AfXdpErrorText::InvalidConfig(message))
                    &&& final(self)@ == after_writes(old(self)@, plain(items@), start, at)
                },
                None => {
                    &&& r is Ok
                    &&& final(self)@ == after_writes(
                        old(self)@,
                        plain(items@),
                        start,
                        count as nat,
                    )
                },
            },
    {
        let ghost v = self@;
        let ghost all = plain(items@);
        let mut i: u32 = 0;
        while i < count
            invariant
                i <= count,
                count <= items@.len(),
                all == plain(items@),
                v == old(self)@,
                v.entries > 0,
                self@ == after_writes(v, all, start, i as nat),
                first_write_fault(v, all, start, i as nat) is None,
            decreases count - i,
        {
            proof {
                lemma_writes_keep_layout(v, all, start, i as nat);
                lemma_write_fault_stays(v, all, start, (i + 1) as nat, count as nat);
            }
            let d = match &items[i as usize] {
                Ok(d) => *d,
                Err(message) => {
                    return Err(AfXdpError::InvalidConfig((*message).to_owned()));
                },
            };
            let slot: u32 = self.slot_behind(start, i);
            match self.write_descriptor(slot, d) {
                Ok(_) => {},
                Err(e) => {
                    return Err(e);
                },
            }
            i += 1;
        }
        Ok(())
    }
}

/// Descriptors and messages as plain values.
pub open spec fn plain(items: Seq<Result<XdpDescriptor, &'static str>>) -> Seq<
    Result<XdpDescriptor, Seq<char>>,
> {
    Seq::new(
        items.len(),
        |i: int|
            match items[i] {
                Ok(d) => Ok(d),
                Err(message) => Err(message@),
            },
    )
}

proof fn lemma_read_fault_stays(v: RingView, umem: Option<UmemRegion>, start: u32, n: nat, m: nat)
    requires
        n <= m,
        first_read_fault(v, umem, start, n) is Some,
    ensures
        first_read_fault(v, umem, start, m) == first_read_fault(v, umem, start, n),
    decreases m - n,
{
    if n < m {
        lemma_read_fault_stays(v, umem, start, n, (m - 1) as nat);
    }
}

proof fn lemma_write_fault_stays(
    v: RingView,
    items: Seq<Result<XdpDescriptor, Seq<char>>>,
    start: u32,
    n: nat,
    m: nat,
)
    requires
        n <= m,
    ensures
        first_write_fault(v, items, start, n) is Some ==> first_write_fault(v, items, start, m)
            == first_write_fault(v, items, start, n),
    decreases m - n,
{
    if n < m {
        lemma_write_fault_stays(v, items, start, n, (m - 1) as nat);
    }
}

pub(crate) proof fn lemma_writes_keep_layout(
    v: RingView,
    items: Seq<Result<XdpDescriptor, Seq<char>>>,
    start: u32,
    n: nat,
)
    ensures
        after_writes(v, items, start, n).bytes.len() == v.bytes.len(),
        after_writes(v, items, start, n).offsets == v.offsets,
        after_writes(v, items, start, n).entries == v.entries,
    decreases n,
{
    if n > 0 {
        lemma_writes_keep_layout(v, items, start, (n - 1) as nat);
    }
}

/// Putting descriptors in moves no part of a ring.
pub proof fn lemma_putting_keeps_layout(
    v: RingView,
    items: Seq<Result<XdpDescriptor, Seq<char>>>,
)
    ensures
        forall|after: RingView, r: Result<usize, AfXdpError>| #[trigger]
            put_in(v, after, items, r) ==> after.bytes.len() == v.bytes.len() && after.offsets
                == v.offsets && after.entries == v.entries,
{
    assert forall|after: RingView, r: Result<usize, AfXdpError>| #[trigger]
        put_in(v, after, items, r) implies after.bytes.len() == v.bytes.len() && after.offsets
        == v.offsets && after.entries == v.entries by {
        let count = least(v.free(), items.len());
        lemma_writes_keep_layout(v, items, v.producer(), count);
        if let Some((at, message)) = first_write_fault(v, items, v.producer(), count) {
            lemma_writes_keep_layout(v, items, v.producer(), at);
        }
    }
}

// ------------------------------------------------------------------------------------- laws

/// Whether bytes of two spans do not meet.
pub open spec fn apart(a: int, a_length: int, b: int, b_length: int) -> bool {
    a + a_length <= b || b + b_length <= a
}

/// Whether the counters of a ring are outside its array.
pub open spec fn laid_out(v: RingView) -> bool {
    &&& apart(v.offsets.producer as int, 4, v.offsets.descriptor as int, v.entries * 16)
    &&& apart(v.offsets.consumer as int, 4, v.offsets.descriptor as int, v.entries * 16)
    &&& apart(v.offsets.producer as int, 4, v.offsets.consumer as int, 4)
}

/// A descriptor reads back as it was written, and the others stay as they are.
pub proof fn law_descriptors_read_back(v: RingView, slot: u32, d: XdpDescriptor, other: u32)
    requires
        v.slot_fault(slot) is None,
        v.slot_fault(other) is None,
    ensures
        v.with_descriptor(slot, d).descriptor(slot) == d,
        other != slot ==> v.with_descriptor(slot, d).descriptor(other) == v.descriptor(other),
{
    let w = v.with_descriptor(slot, d);
    let at = v.place(slot);
    let data = descriptor_bytes(d);
    assert(w.bytes.subrange(at, at + 8) =~= octets::le64(d.address));
    assert(w.bytes.subrange(at + 8, at + 12) =~= octets::le32(d.length));
    assert(w.bytes.subrange(at + 12, at + 16) =~= octets::le32(d.options));
    octets::lemma_le64_round_trip(d.address);
    octets::lemma_le32_round_trip(d.length);
    octets::lemma_le32_round_trip(d.options);
    if other != slot {
        let there = v.place(other);
        assert(w.bytes.subrange(there, there + 8) =~= v.bytes.subrange(there, there + 8));
        assert(w.bytes.subrange(there + 8, there + 12) =~= v.bytes.subrange(there + 8, there + 12));
        assert(w.bytes.subrange(there + 12, there + 16) =~= v.bytes.subrange(
            there + 12,
            there + 16,
        ));
    }
}

proof fn lemma_counters(v: RingView, n: u32)
    requires
        v.index_fault(v.offsets.producer) is None,
        v.index_fault(v.offsets.consumer) is None,
        laid_out(v),
    ensures
        v.with_index(v.offsets.producer, n).producer() == n,
        v.with_index(v.offsets.producer, n).consumer() == v.consumer(),
        v.with_index(v.offsets.consumer, n).consumer() == n,
        v.with_index(v.offsets.consumer, n).producer() == v.producer(),
{
    octets::lemma_le32_round_trip(n);
    let p = v.offsets.producer as int;
    let c = v.offsets.consumer as int;
    let a = v.with_index(v.offsets.producer, n);
    let b = v.with_index(v.offsets.consumer, n);
    assert(a.bytes.subrange(p, p + 4) =~= octets::le32(n));
    assert(a.bytes.subrange(c, c + 4) =~= v.bytes.subrange(c, c + 4));
    assert(b.bytes.subrange(c, c + 4) =~= octets::le32(n));
    assert(b.bytes.subrange(p, p + 4) =~= v.bytes.subrange(p, p + 4));
}

/// A counter reads back as it was set, and neither the other counter nor a descriptor changes
/// where the parts of the ring do not meet.
pub proof fn law_counters_read_back(v: RingView, n: u32, slot: u32)
    requires
        v.index_fault(v.offsets.producer) is None,
        v.index_fault(v.offsets.consumer) is None,
        v.slot_fault(slot) is None,
        laid_out(v),
    ensures
        v.with_index(v.offsets.producer, n).producer() == n,
        v.with_index(v.offsets.producer, n).consumer() == v.consumer(),
        v.with_index(v.offsets.producer, n).descriptor(slot) == v.descriptor(slot),
        v.with_index(v.offsets.consumer, n).consumer() == n,
        v.with_index(v.offsets.consumer, n).producer() == v.producer(),
        v.with_index(v.offsets.consumer, n).descriptor(slot) == v.descriptor(slot),
{
    lemma_counters(v, n);
    let at = v.place(slot);
    let a = v.with_index(v.offsets.producer, n);
    let b = v.with_index(v.offsets.consumer, n);
    assert(a.bytes.subrange(at, at + 8) =~= v.bytes.subrange(at, at + 8));
    assert(a.bytes.subrange(at + 8, at + 12) =~= v.bytes.subrange(at + 8, at + 12));
    assert(a.bytes.subrange(at + 12, at + 16) =~= v.bytes.subrange(at + 12, at + 16));
    assert(b.bytes.subrange(at, at + 8) =~= v.bytes.subrange(at, at + 8));
    assert(b.bytes.subrange(at + 8, at + 12) =~= v.bytes.subrange(at + 8, at + 12));
    assert(b.bytes.subrange(at + 12, at + 16) =~= v.bytes.subrange(at + 12, at + 16));
}

proof fn lemma_writes_read_back(
    v: RingView,
    items: Seq<Result<XdpDescriptor, Seq<char>>>,
    start: u32,
    n: nat,
    i: nat,
)
    requires
        v.wraps(),
        i < n <= v.entries,
        n <= items.len(),
        first_write_fault(v, items, start, n) is None,
    ensures
        after_writes(v, items, start, n).descriptor(v.slot(start, i)) == items[i as int]->Ok_0,
        v.slot_fault(v.slot(start, i)) is None,
    decreases n,
{
    let m = (n - 1) as nat;
    let w = after_writes(v, items, start, m);
    lemma_writes_keep_layout(v, items, start, m);
    assert(v.slot_fault(v.slot(start, m)) is None);
    assert(w.slot_fault(v.slot(start, m)) is None);
    if i < m {
        lemma_writes_read_back(v, items, start, m, i);
        numbers::lemma_remainder_runs_on(start, i, v.entries);
        numbers::lemma_remainder_runs_on(start, m, v.entries);
        numbers::lemma_remainders_differ(start + i, start + m, v.entries as int);
        assert(w.slot_fault(v.slot(start, i)) is None);
        law_descriptors_read_back(w, v.slot(start, m), items[m as int]->Ok_0, v.slot(start, i));
    } else {
        law_descriptors_read_back(w, v.slot(start, m), items[m as int]->Ok_0, v.slot(start, m));
    }
}

proof fn lemma_writes_keep_counters(
    v: RingView,
    items: Seq<Result<XdpDescriptor, Seq<char>>>,
    start: u32,
    n: nat,
)
    requires
        v.wraps(),
        n <= items.len(),
        v.index_fault(v.offsets.producer) is None,
        v.index_fault(v.offsets.consumer) is None,
        laid_out(v),
        first_write_fault(v, items, start, n) is None,
    ensures
        after_writes(v, items, start, n).producer() == v.producer(),
        after_writes(v, items, start, n).consumer() == v.consumer(),
    decreases n,
{
    if n > 0 {
        let m = (n - 1) as nat;
        let w = after_writes(v, items, start, m);
        lemma_writes_keep_layout(v, items, start, m);
        lemma_writes_keep_counters(v, items, start, m);
        let x = after_writes(v, items, start, n);
        let p = v.offsets.producer as int;
        let c = v.offsets.consumer as int;
        let slot = v.slot(start, m);
        assert(v.slot_fault(slot) is None);
        assert(x.bytes.subrange(p, p + 4) =~= w.bytes.subrange(p, p + 4));
        assert(x.bytes.subrange(c, c + 4) =~= w.bytes.subrange(c, c + 4));
    }
}

/// What is put into a ring comes out of it: after so many descriptors were put in, the counter
/// of what was put in has moved on by their number, what was taken out is as before, and they
/// are read, in their order, behind where the counter was.
pub proof fn law_what_is_put_in_comes_out(
    before: RingView,
    after: RingView,
    items: Seq<Result<XdpDescriptor, Seq<char>>>,
    count: usize,
    i: nat,
)
    requires
        before.wraps(),
        laid_out(before),
        put_in(before, after, items, Ok::<usize, AfXdpError>(count)),
        i < count,
    ensures
        after.producer() == numbers::moved(before.producer(), count as nat),
        after.consumer() == before.consumer(),
        after.descriptor(after.slot(before.producer(), i)) == items[i as int]->Ok_0,
{
    let n = least(before.free(), items.len());
    let start = before.producer();
    let w = after_writes(before, items, start, n);
    lemma_writes_keep_layout(before, items, start, n);
    lemma_writes_read_back(before, items, start, n, i);
    lemma_writes_keep_counters(before, items, start, n);
    assert(w.slot_fault(before.slot(start, i)) is None);
    law_counters_read_back(
        w,
        numbers::moved(before.producer(), count as nat),
        before.slot(start, i),
    );
}

/// What was taken out of a ring is not taken out again: the counter has moved on by the number
/// of descriptors, and so many fewer wait.
pub proof fn law_what_is_taken_out_is_gone(
    before: RingView,
    after: RingView,
    umem: Option<UmemRegion>,
    room: Seq<XdpDescriptor>,
    output: Seq<XdpDescriptor>,
    count: usize,
)
    requires
        before.wraps(),
        laid_out(before),
        numbers::ahead(before.producer(), before.consumer()) <= before.entries,
        taken(before, after, umem, room, output, Ok::<usize, AfXdpError>(count)),
    ensures
        after.available() == before.available() - count,
        after.producer() == before.producer(),
{
    if count > 0 {
        let n = least(before.available(), room.len());
        assert(n == count);
        assert(after == before.with_index(
            before.offsets.consumer,
            numbers::moved(before.consumer(), n),
        ));
        lemma_counters(before, numbers::moved(before.consumer(), n));
        numbers::lemma_distance_shrinks(before.producer(), before.consumer(), n);
    }
}

/// The descriptors that wait in a ring, in their order.
pub open spec fn waiting(v: RingView) -> Seq<XdpDescriptor> {
    Seq::new(v.available(), |i: int| v.descriptor(v.slot(v.consumer(), i as nat)))
}

/// Two takings hand out each waiting descriptor once, in the order of the ring: the second goes
/// on where the first ended. The rest of the outputs stays as it was, and the counter has moved
/// on by both numbers.
pub proof fn law_two_takings_go_on_in_order(
    before: RingView,
    middle: RingView,
    after: RingView,
    umem: Option<UmemRegion>,
    a: Seq<XdpDescriptor>,
    first: Seq<XdpDescriptor>,
    x: usize,
    b: Seq<XdpDescriptor>,
    second: Seq<XdpDescriptor>,
    y: usize,
)
    requires
        before.wraps(),
        laid_out(before),
        numbers::ahead(before.producer(), before.consumer()) <= before.entries,
        taken(before, middle, umem, a, first, Ok::<usize, AfXdpError>(x)),
        taken(middle, after, umem, b, second, Ok::<usize, AfXdpError>(y)),
    ensures
        x == least(before.available(), a.len()),
        y == least((before.available() - x) as nat, b.len()),
        first.take(x as int) + second.take(y as int) == waiting(before).take(x + y),
        first.skip(x as int) == a.skip(x as int),
        second.skip(y as int) == b.skip(y as int),
        after.consumer() == numbers::moved(before.consumer(), (x + y) as nat),
        after.producer() == before.producer(),
{
    let c = before.consumer();
    law_what_is_taken_out_is_gone(before, middle, umem, a, first, x);
    lemma_taking_moves_on(before, middle, umem, a, first, x);
    lemma_taking_moves_on(middle, after, umem, b, second, y);
    numbers::lemma_moved_twice(c, x as nat, y as nat);
    let all = waiting(before);
    assert forall|i: int| 0 <= i < y implies #[trigger] second[i] == all[x + i] by {
        numbers::lemma_moved_twice(c, x as nat, i as nat);
        lemma_no_fault_within(middle, umem, middle.consumer(), y as nat, i as nat);
        let slot = middle.slot(middle.consumer(), i as nat);
        assert(slot == before.slot(c, (x + i) as nat));
        assert(middle.descriptor(slot) == before.descriptor(slot));
    }
    assert(first.take(x as int) + second.take(y as int) =~= all.take(x + y));
    assert(first.skip(x as int) =~= a.skip(x as int));
    assert(second.skip(y as int) =~= b.skip(y as int));
}

proof fn lemma_taking_moves_on(
    before: RingView,
    after: RingView,
    umem: Option<UmemRegion>,
    room: Seq<XdpDescriptor>,
    output: Seq<XdpDescriptor>,
    n: usize,
)
    requires
        laid_out(before),
        taken(before, after, umem, room, output, Ok::<usize, AfXdpError>(n)),
    ensures
        laid_out(after),
        after.offsets == before.offsets,
        after.entries == before.entries,
        after.consumer() == numbers::moved(before.consumer(), n as nat),
        after.producer() == before.producer(),
        output == filled(room, before, before.consumer(), n as nat),
        first_read_fault(before, umem, before.consumer(), n as nat) is None,
        forall|slot: u32|
            #![trigger after.descriptor(slot)]
            after.slot_fault(slot) is None ==> after.descriptor(slot) == before.descriptor(slot),
{
    let c = before.consumer();
    assert(numbers::moved(c, 0) == c);
    if n > 0 {
        let next = numbers::moved(c, n as nat);
        assert(after == before.with_index(before.offsets.consumer, next));
        lemma_counters(before, next);
        assert forall|slot: u32|
            #![trigger after.descriptor(slot)]
            after.slot_fault(slot) is None implies after.descriptor(slot) == before.descriptor(
            slot,
        ) by {
            assert(after.bytes.len() == before.bytes.len());
            assert(before.slot_fault(slot) is None);
            law_counters_read_back(before, next, slot);
        }
    }
}

proof fn lemma_no_fault_within(
    v: RingView,
    umem: Option<UmemRegion>,
    start: u32,
    n: nat,
    i: nat,
)
    requires
        first_read_fault(v, umem, start, n) is None,
        i < n,
    ensures
        v.slot_fault(v.slot(start, i)) is None,
    decreases n,
{
    if i < n - 1 {
        lemma_no_fault_within(v, umem, start, (n - 1) as nat, i);
    }
}

} // verus!
