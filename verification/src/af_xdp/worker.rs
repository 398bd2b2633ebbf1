//! The one owner of the four rings of a socket.

use crate::af_xdp::kernel::{TxKick, TxKicker};
use crate::af_xdp::mapping;
use crate::af_xdp::mapping::{
    check_bounds, RingView, XdpDescriptor, XdpRingMapping, XdpRingOffset,
};
use crate::af_xdp::{AfXdpError, AfXdpErrorText, UmemRegion};
use crate::numbers::is_power_of_two;
use vstd::arithmetic::power2::*;
use vstd::prelude::*;

verus! {

/// The four rings of a socket.
#[derive(Debug)]
pub struct XdpRingMappings {
    /// Received packets.
    pub rx: XdpRingMapping,
    /// Packets to send.
    pub tx: XdpRingMapping,
    /// Free frames.
    pub fill: XdpRingMapping,
    /// Sent frames.
    pub completion: XdpRingMapping,
}

impl XdpRingMappings {
    /// Whether all arrays have lengths that the counters can wrap around.
    pub open spec fn wraps(self) -> bool {
        self.rx@.wraps() && self.tx@.wraps() && self.fill@.wraps() && self.completion@.wraps()
    }
}

/// Takes packets from and gives packets to the kernel.
#[derive(Debug)]
pub struct AfXdpWorker {
    mappings: XdpRingMappings,
    umem: UmemRegion,
}

/// The descriptors of packets to send, each one checked.
pub open spec fn checked(umem: UmemRegion, descriptors: Seq<XdpDescriptor>) -> Seq<
    Result<XdpDescriptor, Seq<char>>,
> {
    Seq::new(
        descriptors.len(),
        |i: int|
            match mapping::bounds_fault(Some(umem), descriptors[i]) {
                Some(message) => Err(message),
                None => Ok(descriptors[i]),
            },
    )
}

/// The descriptors of free frames.
pub open spec fn frames_of(umem: UmemRegion, indices: Seq<u64>) -> Seq<
    Result<XdpDescriptor, Seq<char>>,
> {
    Seq::new(
        indices.len(),
        |i: int|
            if indices[i] < umem.frames() {
                Ok(
                    XdpDescriptor {
                        address: (indices[i] * umem.chunk()) as u64,
                        length: 0,
                        options: 0,
                    },
                )
            } else {
                Err("UMEM frame index exceeds region bounds"@)
            },
    )
}

fn placeholder() -> (r: XdpRingMapping)
    ensures
        r@.wraps(),
{
    proof {
        lemma2_to64();
        assert(pow2(0) == 1);
    }
    XdpRingMapping::new(
        Vec::new(),
        XdpRingOffset { producer: 0, consumer: 0, descriptor: 0, flags: 0 },
        1,
    )
}

fn has_room(ring: &XdpRingMapping) -> (r: bool)
    ensures
        r == ring@.wraps(),
{
    ring.entries() != 0 && is_power_of_two(ring.entries())
}

/// The descriptors of free frames.
pub fn frame_descriptors(umem: &UmemRegion, indices: &[u64]) -> (r: Vec<
    Result<XdpDescriptor, &'static str>,
>)
    ensures
        r@.len() == indices@.len(),
        mapping::plain(r@) == frames_of(*umem, indices@),
{
    let mut items: Vec<Result<XdpDescriptor, &'static str>> = Vec::new();
    let mut i: usize = 0;
    while i < indices.len()
        invariant
            i <= indices@.len(),
            items@.len() == i,
            forall|j: int|
                0 <= j < i ==> #[trigger] mapping::plain(items@)[j] == frames_of(
                    *umem,
                    indices@,
                )[j],
        decreases indices@.len() - i,
    {
        let ghost before = items@;
        let item = match umem.frame_base(indices[i]) {
            Ok(address) => Ok(XdpDescriptor { address, length: 0, options: 0 }),
            Err(message) => Err(message),
        };
        items.push(item);
        i += 1;
        proof {
            assert forall|j: int| 0 <= j < i implies #[trigger] mapping::plain(items@)[j]
                == frames_of(*umem, indices@)[j] by {
                if j < i - 1 {
                    assert(mapping::plain(before)[j] == frames_of(*umem, indices@)[j]);
                }
            }
        }
    }
    proof {
        assert(mapping::plain(items@) =~= frames_of(*umem, indices@));
    }
    items
}

/// Which ring.
#[derive(Clone, Copy, Debug, PartialEq, Eq, Structural)]
pub enum RingKind {
    /// Received packets.
    Rx,
    /// Packets to send.
    Tx,
    /// Free frames.
    Fill,
    /// Sent frames.
    Completion,
}

impl AfXdpWorker {
    /// The ring of received packets.
    pub closed spec fn rx(self) -> RingView {
        self.mappings.rx@
    }

    /// The ring of packets to send.
    pub closed spec fn tx(self) -> RingView {
        self.mappings.tx@
    }

    /// The ring of free frames.
    pub closed spec fn fill(self) -> RingView {
        self.mappings.fill@
    }

    /// The ring of sent frames.
    pub closed spec fn completion(self) -> RingView {
        self.mappings.completion@
    }

    /// The shared memory.
    pub closed spec fn umem(self) -> UmemRegion {
        self.umem
    }

    /// A ring.
    pub open spec fn ring(self, kind: RingKind) -> RingView {
        match kind {
            RingKind::Rx => self.rx(),
            RingKind::Tx => self.tx(),
            RingKind::Fill => self.fill(),
            RingKind::Completion => self.completion(),
        }
    }

    #[verifier::type_invariant]
    spec fn valid(self) -> bool {
        self.mappings.wraps()
    }

    /// Whether nothing but a ring differs from another worker.
    pub open spec fn same_but(self, other: AfXdpWorker, kind: RingKind) -> bool {
        &&& self.umem() == other.umem()
        &&& kind != RingKind::Rx ==> self.rx() == other.rx()
        &&& kind != RingKind::Tx ==> self.tx() == other.tx()
        &&& kind != RingKind::Fill ==> self.fill() == other.fill()
        &&& kind != RingKind::Completion ==> self.completion() == other.completion()
    }

    /// Takes the rings of a socket.
    ///
    /// # Errors
    ///
    /// Fails when the length of an array is not a power of two.
    pub fn new(mappings: XdpRingMappings, umem: UmemRegion) -> (r: Result<Self, AfXdpError>)
        ensures
            match r {
                Ok(worker) => {
                    &&& mappings.wraps()
                    &&& worker.rx() == mappings.rx@
                    &&& worker.tx() == mappings.tx@
                    &&& worker.fill() == mappings.fill@
                    &&& worker.completion() == mappings.completion@
                    &&& worker.umem() == umem
                },
                Err(e) => !mappings.wraps() && e.text() == AfXdpErrorText::InvalidConfig(
                    "AF_XDP worker ring capacity must be a non-zero power-of-two"@,
                ),
            },
    {
        if !has_room(&mappings.rx) || !has_room(&mappings.tx) || !has_room(&mappings.fill)
            || !has_room(&mappings.completion) {
            return Err(
                AfXdpError::InvalidConfig(
                    "AF_XDP worker ring capacity must be a non-zero power-of-two".to_owned(),
                ),
            );
        }
        Ok(AfXdpWorker { mappings, umem })
    }

    /// The memory of a ring, for the kernel.
    pub fn bytes(&self, kind: RingKind) -> (r: &[u8])
        ensures
            r@ == self.ring(kind).bytes,
    {
        match kind {
            RingKind::Rx => self.mappings.rx.bytes(),
            RingKind::Tx => self.mappings.tx.bytes(),
            RingKind::Fill => self.mappings.fill.bytes(),
            RingKind::Completion => self.mappings.completion.bytes(),
        }
    }

    /// Takes the memory of a ring as the kernel has left it.
    pub fn refresh(&mut self, kind: RingKind, bytes: Vec<u8>)
        ensures
            final(self).same_but(*old(self), kind),
            final(self).ring(kind) == (RingView {
                bytes: bytes@,
                offsets: old(self).ring(kind).offsets,
                entries: old(self).ring(kind).entries,
            }),
    {
        proof {
            use_type_invariant(&*self);
        }
        let mut ring = placeholder();
        match kind {
            RingKind::Rx => std::mem::swap(&mut ring, &mut self.mappings.rx),
            RingKind::Tx => std::mem::swap(&mut ring, &mut self.mappings.tx),
            RingKind::Fill => std::mem::swap(&mut ring, &mut self.mappings.fill),
            RingKind::Completion => std::mem::swap(&mut ring, &mut self.mappings.completion),
        }
        ring.refresh(bytes);
        match kind {
            RingKind::Rx => std::mem::swap(&mut ring, &mut self.mappings.rx),
            RingKind::Tx => std::mem::swap(&mut ring, &mut self.mappings.tx),
            RingKind::Fill => std::mem::swap(&mut ring, &mut self.mappings.fill),
            RingKind::Completion => std::mem::swap(&mut ring, &mut self.mappings.completion),
        }
    }

    /// Takes received packets, as many as there is room for, and returns their number.
    ///
    /// # Errors
    ///
    /// Fails, and takes nothing, when a part of the ring is outside the mapped memory and when
    /// a packet is outside the shared memory.
    pub fn receive_into(&mut self, output: &mut [XdpDescriptor]) -> (r: Result<usize, AfXdpError>)
        ensures
            final(self).same_but(*old(self), RingKind::Rx),
            mapping::taken(
                old(self).rx(),
                final(self).rx(),
                Some(old(self).umem()),
                old(output)@,
                final(output)@,
                r,
            ),
    {
        proof {
            use_type_invariant(&*self);
        }
        let mut ring = placeholder();
        std::mem::swap(&mut ring, &mut self.mappings.rx);
        let r = ring.take_into(Some(self.umem), output);
        std::mem::swap(&mut ring, &mut self.mappings.rx);
        r
    }

    /// Waits, and takes received packets where there are any. `wait` returns whether there
    /// are.
    ///
    /// # Errors
    ///
    /// Fails with what waiting fails with, and as taking packets fails.
    pub fn receive_once<F: FnOnce() -> Result<bool, AfXdpError>>(
        &mut self,
        wait: F,
        output: &mut [XdpDescriptor],
    ) -> (r: Result<usize, AfXdpError>)
        requires
            call_requires(wait, ()),
        ensures
            final(self).same_but(*old(self), RingKind::Rx),
            exists|ready: Result<bool, AfXdpError>| #[trigger]
                call_ensures(wait, (), ready) && match ready {
                    Ok(true) => mapping::taken(
                        old(self).rx(),
                        final(self).rx(),
                        Some(old(self).umem()),
                        old(output)@,
                        final(output)@,
                        r,
                    ),
                    Ok(false) => {
                        &&& r == Ok::<usize, AfXdpError>(0)
                        &&& final(self).rx() == old(self).rx()
                        &&& final(output)@ == old(output)@
                    },
                    Err(e) => {
                        &&& r == Err::<usize, AfXdpError>(e)
                        &&& final(self).rx() == old(self).rx()
                        &&& final(output)@ == old(output)@
                    },
                },
    {
        let ready = wait();
        proof {
            assert(call_ensures(wait, (), ready));
        }
        match ready {
            Err(e) => Err(e),
            Ok(false) => Ok(0),
            Ok(true) => self.receive_into(output),
        }
    }

    /// Takes the descriptors of one received packet and returns their number; none where the
    /// packet is not there as a whole.
    ///
    /// # Errors
    ///
    /// Fails, and takes nothing, when a part of the ring is outside the mapped memory, when a
    /// descriptor is outside the shared memory and when there is no room for the packet.
    pub fn receive_packet_into(&mut self, output: &mut [XdpDescriptor]) -> (r: Result<
        usize,
        AfXdpError,
    >)
        ensures
            final(self).same_but(*old(self), RingKind::Rx),
            mapping::packet_taken(
                old(self).rx(),
                final(self).rx(),
                Some(old(self).umem()),
                old(output)@,
                final(output)@,
                r,
            ),
    {
        proof {
            use_type_invariant(&*self);
        }
        let mut ring = placeholder();
        std::mem::swap(&mut ring, &mut self.mappings.rx);
        let r = ring.take_packet_into(self.umem, output);
        std::mem::swap(&mut ring, &mut self.mappings.rx);
        r
    }

    /// Gives packets to send, as many as there is room for, and returns their number.
    ///
    /// # Errors
    ///
    /// Fails when a part of the ring is outside the mapped memory and when a packet is outside
    /// the shared memory. Then none is counted.
    pub fn submit_tx(&mut self, descriptors: &[XdpDescriptor]) -> (r: Result<usize, AfXdpError>)
        ensures
            final(self).same_but(*old(self), RingKind::Tx),
            mapping::put_in(
                old(self).tx(),
                final(self).tx(),
                checked(old(self).umem(), descriptors@),
                r,
            ),
    {
        let mut items: Vec<Result<XdpDescriptor, &'static str>> = Vec::new();
        let ghost expected = checked(self.umem, descriptors@);
        let mut i: usize = 0;
        while i < descriptors.len()
            invariant
                i <= descriptors@.len(),
                items@.len() == i,
                *self == *old(self),
                expected == checked(self.umem, descriptors@),
                forall|j: int|
                    0 <= j < i ==> #[trigger] mapping::plain(items@)[j] == expected[j],
            decreases descriptors@.len() - i,
        {
            let ghost before = items@;
            let item = match check_bounds(&self.umem, descriptors[i]) {
                Ok(_) => Ok(descriptors[i]),
                Err(message) => Err(message),
            };
            items.push(item);
            i += 1;
            proof {
                assert forall|j: int| 0 <= j < i implies #[trigger] mapping::plain(items@)[j]
                    == expected[j] by {
                    if j < i - 1 {
                        assert(mapping::plain(before)[j] == expected[j]);
                    }
                }
            }
        }
        proof {
            assert(mapping::plain(items@) =~= expected);
            mapping::lemma_putting_keeps_layout(self.mappings.tx@, expected);
        }
        proof {
            use_type_invariant(&*self);
        }
        let mut ring = placeholder();
        std::mem::swap(&mut ring, &mut self.mappings.tx);
        let r = ring.put(&items);
        std::mem::swap(&mut ring, &mut self.mappings.tx);
        r
    }

    /// Gives packets to send and tells the kernel of them, once, unless there is none.
    ///
    /// # Errors
    ///
    /// Fails as giving packets fails, and with what telling the kernel fails with.
    pub fn submit_tx_and_kick<K: TxKick>(
        &mut self,
        kicker: &mut TxKicker<K>,
        descriptors: &[XdpDescriptor],
    ) -> (r: Result<usize, AfXdpError>)
        ensures
            final(self).same_but(*old(self), RingKind::Tx),
            exists|put: Result<usize, AfXdpError>|
                #![trigger mapping::put_in(old(self).tx(), final(self).tx(), checked(old(self).umem(), descriptors@), put)]
                mapping::put_in(
                    old(self).tx(),
                    final(self).tx(),
                    checked(old(self).umem(), descriptors@),
                    put,
                ) && (if put matches Ok(n) && n != 0 {
                    exists|told: Result<(), AfXdpError>|
                        final(kicker).log() == #[trigger] old(kicker).log().push(
                            (final(self).tx(), told),
                        ) && r == match told {
                            Ok(_) => put,
                            Err(e) => Err(e),
                        }
                } else {
                    r == put && *final(kicker) == *old(kicker)
                }),
    {
        let put = self.submit_tx(descriptors);
        match put {
            Ok(n) => {
                if n != 0 {
                    let ghost from = kicker.log();
                    let told = kicker.kick(&self.mappings.tx);
                    proof {
                        assert(kicker.log() == from.push((self.tx(), told)));
                    }
                    match told {
                        Ok(_) => {},
                        Err(e) => {
                            return Err(e);
                        },
                    }
                }
                Ok(n)
            },
            Err(e) => Err(e),
        }
    }

    /// Takes sent frames, as many as there is room for, and returns their number.
    ///
    /// # Errors
    ///
    /// Fails, and takes nothing, when a part of the ring is outside the mapped memory.
    pub fn recycle_completions(&mut self, output: &mut [XdpDescriptor]) -> (r: Result<
        usize,
        AfXdpError,
    >)
        ensures
            final(self).same_but(*old(self), RingKind::Completion),
            mapping::taken(
                old(self).completion(),
                final(self).completion(),
                None,
                old(output)@,
                final(output)@,
                r,
            ),
    {
        proof {
            use_type_invariant(&*self);
        }
        let mut ring = placeholder();
        std::mem::swap(&mut ring, &mut self.mappings.completion);
        let r = ring.take_into(None, output);
        std::mem::swap(&mut ring, &mut self.mappings.completion);
        r
    }

    /// Gives free frames back, as many as there is room for, and returns their number.
    ///
    /// # Errors
    ///
    /// Fails when a part of the ring is outside the mapped memory and when there is no such
    /// frame. Then none is counted.
    pub fn refill_fill(&mut self, frame_indices: &[u64]) -> (r: Result<usize, AfXdpError>)
        ensures
            final(self).same_but(*old(self), RingKind::Fill),
            mapping::put_in(
                old(self).fill(),
                final(self).fill(),
                frames_of(old(self).umem(), frame_indices@),
                r,
            ),
    {
        let items = frame_descriptors(&self.umem, frame_indices);
        proof {
            mapping::lemma_putting_keeps_layout(
                self.mappings.fill@,
                frames_of(self.umem, frame_indices@),
            );
        }
        proof {
            use_type_invariant(&*self);
        }
        let mut ring = placeholder();
        std::mem::swap(&mut ring, &mut self.mappings.fill);
        let r = ring.put(&items);
        std::mem::swap(&mut ring, &mut self.mappings.fill);
        r
    }
}

} // verus!
