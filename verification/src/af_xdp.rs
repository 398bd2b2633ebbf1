//! The resources of AF_XDP sockets: their configuration, the memory that they share with the
//! kernel and rings of frames.

use crate::numbers;
use crate::numbers::{advance, distance, is_power_of_two};
use crate::text;
use crate::text::{byte_len, concat, has_only_alphanumeric_or, signed_text};
use vstd::arithmetic::div_mod::*;
use vstd::prelude::*;

pub mod kernel;
pub mod mapping;
pub mod ring_laws;
pub mod setting_laws;
pub mod setup;
pub mod socket;
pub mod worker;

verus! {

/// The most entries of a ring.
pub const MAX_RING_SIZE: u32 = 1048576;

/// The bytes of a page.
pub const PAGE_SIZE: usize = 4096;

/// Whether this build holds the native sockets: those of Linux do.
#[must_use]
pub fn is_backend_built(platform_is_linux: bool) -> (r: bool)
    ensures
        r == platform_is_linux,
{
    platform_is_linux
}

/// The fixed resources of a socket.
#[derive(Clone, Copy, Debug, PartialEq, Eq, Structural)]
pub struct AfXdpConfig {
    /// The queue of the interface.
    pub queue_id: u32,
    /// The entries of the ring of received packets.
    pub rx_ring_size: u32,
    /// The entries of the ring of packets to send.
    pub tx_ring_size: u32,
    /// The entries of the ring of free frames.
    pub fill_ring_size: u32,
    /// The entries of the ring of sent frames.
    pub completion_ring_size: u32,
    /// Whether packets must not be copied.
    pub require_zero_copy: bool,
}

impl Default for AfXdpConfig {
    fn default() -> (r: Self)
        ensures
            r == (AfXdpConfig {
                queue_id: 0,
                rx_ring_size: 1024,
                tx_ring_size: 1024,
                fill_ring_size: 2048,
                completion_ring_size: 2048,
                require_zero_copy: true,
            }),
    {
        AfXdpConfig {
            queue_id: 0,
            rx_ring_size: 1024,
            tx_ring_size: 1024,
            fill_ring_size: 2048,
            completion_ring_size: 2048,
            require_zero_copy: true,
        }
    }
}

/// Whether a ring can have a size.
pub open spec fn valid_size(n: u32) -> bool {
    n != 0 && numbers::power_of_two(n as nat) && n <= MAX_RING_SIZE
}

/// Decides whether a ring can have a size.
pub fn is_valid_size(n: u32) -> (r: bool)
    ensures
        r == valid_size(n),
{
    n != 0 && is_power_of_two(n) && n <= MAX_RING_SIZE
}

/// What is wrong with a configuration.
pub open spec fn config_fault(config: AfXdpConfig) -> Option<Seq<char>> {
    if !valid_size(config.rx_ring_size) {
        Some("rx_ring_size"@ + " must be a power-of-two between 1 and 1048576"@)
    } else if !valid_size(config.tx_ring_size) {
        Some("tx_ring_size"@ + " must be a power-of-two between 1 and 1048576"@)
    } else if !valid_size(config.fill_ring_size) {
        Some("fill_ring_size"@ + " must be a power-of-two between 1 and 1048576"@)
    } else if !valid_size(config.completion_ring_size) {
        Some("completion_ring_size"@ + " must be a power-of-two between 1 and 1048576"@)
    } else {
        None
    }
}

impl AfXdpConfig {
    /// Checks the sizes of the rings.
    ///
    /// # Errors
    ///
    /// Fails when a size is not a power of two or too large.
    pub fn validate(self) -> (r: Result<Self, AfXdpError>)
        ensures
            match r {
                Ok(config) => config_fault(self) is None && config == self,
                Err(e) => config_fault(self) matches Some(message) && e.text()
                    == AfXdpErrorText::InvalidConfig(message),
            },
    {
        let name = if !is_valid_size(self.rx_ring_size) {
            "rx_ring_size"
        } else if !is_valid_size(self.tx_ring_size) {
            "tx_ring_size"
        } else if !is_valid_size(self.fill_ring_size) {
            "fill_ring_size"
        } else if !is_valid_size(self.completion_ring_size) {
            "completion_ring_size"
        } else {
            return Ok(self);
        };
        Err(
            AfXdpError::InvalidConfig(
                concat(name, " must be a power-of-two between 1 and 1048576"),
            ),
        )
    }
}

/// Why something is refused.
#[derive(Clone, Debug, PartialEq, Eq)]
pub enum AfXdpError {
    /// The configuration is not valid.
    InvalidConfig(String),
    /// The name of the interface is not safe, or there is no such interface.
    InvalidInterface(String),
    /// The platform has no such sockets.
    UnsupportedPlatform,
    /// The kernel failed.
    Kernel {
        /// What was tried.
        operation: &'static str,
        /// The number of the error.
        errno: i32,
    },
}

/// What an error says.
pub enum AfXdpErrorText {
    /// The configuration is not valid.
    InvalidConfig(Seq<char>),
    /// The name of the interface is not safe, or there is no such interface.
    InvalidInterface(Seq<char>),
    /// The platform has no such sockets.
    UnsupportedPlatform,
    /// The kernel failed.
    Kernel(Seq<char>, i32),
}

impl AfXdpError {
    /// What the error says.
    pub open spec fn text(self) -> AfXdpErrorText {
        match self {
            AfXdpError::InvalidConfig(message) => AfXdpErrorText::InvalidConfig(message@),
            AfXdpError::InvalidInterface(message) => AfXdpErrorText::InvalidInterface(message@),
            AfXdpError::UnsupportedPlatform => AfXdpErrorText::UnsupportedPlatform,
            AfXdpError::Kernel { operation, errno } => AfXdpErrorText::Kernel(operation@, errno),
        }
    }

    /// The error for people to read.
    pub fn to_text(&self) -> (r: String)
        ensures
            r@ == match self.text() {
                AfXdpErrorText::InvalidConfig(message) => "AF_XDP.INVALID_CONFIG: "@ + message,
                AfXdpErrorText::InvalidInterface(message) => "AF_XDP.INVALID_INTERFACE: "@
                    + message,
                AfXdpErrorText::UnsupportedPlatform => "AF_XDP.UNSUPPORTED_PLATFORM"@,
                AfXdpErrorText::Kernel(operation, errno) => "AF_XDP."@ + operation
                    + "_FAILED: errno="@ + text::signed_decimal(errno as int),
            },
    {
        match self {
            AfXdpError::InvalidConfig(message) => concat(
                "AF_XDP.INVALID_CONFIG: ",
                message.as_str(),
            ),
            AfXdpError::InvalidInterface(message) => concat(
                "AF_XDP.INVALID_INTERFACE: ",
                message.as_str(),
            ),
            AfXdpError::UnsupportedPlatform => "AF_XDP.UNSUPPORTED_PLATFORM".to_owned(),
            AfXdpError::Kernel { operation, errno } => {
                let mut out = concat("AF_XDP.", operation);
                out.append("_FAILED: errno=");
                out.append(signed_text(*errno).as_str());
                out
            },
        }
    }
}

/// Whether something was refused with an error.
pub open spec fn refused<T>(r: Result<T, AfXdpError>, error: AfXdpErrorText) -> bool {
    r matches Err(e) && e.text() == error
}

fn invalid(message: &str) -> (r: AfXdpError)
    ensures
        r.text() == AfXdpErrorText::InvalidConfig(message@),
{
    AfXdpError::InvalidConfig(message.to_owned())
}

/// Whether the name of an interface is safe.
pub open spec fn safe_interface_name(name: Seq<char>) -> bool {
    &&& name.len() > 0
    &&& vstd::utf8::encode_utf8(name).len() <= 15
    &&& text::only_alphanumeric_or(name, "_-."@)
}

/// Checks the name of an interface.
///
/// # Errors
///
/// Fails when the name is empty, too long or holds an unsafe character.
pub fn validate_interface_name(interface_name: &str) -> (r: Result<(), AfXdpError>)
    ensures
        match r {
            Ok(_) => safe_interface_name(interface_name@),
            Err(e) => !safe_interface_name(interface_name@) && e.text()
                == AfXdpErrorText::InvalidInterface(
                "interface name contains unsupported characters"@,
            ),
        },
{
    if interface_name.is_empty() || byte_len(interface_name) > 15 || !has_only_alphanumeric_or(
        interface_name,
        "_-.",
    ) {
        return Err(
            AfXdpError::InvalidInterface(
                "interface name contains unsupported characters".to_owned(),
            ),
        );
    }
    Ok(())
}

// ----------------------------------------------------------------------- the shared memory

/// The memory that a socket shares with the kernel, cut into frames.
#[derive(Clone, Copy, Debug, PartialEq, Eq)]
pub struct UmemRegion {
    length: u64,
    chunk_size: u32,
    headroom: u32,
}

/// Where a payload is in the shared memory.
#[derive(Clone, Copy, Debug, PartialEq, Eq, Structural)]
pub struct FrameDescriptor {
    /// Where it begins.
    pub offset: u64,
    /// Its bytes.
    pub length: u32,
}

/// Whether memory can be cut into frames.
pub open spec fn valid_region(length: int, chunk_size: u32, headroom: u32) -> bool {
    &&& length > 0
    &&& length % 4096 == 0
    &&& numbers::power_of_two(chunk_size as nat)
    &&& 2048 <= chunk_size <= 65536
    &&& headroom < chunk_size
    &&& length % (chunk_size as int) == 0
}

impl UmemRegion {
    /// The bytes of the memory.
    pub closed spec fn bytes(self) -> u64 {
        self.length
    }

    /// The bytes of a frame.
    pub closed spec fn chunk(self) -> u32 {
        self.chunk_size
    }

    /// The bytes before the payload in a frame.
    pub closed spec fn room(self) -> u32 {
        self.headroom
    }

    /// The number of frames.
    pub open spec fn frames(self) -> int {
        self.bytes() as int / self.chunk() as int
    }

    /// Whether the memory is cut into frames.
    #[verifier::type_invariant]
    pub closed spec fn valid(self) -> bool {
        valid_region(self.length as int, self.chunk_size, self.headroom)
    }

    /// Lays out memory.
    ///
    /// # Errors
    ///
    /// Fails when the length is not made of whole pages and frames, when the size of a frame
    /// is not a power of two between 2048 and 65536, when a frame has no room for a payload,
    /// and when no memory of that length can be asked for.
    pub fn new(length: usize, chunk_size: u32, headroom: u32) -> (r: Result<Self, AfXdpError>)
        ensures
            match r {
                Ok(region) => {
                    &&& valid_region(length as int, chunk_size, headroom)
                    &&& length <= isize::MAX - 4095
                    &&& region.bytes() == length
                    &&& region.chunk() == chunk_size
                    &&& region.room() == headroom
                },
                Err(e) => if !valid_region(length as int, chunk_size, headroom) {
                    e.text() == AfXdpErrorText::InvalidConfig(
                        "UMEM length must be page-aligned and divisible by a 2048..65536 power-of-two chunk; headroom must be smaller than chunk"@,
                    )
                } else {
                    length > isize::MAX - 4095 && e.text() == AfXdpErrorText::InvalidConfig(
                        "UMEM layout is invalid"@,
                    )
                },
            },
    {
        if length == 0 || length % PAGE_SIZE != 0 || !is_power_of_two(chunk_size) || chunk_size
            < 2048 || chunk_size > 65536 || headroom >= chunk_size || length % chunk_size as usize
            != 0 {
            return Err(
                invalid(
                    "UMEM length must be page-aligned and divisible by a 2048..65536 power-of-two chunk; headroom must be smaller than chunk",
                ),
            );
        }
        if length > isize::MAX as usize - 4095 {
            return Err(invalid("UMEM layout is invalid"));
        }
        Ok(UmemRegion { length: length as u64, chunk_size, headroom })
    }

    /// The bytes of the memory.
    #[must_use]
    pub fn length(&self) -> (r: u64)
        ensures
            r == self.bytes(),
    {
        self.length
    }

    /// The bytes of a frame.
    #[must_use]
    pub fn chunk_size(&self) -> (r: u32)
        ensures
            r == self.chunk(),
            r >= 2048,
    {
        proof {
            use_type_invariant(self);
        }
        self.chunk_size
    }

    /// The bytes before the payload in a frame.
    #[must_use]
    pub fn headroom(&self) -> (r: u32)
        ensures
            r == self.room(),
            r < self.chunk(),
    {
        proof {
            use_type_invariant(self);
        }
        self.headroom
    }

    /// Where a payload in a frame is.
    ///
    /// # Errors
    ///
    /// Fails when there is no such frame and when the payload is longer than its room.
    pub fn frame_descriptor(&self, index: u64, length: u32) -> (r: Result<
        FrameDescriptor,
        AfXdpError,
    >)
        ensures
            match r {
                Ok(d) => {
                    &&& index < self.frames()
                    &&& length <= self.chunk() - self.room()
                    &&& d.offset == index * self.chunk() + self.room()
                    &&& d.length == length
                    &&& d.offset + d.length <= self.bytes()
                },
                Err(e) => {
                    &&& index >= self.frames() || length > self.chunk() - self.room()
                    &&& e.text() == AfXdpErrorText::InvalidConfig(
                        "UMEM frame descriptor exceeds region bounds"@,
                    )
                },
            },
    {
        proof {
            use_type_invariant(self);
        }
        let frame_count: u64 = self.length / self.chunk_size as u64;
        if index >= frame_count || length > self.chunk_size - self.headroom {
            return Err(invalid("UMEM frame descriptor exceeds region bounds"));
        }
        proof {
            lemma_frame_fits(index as int, self.chunk_size as int, self.length as int);
        }
        let offset: u64 = index * self.chunk_size as u64 + self.headroom as u64;
        Ok(FrameDescriptor { offset, length })
    }

    /// Where a frame begins.
    ///
    /// # Errors
    ///
    /// Fails when there is no such frame.
    pub fn frame_offset(&self, index: u64) -> (r: Result<u64, AfXdpError>)
        ensures
            match r {
                Ok(offset) => index < self.frames() && offset == index * self.chunk(),
                Err(e) => index >= self.frames() && e.text() == AfXdpErrorText::InvalidConfig(
                    "UMEM frame index exceeds region bounds"@,
                ),
            },
    {
        match self.frame_base(index) {
            Ok(offset) => Ok(offset),
            Err(message) => Err(invalid(message)),
        }
    }

    pub(crate) fn frame_base(&self, index: u64) -> (r: Result<u64, &'static str>)
        ensures
            match r {
                Ok(offset) => index < self.frames() && offset == index * self.chunk(),
                Err(message) => index >= self.frames() && message@
                    == "UMEM frame index exceeds region bounds"@,
            },
    {
        proof {
            use_type_invariant(self);
        }
        let frame_count: u64 = self.length / self.chunk_size as u64;
        if index >= frame_count {
            return Err("UMEM frame index exceeds region bounds");
        }
        proof {
            lemma_frame_fits(index as int, self.chunk_size as int, self.length as int);
        }
        Ok(index * self.chunk_size as u64)
    }
}

proof fn lemma_frame_fits(index: int, chunk: int, length: int)
    requires
        chunk > 0,
        0 <= index < length / chunk,
    ensures
        0 <= index * chunk,
        index * chunk + chunk <= length,
{
    lemma_fundamental_div_mod(length, chunk);
    let q = length / chunk;
    assert(index * chunk + chunk <= chunk * q) by (nonlinear_arith)
        requires
            index + 1 <= q,
            chunk > 0,
    ;
    assert(0 <= index * chunk) by (nonlinear_arith)
        requires
            index >= 0,
            chunk > 0,
    ;
}

/// Payloads of different frames never share a byte of the memory.
pub proof fn law_frames_do_not_overlap(chunk: u32, headroom: u32, first: u64, length: u32, second: u64)
    requires
        first < second,
        headroom < chunk,
        length <= chunk - headroom,
    ensures
        first * chunk + headroom + length <= second * chunk + headroom,
{
    assert(first * chunk + headroom + length <= second * chunk + headroom) by (nonlinear_arith)
        requires
            first < second,
            length <= chunk,
    ;
}

// --------------------------------------------------------------------------- a ring of frames

/// A ring of a fixed capacity with one producer and one consumer: what came first leaves
/// first. Both counters run on and wrap.
#[derive(Debug)]
pub struct FrameRing {
    entries: Vec<FrameDescriptor>,
    capacity: u32,
    producer: u32,
    consumer: u32,
}

impl View for FrameRing {
    type V = Seq<FrameDescriptor>;

    closed spec fn view(&self) -> Seq<FrameDescriptor> {
        Seq::new(
            numbers::ahead(self.producer, self.consumer),
            |i: int| self.entries@[(self.consumer + i) % (self.capacity as int)],
        )
    }
}

impl FrameRing {
    /// The room of the ring.
    pub closed spec fn capacity(self) -> u32 {
        self.capacity
    }

    /// Whether the ring holds no more than its room, and its size is one that the counters
    /// can wrap around.
    #[verifier::type_invariant]
    spec fn valid(self) -> bool {
        &&& valid_size(self.capacity)
        &&& self.entries@.len() == self.capacity
        &&& numbers::ahead(self.producer, self.consumer) <= self.capacity
    }

    /// Creates an empty ring.
    ///
    /// # Errors
    ///
    /// Fails when the capacity is not a power of two or too large.
    pub fn new(capacity: u32) -> (r: Result<Self, AfXdpError>)
        ensures
            match r {
                Ok(ring) => {
                    &&& valid_size(capacity)
                    &&& ring.capacity() == capacity
                    &&& ring@ == Seq::<FrameDescriptor>::empty()
                },
                Err(e) => !valid_size(capacity) && e.text() == AfXdpErrorText::InvalidConfig(
                    "descriptor ring capacity must be a power-of-two between 1 and 1048576"@,
                ),
            },
    {
        if !is_valid_size(capacity) {
            return Err(
                invalid("descriptor ring capacity must be a power-of-two between 1 and 1048576"),
            );
        }
        let mut entries: Vec<FrameDescriptor> = Vec::new();
        let mut i: u32 = 0;
        while i < capacity
            invariant
                i <= capacity,
                entries@.len() == i,
            decreases capacity - i,
        {
            entries.push(FrameDescriptor { offset: 0, length: 0 });
            i += 1;
        }
        let ring = FrameRing { entries, capacity, producer: 0, consumer: 0 };
        proof {
            assert(ring@ =~= Seq::<FrameDescriptor>::empty());
        }
        Ok(ring)
    }

    /// Adds a descriptor at the end, unless the ring is full.
    pub fn try_push(&mut self, descriptor: FrameDescriptor) -> (r: bool)
        ensures
            final(self).capacity() == old(self).capacity(),
            r == (old(self)@.len() < old(self).capacity()),
            final(self)@ == if r {
                old(self)@.push(descriptor)
            } else {
                old(self)@
            },
    {
        proof {
            use_type_invariant(&*self);
        }
        if distance(self.producer, self.consumer) >= self.capacity {
            return false;
        }
        let ghost before = *self;
        let index: u32 = self.producer % self.capacity;
        let next: u32 = advance(self.producer, 1);
        proof {
            let held = numbers::ahead(self.producer, self.consumer);
            numbers::lemma_distance_follows(self.producer, self.consumer);
            numbers::lemma_remainder_runs_on(self.consumer, held, self.capacity);
        }
        self.entries[index as usize] = descriptor;
        self.producer = next;
        proof {
            let n = before@.len();
            assert forall|i: int| 0 <= i < n implies self@[i] == before@[i] by {
                numbers::lemma_remainders_differ(
                    before.consumer + i,
                    before.consumer + n,
                    before.capacity as int,
                );
            }
            assert(self@ =~= before@.push(descriptor));
        }
        true
    }

    /// Takes the descriptor at the front, unless the ring is empty.
    pub fn try_pop(&mut self) -> (r: Option<FrameDescriptor>)
        ensures
            final(self).capacity() == old(self).capacity(),
            old(self)@.len() == 0 ==> r is None && final(self)@ == old(self)@,
            old(self)@.len() > 0 ==> r == Some(old(self)@[0]) && final(self)@
                == old(self)@.drop_first(),
    {
        proof {
            use_type_invariant(&*self);
            numbers::lemma_distance_follows(self.producer, self.consumer);
        }
        if self.consumer == self.producer {
            return None;
        }
        let ghost before = *self;
        let index: u32 = self.consumer % self.capacity;
        let descriptor = self.entries[index as usize];
        self.consumer = advance(self.consumer, 1);
        proof {
            assert forall|i: int| 0 <= i < before@.len() - 1 implies self@[i] == before@[i + 1] by {
                numbers::lemma_slot_runs_on(before.consumer, 1, i as nat, before.capacity);
            }
            assert(self@ =~= before@.drop_first());
        }
        Some(descriptor)
    }

    /// The number of descriptors.
    #[must_use]
    pub fn len(&self) -> (r: u32)
        ensures
            r == self@.len(),
            r <= self.capacity(),
    {
        proof {
            use_type_invariant(self);
        }
        let held: u32 = distance(self.producer, self.consumer);
        if held < self.capacity {
            held
        } else {
            self.capacity
        }
    }

    /// Whether there are none.
    #[must_use]
    pub fn is_empty(&self) -> (r: bool)
        ensures
            r == (self@.len() == 0),
    {
        self.len() == 0
    }
}

} // verus!
