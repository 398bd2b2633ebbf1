//! The benchmark plan and the environment that a result is bound to.

use crate::digest;
use crate::digest::sha256;
use crate::error::{ErrorCode, NetToolError};
use crate::octets;
use crate::octets::{push_be32, push_be64, push_bytes};
use crate::text;
use crate::text::{decimal_text, hex_text, is_blank, join_names};
use vstd::prelude::*;
use vstd::utf8::encode_utf8;

verus! {

/// The phases of a benchmark.
#[derive(Clone, Copy, Debug, PartialEq, Eq, Structural)]
pub enum BenchmarkPhase {
    /// Checks the environment.
    EnvironmentCheck,
    /// Measures the interface.
    NicBaseline,
    /// Measures receiving.
    RxBaseline,
    /// Measures transmitting.
    TxBaseline,
    /// Measures both at once.
    Bidirectional,
    /// Varies the packet size.
    PacketSizeMatrix,
    /// Varies the number of flows.
    FlowMatrix,
    /// Measures for a long time.
    DurationTest,
    /// Measures with analysis.
    AnalysisTest,
    /// Gathers the result.
    Result,
}

/// The phases in the order in which they run.
pub open spec fn phase_order() -> Seq<BenchmarkPhase> {
    seq![
        BenchmarkPhase::EnvironmentCheck,
        BenchmarkPhase::NicBaseline,
        BenchmarkPhase::RxBaseline,
        BenchmarkPhase::TxBaseline,
        BenchmarkPhase::Bidirectional,
        BenchmarkPhase::PacketSizeMatrix,
        BenchmarkPhase::FlowMatrix,
        BenchmarkPhase::DurationTest,
        BenchmarkPhase::AnalysisTest,
        BenchmarkPhase::Result,
    ]
}

/// A benchmark that can be repeated.
#[derive(Clone, Debug, PartialEq, Eq)]
pub struct BenchmarkPlan {
    /// The profile.
    pub profile_id: String,
    /// The frame sizes in bytes.
    pub frame_sizes_bytes: Vec<u32>,
    /// The numbers of flows.
    pub flow_counts: Vec<u64>,
    /// The warm up time in seconds.
    pub warmup_seconds: u64,
    /// The measuring time of each phase in seconds.
    pub measurement_seconds: u64,
    /// The time of the sustained test in seconds.
    pub sustained_seconds: u64,
}

/// The frame sizes that every plan has to hold.
pub open spec fn required_frame_sizes() -> Seq<u32> {
    seq![64, 128, 256, 512, 1024, 1518, 9018]
}

/// The numbers of flows that every plan has to hold.
pub open spec fn required_flow_counts() -> Seq<u64> {
    seq![1, 16, 256, 4096]
}

/// The first required number, from a position on, that is missing.
pub open spec fn first_missing_size(required: Seq<u32>, present: Seq<u32>, i: int) -> Option<u32>
    decreases required.len() - i,
{
    if i < 0 || i >= required.len() {
        None
    } else if !present.contains(required[i]) {
        Some(required[i])
    } else {
        first_missing_size(required, present, i + 1)
    }
}

/// The first required number, from a position on, that is missing.
pub open spec fn first_missing_count(required: Seq<u64>, present: Seq<u64>, i: int) -> Option<u64>
    decreases required.len() - i,
{
    if i < 0 || i >= required.len() {
        None
    } else if !present.contains(required[i]) {
        Some(required[i])
    } else {
        first_missing_count(required, present, i + 1)
    }
}

/// What is wrong with a plan, if something is.
pub open spec fn plan_fault(plan: BenchmarkPlan) -> Option<Seq<char>> {
    let size = first_missing_size(required_frame_sizes(), plan.frame_sizes_bytes@, 0);
    let count = first_missing_count(required_flow_counts(), plan.flow_counts@, 0);
    if text::blank(plan.profile_id@) {
        Some("benchmark profile ID is required"@)
    } else if size is Some {
        Some("benchmark frame matrix is missing "@ + text::decimal(size->0 as nat) + "B"@)
    } else if count is Some {
        Some("benchmark flow matrix is missing "@ + text::decimal(count->0 as nat) + " flows"@)
    } else if !(exists|i: int|
        0 <= i < plan.flow_counts@.len() && (#[trigger] plan.flow_counts@[i]) >= 1_000_000) {
        Some("benchmark flow matrix requires a high-cardinality test"@)
    } else if plan.warmup_seconds == 0 || plan.measurement_seconds == 0 || plan.sustained_seconds
        == 0 {
        Some("benchmark durations must be non-zero"@)
    } else {
        None
    }
}

fn holds_size(v: &[u32], n: u32) -> (r: bool)
    ensures
        r == v@.contains(n),
{
    let mut i: usize = 0;
    while i < v.len()
        invariant
            i <= v@.len(),
            forall|j: int| 0 <= j < i ==> v@[j] != n,
        decreases v@.len() - i,
    {
        if v[i] == n {
            return true;
        }
        i += 1;
    }
    false
}

fn holds_count(v: &[u64], n: u64) -> (r: bool)
    ensures
        r == v@.contains(n),
{
    let mut i: usize = 0;
    while i < v.len()
        invariant
            i <= v@.len(),
            forall|j: int| 0 <= j < i ==> v@[j] != n,
        decreases v@.len() - i,
    {
        if v[i] == n {
            return true;
        }
        i += 1;
    }
    false
}

fn find_missing_size(required: &[u32], present: &[u32]) -> (r: Option<u32>)
    ensures
        r == first_missing_size(required@, present@, 0),
{
    let mut i: usize = 0;
    while i < required.len()
        invariant
            i <= required@.len(),
            first_missing_size(required@, present@, 0) == first_missing_size(
                required@,
                present@,
                i as int,
            ),
        decreases required@.len() - i,
    {
        if !holds_size(present, required[i]) {
            return Some(required[i]);
        }
        i += 1;
    }
    None
}

fn find_missing_count(required: &[u64], present: &[u64]) -> (r: Option<u64>)
    ensures
        r == first_missing_count(required@, present@, 0),
{
    let mut i: usize = 0;
    while i < required.len()
        invariant
            i <= required@.len(),
            first_missing_count(required@, present@, 0) == first_missing_count(
                required@,
                present@,
                i as int,
            ),
        decreases required@.len() - i,
    {
        if !holds_count(present, required[i]) {
            return Some(required[i]);
        }
        i += 1;
    }
    None
}

impl BenchmarkPlan {
    /// Returns the phases in the order in which they run.
    #[must_use]
    pub fn phases() -> (r: [BenchmarkPhase; 10])
        ensures
            r@ == phase_order(),
    {
        let phases = [
            BenchmarkPhase::EnvironmentCheck,
            BenchmarkPhase::NicBaseline,
            BenchmarkPhase::RxBaseline,
            BenchmarkPhase::TxBaseline,
            BenchmarkPhase::Bidirectional,
            BenchmarkPhase::PacketSizeMatrix,
            BenchmarkPhase::FlowMatrix,
            BenchmarkPhase::DurationTest,
            BenchmarkPhase::AnalysisTest,
            BenchmarkPhase::Result,
        ];
        proof {
            assert(phases@ =~= phase_order());
        }
        phases
    }

    /// Checks the matrices and times.
    ///
    /// # Errors
    ///
    /// Fails when the profile is blank, a required frame size or number of flows is missing,
    /// no number of flows is high or a time is zero.
    pub fn validate(&self) -> (r: Result<(), NetToolError>)
        ensures
            match r {
                Ok(_) => plan_fault(*self) is None,
                Err(e) => plan_fault(*self) is Some && e.is(
                    ErrorCode::InvalidArgument,
                    plan_fault(*self)->0,
                    false,
                ),
            },
    {
        if is_blank(self.profile_id.as_str()) {
            return Err(invalid("benchmark profile ID is required"));
        }
        let sizes = [64u32, 128u32, 256u32, 512u32, 1024u32, 1518u32, 9018u32];
        proof {
            assert(sizes@ =~= required_frame_sizes());
        }
        match find_missing_size(&sizes, self.frame_sizes_bytes.as_slice()) {
            Some(n) => {
                let mut message = "benchmark frame matrix is missing ".to_owned();
                message.append(decimal_text(n as u64).as_str());
                message.append("B");
                return Err(invalid(message.as_str()));
            },
            None => {},
        }
        let counts = [1u64, 16u64, 256u64, 4096u64];
        proof {
            assert(counts@ =~= required_flow_counts());
        }
        match find_missing_count(&counts, self.flow_counts.as_slice()) {
            Some(n) => {
                let mut message = "benchmark flow matrix is missing ".to_owned();
                message.append(decimal_text(n).as_str());
                message.append(" flows");
                return Err(invalid(message.as_str()));
            },
            None => {},
        }
        let mut high: bool = false;
        let mut i: usize = 0;
        while i < self.flow_counts.len()
            invariant
                i <= self.flow_counts@.len(),
                high == exists|j: int|
                    0 <= j < i && (#[trigger] self.flow_counts@[j]) >= 1_000_000,
            decreases self.flow_counts@.len() - i,
        {
            if self.flow_counts[i] >= 1_000_000 {
                high = true;
            }
            i += 1;
        }
        if !high {
            return Err(invalid("benchmark flow matrix requires a high-cardinality test"));
        }
        if self.warmup_seconds == 0 || self.measurement_seconds == 0 || self.sustained_seconds
            == 0 {
            return Err(invalid("benchmark durations must be non-zero"));
        }
        Ok(())
    }
}

/// The environment of a benchmark, as far as it could be verified.
#[derive(Clone, Debug, PartialEq, Eq)]
pub struct BenchmarkEnvironmentSnapshot {
    /// The operating system and its version.
    pub os: Option<String>,
    /// The kernel.
    pub kernel: Option<String>,
    /// The processor.
    pub cpu: Option<String>,
    /// The frequency of the processor.
    pub cpu_frequency: Option<String>,
    /// The NUMA topology.
    pub numa: Option<String>,
    /// The memory.
    pub memory: Option<String>,
    /// The huge pages.
    pub huge_pages: Option<String>,
    /// The network interface.
    pub nic: Option<String>,
    /// The link to the bus.
    pub pcie: Option<String>,
    /// The firmware of the interface.
    pub firmware: Option<String>,
    /// The driver and its version.
    pub driver: Option<String>,
    /// The DPDK version; another backend says `not_applicable`.
    pub dpdk_version: Option<String>,
    /// The backend and its version.
    pub backend: Option<String>,
    /// The maximum transmission unit in bytes.
    pub mtu: Option<u32>,
    /// The number of receive queues.
    pub rx_queues: Option<u32>,
    /// The number of transmit queues.
    pub tx_queues: Option<u32>,
    /// The RSS configuration.
    pub rss: Option<String>,
    /// The offload configuration.
    pub offloads: Option<String>,
}

/// The name of a text field, where the field is missing or blank.
pub open spec fn missing_text(name: Seq<char>, value: Option<String>) -> Seq<Seq<char>> {
    match value {
        Some(s) if !text::blank(s@) => Seq::empty(),
        _ => seq![name],
    }
}

/// The name of a number field, where the field is missing.
pub open spec fn missing_number(name: Seq<char>, value: Option<u32>) -> Seq<Seq<char>> {
    if value is Some {
        Seq::empty()
    } else {
        seq![name]
    }
}

impl BenchmarkEnvironmentSnapshot {
    /// The names of the fields that are missing.
    pub open spec fn missing(self) -> Seq<Seq<char>> {
        missing_text("os"@, self.os) + missing_text("kernel"@, self.kernel) + missing_text(
            "cpu"@,
            self.cpu,
        ) + missing_text("cpu_frequency"@, self.cpu_frequency) + missing_text("numa"@, self.numa)
            + missing_text("memory"@, self.memory) + missing_text("huge_pages"@, self.huge_pages)
            + missing_text("nic"@, self.nic) + missing_text("pcie"@, self.pcie) + missing_text(
            "firmware"@,
            self.firmware,
        ) + missing_text("driver"@, self.driver) + missing_text("dpdk_version"@, self.dpdk_version)
            + missing_text("backend"@, self.backend) + missing_text("rss"@, self.rss)
            + missing_text("offloads"@, self.offloads) + missing_number("mtu"@, self.mtu)
            + missing_number("rx_queues"@, self.rx_queues) + missing_number(
            "tx_queues"@,
            self.tx_queues,
        )
    }

    /// Returns the names of the fields that are missing.
    #[must_use]
    pub fn missing_fields(&self) -> (r: Vec<&'static str>)
        ensures
            text::names(r@) == self.missing(),
    {
        let mut out: Vec<&'static str> = Vec::new();
        proof {
            assert(text::names(out@) == Seq::<Seq<char>>::empty());
        }
        note_text(&mut out, "os", &self.os);
        note_text(&mut out, "kernel", &self.kernel);
        note_text(&mut out, "cpu", &self.cpu);
        note_text(&mut out, "cpu_frequency", &self.cpu_frequency);
        note_text(&mut out, "numa", &self.numa);
        note_text(&mut out, "memory", &self.memory);
        note_text(&mut out, "huge_pages", &self.huge_pages);
        note_text(&mut out, "nic", &self.nic);
        note_text(&mut out, "pcie", &self.pcie);
        note_text(&mut out, "firmware", &self.firmware);
        note_text(&mut out, "driver", &self.driver);
        note_text(&mut out, "dpdk_version", &self.dpdk_version);
        note_text(&mut out, "backend", &self.backend);
        note_text(&mut out, "rss", &self.rss);
        note_text(&mut out, "offloads", &self.offloads);
        note_number(&mut out, "mtu", self.mtu);
        note_number(&mut out, "rx_queues", self.rx_queues);
        note_number(&mut out, "tx_queues", self.tx_queues);
        proof {
            let none = Seq::<Seq<char>>::empty();
            assert(none + missing_text("os"@, self.os) == missing_text("os"@, self.os));
        }
        out
    }

    /// The bytes that the certification key is the digest of: every field with its length
    /// before it.
    pub open spec fn fingerprint_bytes(self) -> Seq<u8> {
        text_code(self.os) + text_code(self.kernel) + text_code(self.cpu) + text_code(
            self.cpu_frequency,
        ) + text_code(self.numa) + text_code(self.memory) + text_code(self.huge_pages)
            + text_code(self.nic) + text_code(self.pcie) + text_code(self.firmware) + text_code(
            self.driver,
        ) + text_code(self.dpdk_version) + text_code(self.backend) + text_code(self.rss)
            + text_code(self.offloads) + number_code(self.mtu) + number_code(self.rx_queues)
            + number_code(self.tx_queues)
    }

    /// Why there is no certification key, if there is none.
    pub open spec fn key_fault(self) -> Option<Seq<char>> {
        if self.missing().len() > 0 {
            Some("benchmark environment is incomplete: "@ + text::joined(self.missing(), ","@))
        } else if self.mtu == Some(0u32) || self.rx_queues == Some(0u32) || self.tx_queues == Some(
            0u32,
        ) {
            Some("MTU and queue counts must be non-zero"@)
        } else {
            None
        }
    }

    /// The certification key: the digest of all fields in hexadecimal notation.
    pub open spec fn key(self) -> Seq<char> {
        text::hex(digest::sha256_of(self.fingerprint_bytes()), false)
    }

    /// Computes the key that binds a certification to the complete platform.
    ///
    /// # Errors
    ///
    /// Fails when a field is missing or a number is zero.
    pub fn certification_key(&self) -> (r: Result<String, NetToolError>)
        ensures
            match r {
                Ok(key) => self.key_fault() is None && key@ == self.key(),
                Err(e) => self.key_fault() is Some && e.is(
                    ErrorCode::InvalidArgument,
                    self.key_fault()->0,
                    false,
                ),
            },
    {
        let missing = self.missing_fields();
        proof {
            assert(text::names(missing@).len() == missing@.len());
        }
        if missing.len() != 0 {
            let mut message = "benchmark environment is incomplete: ".to_owned();
            message.append(join_names(missing.as_slice(), ",").as_str());
            return Err(invalid(message.as_str()));
        }
        if is_zero(self.mtu) || is_zero(self.rx_queues) || is_zero(self.tx_queues) {
            return Err(invalid("MTU and queue counts must be non-zero"));
        }
        let bytes = self.fingerprint();
        let hash = sha256(bytes.as_slice());
        Ok(hex_text(hash.as_slice(), false))
    }

    fn fingerprint(&self) -> (r: Vec<u8>)
        ensures
            r@ == self.fingerprint_bytes(),
    {
        let mut out: Vec<u8> = Vec::new();
        push_text_code(&mut out, &self.os);
        push_text_code(&mut out, &self.kernel);
        push_text_code(&mut out, &self.cpu);
        push_text_code(&mut out, &self.cpu_frequency);
        push_text_code(&mut out, &self.numa);
        push_text_code(&mut out, &self.memory);
        push_text_code(&mut out, &self.huge_pages);
        push_text_code(&mut out, &self.nic);
        push_text_code(&mut out, &self.pcie);
        push_text_code(&mut out, &self.firmware);
        push_text_code(&mut out, &self.driver);
        push_text_code(&mut out, &self.dpdk_version);
        push_text_code(&mut out, &self.backend);
        push_text_code(&mut out, &self.rss);
        push_text_code(&mut out, &self.offloads);
        push_number_code(&mut out, self.mtu);
        push_number_code(&mut out, self.rx_queues);
        push_number_code(&mut out, self.tx_queues);
        proof {
            let none = Seq::<u8>::empty();
            assert(none + text_code(self.os) == text_code(self.os));
        }
        out
    }
}

fn is_zero(n: Option<u32>) -> (r: bool)
    ensures
        r == (n == Some(0u32)),
{
    match n {
        Some(v) => v == 0,
        None => false,
    }
}

fn note_text(out: &mut Vec<&'static str>, name: &'static str, value: &Option<String>)
    ensures
        text::names(final(out)@) == text::names(old(out)@) + missing_text(name@, *value),
{
    let ghost before = text::names(out@);
    let present = match value {
        Some(s) => !is_blank(s.as_str()),
        None => false,
    };
    if !present {
        out.push(name);
    }
    proof {
        assert(text::names(out@) =~= before + missing_text(name@, *value));
    }
}

fn note_number(out: &mut Vec<&'static str>, name: &'static str, value: Option<u32>)
    ensures
        text::names(final(out)@) == text::names(old(out)@) + missing_number(name@, value),
{
    let ghost before = text::names(out@);
    if value.is_none() {
        out.push(name);
    }
    proof {
        assert(text::names(out@) =~= before + missing_number(name@, value));
    }
}

/// A byte sequence with its length before it.
pub open spec fn length_code(b: Seq<u8>) -> Seq<u8> {
    octets::be64(b.len() as u64) + b
}

/// The bytes of an optional text.
pub open spec fn text_bytes(value: Option<String>) -> Seq<u8> {
    match value {
        Some(s) => encode_utf8(s@),
        None => Seq::empty(),
    }
}

/// A text field with its length before it.
pub open spec fn text_code(value: Option<String>) -> Seq<u8> {
    length_code(text_bytes(value))
}

/// A number field with its length before it.
pub open spec fn number_code(value: Option<u32>) -> Seq<u8> {
    length_code(
        octets::be32(
            match value {
                Some(n) => n,
                None => 0,
            },
        ),
    )
}

fn push_text_code(out: &mut Vec<u8>, value: &Option<String>)
    ensures
        final(out)@ == old(out)@ + text_code(*value),
{
    match value {
        Some(s) => {
            let bytes = s.as_str().as_bytes();
            push_be64(out, bytes.len() as u64);
            push_bytes(out, bytes);
        },
        None => {
            push_be64(out, 0);
        },
    }
    proof {
        assert(out@ =~= old(out)@ + text_code(*value));
    }
}

fn push_number_code(out: &mut Vec<u8>, value: Option<u32>)
    ensures
        final(out)@ == old(out)@ + number_code(value),
{
    push_be64(out, 4);
    push_be32(
        out,
        match value {
            Some(n) => n,
            None => 0,
        },
    );
    proof {
        assert(out@ =~= old(out)@ + number_code(value));
    }
}

/// Fields with their lengths before them can be told apart: equal bytes begin with equal
/// fields and go on equally.
proof fn lemma_length_code(a: Seq<u8>, x: Seq<u8>, b: Seq<u8>, y: Seq<u8>)
    requires
        length_code(a) + x == length_code(b) + y,
        a.len() <= u64::MAX,
        b.len() <= u64::MAX,
    ensures
        a == b,
        x == y,
{
    let s = length_code(a) + x;
    let t = length_code(b) + y;
    assert(s.take(8) == octets::be64(a.len() as u64));
    assert(t.take(8) == octets::be64(b.len() as u64));
    octets::lemma_be64_injective(a.len() as u64, b.len() as u64);
    let n = a.len() as int;
    assert(s.subrange(8, 8 + n) == a);
    assert(t.subrange(8, 8 + n) == b);
    assert(s.skip(8 + n) == x);
    assert(t.skip(8 + n) == y);
}

/// The coded fields one after the other.
pub open spec fn codes(list: Seq<Seq<u8>>) -> Seq<u8>
    decreases list.len(),
{
    if list.len() == 0 {
        Seq::empty()
    } else {
        codes(list.drop_last()) + length_code(list.last())
    }
}

proof fn lemma_codes_front(list: Seq<Seq<u8>>)
    requires
        list.len() > 0,
    ensures
        codes(list) == length_code(list[0]) + codes(list.drop_first()),
    decreases list.len(),
{
    let tail = list.drop_first();
    if list.len() == 1 {
        reveal_with_fuel(codes, 2);
        assert(list.drop_last() == Seq::<Seq<u8>>::empty());
        assert(tail == Seq::<Seq<u8>>::empty());
        assert(codes(list) =~= length_code(list[0]) + codes(tail));
    } else {
        lemma_codes_front(list.drop_last());
        assert(list.drop_last().drop_first() == tail.drop_last());
        assert(list.drop_last()[0] == list[0]);
        assert(tail.last() == list.last());
        assert(codes(list) =~= length_code(list[0]) + codes(tail));
    }
}

proof fn lemma_codes_injective(a: Seq<Seq<u8>>, b: Seq<Seq<u8>>)
    requires
        a.len() == b.len(),
        codes(a) == codes(b),
        forall|i: int| 0 <= i < a.len() ==> (#[trigger] a[i]).len() <= u64::MAX,
        forall|i: int| 0 <= i < b.len() ==> (#[trigger] b[i]).len() <= u64::MAX,
    ensures
        a == b,
    decreases a.len(),
{
    if a.len() > 0 {
        lemma_codes_front(a);
        lemma_codes_front(b);
        let ta = a.drop_first();
        let tb = b.drop_first();
        assert(a[0].len() <= u64::MAX && b[0].len() <= u64::MAX);
        lemma_length_code(a[0], codes(ta), b[0], codes(tb));
        assert forall|i: int| 0 <= i < ta.len() implies (#[trigger] ta[i]).len() <= u64::MAX by {
            assert(ta[i] == a[i + 1]);
        }
        assert forall|i: int| 0 <= i < tb.len() implies (#[trigger] tb[i]).len() <= u64::MAX by {
            assert(tb[i] == b[i + 1]);
        }
        lemma_codes_injective(ta, tb);
        assert(a == seq![a[0]] + ta);
        assert(b == seq![b[0]] + tb);
    } else {
        assert(a == b);
    }
}

impl BenchmarkEnvironmentSnapshot {
    /// The contents of the fields, in the order in which they are coded.
    pub open spec fn contents(self) -> Seq<Seq<u8>> {
        seq![
            text_bytes(self.os),
            text_bytes(self.kernel),
            text_bytes(self.cpu),
            text_bytes(self.cpu_frequency),
            text_bytes(self.numa),
            text_bytes(self.memory),
            text_bytes(self.huge_pages),
            text_bytes(self.nic),
            text_bytes(self.pcie),
            text_bytes(self.firmware),
            text_bytes(self.driver),
            text_bytes(self.dpdk_version),
            text_bytes(self.backend),
            text_bytes(self.rss),
            text_bytes(self.offloads),
            octets::be32(
                match self.mtu {
                    Some(n) => n,
                    None => 0,
                },
            ),
            octets::be32(
                match self.rx_queues {
                    Some(n) => n,
                    None => 0,
                },
            ),
            octets::be32(
                match self.tx_queues {
                    Some(n) => n,
                    None => 0,
                },
            ),
        ]
    }

    proof fn lemma_contents(self)
        ensures
            self.fingerprint_bytes() == codes(self.contents()),
    {
        let c = self.contents();
        assert(c.len() == 18);
        lemma_codes_step(c, 0);
        lemma_codes_step(c, 1);
        lemma_codes_step(c, 2);
        lemma_codes_step(c, 3);
        lemma_codes_step(c, 4);
        lemma_codes_step(c, 5);
        lemma_codes_step(c, 6);
        lemma_codes_step(c, 7);
        lemma_codes_step(c, 8);
        lemma_codes_step(c, 9);
        lemma_codes_step(c, 10);
        lemma_codes_step(c, 11);
        lemma_codes_step(c, 12);
        lemma_codes_step(c, 13);
        lemma_codes_step(c, 14);
        lemma_codes_step(c, 15);
        lemma_codes_step(c, 16);
        lemma_codes_step(c, 17);
        assert(c.take(0) == Seq::<Seq<u8>>::empty());
        assert(c.take(18) == c);
        assert(Seq::<u8>::empty() + text_code(self.os) == text_code(self.os));
    }

    /// The key binds every field: the bytes that it is the digest of are equal for two
    /// complete environments only where every field is.
    #[verifier::rlimit(40)]
    pub proof fn law_fingerprint_binds_every_field(self, other: Self)
        requires
            self.key_fault() is None,
            other.key_fault() is None,
            self.fingerprint_bytes() == other.fingerprint_bytes(),
            forall|i: int| 0 <= i < 18 ==> (#[trigger] self.contents()[i]).len() <= u64::MAX,
            forall|i: int| 0 <= i < 18 ==> (#[trigger] other.contents()[i]).len() <= u64::MAX,
        ensures
            self.contents() == other.contents(),
            self.mtu == other.mtu,
            self.rx_queues == other.rx_queues,
            self.tx_queues == other.tx_queues,
            forall|i: int|
                0 <= i < 15 ==> #[trigger] self.texts()[i] == other.texts()[i],
    {
        self.lemma_contents();
        other.lemma_contents();
        self.lemma_numbers();
        other.lemma_numbers();
        lemma_codes_injective(self.contents(), other.contents());
        octets::lemma_be32_injective(self.mtu->0, other.mtu->0);
        octets::lemma_be32_injective(self.rx_queues->0, other.rx_queues->0);
        octets::lemma_be32_injective(self.tx_queues->0, other.tx_queues->0);
        assert forall|i: int| 0 <= i < 15 implies #[trigger] self.texts()[i] == other.texts()[i] by {
            self.lemma_text_at(i);
            other.lemma_text_at(i);
            vstd::utf8::encode_utf8_decode_utf8(self.texts()[i]);
            vstd::utf8::encode_utf8_decode_utf8(other.texts()[i]);
        }
    }

    proof fn lemma_numbers(self)
        requires
            self.missing().len() == 0,
        ensures
            self.contents().len() == 18,
            self.mtu is Some && self.contents()[15] == octets::be32(self.mtu->0),
            self.rx_queues is Some && self.contents()[16] == octets::be32(self.rx_queues->0),
            self.tx_queues is Some && self.contents()[17] == octets::be32(self.tx_queues->0),
    {
        self.lemma_complete();
    }

    proof fn lemma_text_at(self, i: int)
        requires
            self.missing().len() == 0,
            0 <= i < 15,
        ensures
            self.contents()[i] == encode_utf8(self.texts()[i]),
    {
        self.lemma_complete();
    }

    /// The text fields of a complete environment.
    pub open spec fn texts(self) -> Seq<Seq<char>> {
        seq![
            (self.os->0)@,
            (self.kernel->0)@,
            (self.cpu->0)@,
            (self.cpu_frequency->0)@,
            (self.numa->0)@,
            (self.memory->0)@,
            (self.huge_pages->0)@,
            (self.nic->0)@,
            (self.pcie->0)@,
            (self.firmware->0)@,
            (self.driver->0)@,
            (self.dpdk_version->0)@,
            (self.backend->0)@,
            (self.rss->0)@,
            (self.offloads->0)@,
        ]
    }

    proof fn lemma_complete(self)
        requires
            self.missing().len() == 0,
        ensures
            self.os is Some && self.kernel is Some && self.cpu is Some && self.cpu_frequency is Some
                && self.numa is Some && self.memory is Some && self.huge_pages is Some
                && self.nic is Some && self.pcie is Some && self.firmware is Some
                && self.driver is Some && self.dpdk_version is Some && self.backend is Some
                && self.rss is Some && self.offloads is Some && self.mtu is Some
                && self.rx_queues is Some && self.tx_queues is Some,
    {
    }
}

proof fn lemma_codes_step(c: Seq<Seq<u8>>, n: int)
    requires
        0 <= n < c.len(),
    ensures
        codes(c.take(n + 1)) == codes(c.take(n)) + length_code(c[n]),
{
    assert(c.take(n + 1).drop_last() == c.take(n));
    assert(c.take(n + 1).last() == c[n]);
}

fn invalid(message: &str) -> (r: NetToolError)
    ensures
        r.is(ErrorCode::InvalidArgument, message@, false),
{
    NetToolError::new(ErrorCode::InvalidArgument, message, false)
}

} // verus!
