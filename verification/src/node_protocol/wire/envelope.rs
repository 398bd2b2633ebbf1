//! The variants of a node envelope.

use crate::node_protocol::wire::{
    CapabilityRequest, CapabilityResponse, HelloRequest, HelloResponse, PairRequest, PairResponse,
    Ping, Pong, PrepareTest, PrepareTestResponse, ProtocolError, StartTest, StopTest, TestResult,
    TestResultRequest, TestStatus,
};
use crate::protobuf;
use crate::protobuf::{Field, WireField, NESTING_LIMIT};
use crate::schema;
use crate::schema::Shape;
use vstd::prelude::*;

verus! {

/// The control messages.
#[derive(Clone, Debug, PartialEq)]
pub enum ControlMessage {
    /// A hello request.
    HelloRequest(HelloRequest),
    /// A hello response.
    HelloResponse(HelloResponse),
    /// A pairing request.
    PairRequest(PairRequest),
    /// A pairing response.
    PairResponse(PairResponse),
    /// A capability request.
    CapabilityRequest(CapabilityRequest),
    /// A capability response.
    CapabilityResponse(CapabilityResponse),
    /// Prepares a test.
    PrepareTest(PrepareTest),
    /// Answers a preparation.
    PrepareTestResponse(PrepareTestResponse),
    /// Starts a test.
    StartTest(StartTest),
    /// Stops a test.
    StopTest(StopTest),
    /// A test status.
    TestStatus(TestStatus),
    /// A test result.
    TestResult(TestResult),
    /// Asks again for a final result.
    TestResultRequest(TestResultRequest),
    /// A heartbeat.
    Ping(Ping),
    /// The answer to a heartbeat.
    Pong(Pong),
    /// A stable error.
    Error(ProtocolError),
}

impl ControlMessage {
    /// The number of the field that carries the message.
    pub open spec fn tag(self) -> u32 {
        match self {
            ControlMessage::HelloRequest(_) => 10,
            ControlMessage::HelloResponse(_) => 11,
            ControlMessage::PairRequest(_) => 20,
            ControlMessage::PairResponse(_) => 21,
            ControlMessage::CapabilityRequest(_) => 30,
            ControlMessage::CapabilityResponse(_) => 31,
            ControlMessage::PrepareTest(_) => 40,
            ControlMessage::PrepareTestResponse(_) => 41,
            ControlMessage::StartTest(_) => 42,
            ControlMessage::StopTest(_) => 43,
            ControlMessage::TestStatus(_) => 44,
            ControlMessage::TestResult(_) => 45,
            ControlMessage::TestResultRequest(_) => 46,
            ControlMessage::Ping(_) => 50,
            ControlMessage::Pong(_) => 51,
            ControlMessage::Error(_) => 100,
        }
    }

    /// The fields of the message.
    pub open spec fn fields(self) -> Seq<WireField> {
        match self {
            ControlMessage::HelloRequest(m) => m.fields(),
            ControlMessage::HelloResponse(m) => m.fields(),
            ControlMessage::PairRequest(m) => m.fields(),
            ControlMessage::PairResponse(m) => m.fields(),
            ControlMessage::CapabilityRequest(m) => m.fields(),
            ControlMessage::CapabilityResponse(m) => m.fields(),
            ControlMessage::PrepareTest(m) => m.fields(),
            ControlMessage::PrepareTestResponse(m) => m.fields(),
            ControlMessage::StartTest(m) => m.fields(),
            ControlMessage::StopTest(m) => m.fields(),
            ControlMessage::TestStatus(m) => m.fields(),
            ControlMessage::TestResult(m) => m.fields(),
            ControlMessage::TestResultRequest(m) => m.fields(),
            ControlMessage::Ping(m) => m.fields(),
            ControlMessage::Pong(m) => m.fields(),
            ControlMessage::Error(m) => m.fields(),
        }
    }

    /// Whether the message is what the field with that number and these fields says.
    pub open spec fn is_read_from(self, tag: u32, fs: Seq<WireField>) -> bool {
        match self {
            ControlMessage::HelloRequest(m) => tag == 10 && m.is_read_from(fs),
            ControlMessage::HelloResponse(m) => tag == 11 && m.is_read_from(fs),
            ControlMessage::PairRequest(m) => tag == 20 && m.is_read_from(fs),
            ControlMessage::PairResponse(m) => tag == 21 && m.is_read_from(fs),
            ControlMessage::CapabilityRequest(m) => tag == 30,
            ControlMessage::CapabilityResponse(m) => tag == 31 && m.is_read_from(fs),
            ControlMessage::PrepareTest(m) => tag == 40 && m.is_read_from(fs),
            ControlMessage::PrepareTestResponse(m) => tag == 41 && m.is_read_from(fs),
            ControlMessage::StartTest(m) => tag == 42 && m.is_read_from(fs),
            ControlMessage::StopTest(m) => tag == 43 && m.is_read_from(fs),
            ControlMessage::TestStatus(m) => tag == 44 && m.is_read_from(fs),
            ControlMessage::TestResult(m) => tag == 45 && m.is_read_from(fs),
            ControlMessage::TestResultRequest(m) => tag == 46 && m.is_read_from(fs),
            ControlMessage::Ping(m) => tag == 50 && m.is_read_from(fs),
            ControlMessage::Pong(m) => tag == 51 && m.is_read_from(fs),
            ControlMessage::Error(m) => tag == 100 && m.is_read_from(fs),
        }
    }

    /// Whether two messages have the same content.
    pub open spec fn same(self, other: Self) -> bool {
        match (self, other) {
            (ControlMessage::HelloRequest(a), ControlMessage::HelloRequest(b)) => a.same(b),
            (ControlMessage::HelloResponse(a), ControlMessage::HelloResponse(b)) => a.same(b),
            (ControlMessage::PairRequest(a), ControlMessage::PairRequest(b)) => a.same(b),
            (ControlMessage::PairResponse(a), ControlMessage::PairResponse(b)) => a.same(b),
            (ControlMessage::CapabilityRequest(a), ControlMessage::CapabilityRequest(b)) => true,
            (ControlMessage::CapabilityResponse(a), ControlMessage::CapabilityResponse(b)) => a.same(b),
            (ControlMessage::PrepareTest(a), ControlMessage::PrepareTest(b)) => a.same(b),
            (ControlMessage::PrepareTestResponse(a), ControlMessage::PrepareTestResponse(b)) => a.same(b),
            (ControlMessage::StartTest(a), ControlMessage::StartTest(b)) => a.same(b),
            (ControlMessage::StopTest(a), ControlMessage::StopTest(b)) => a.same(b),
            (ControlMessage::TestStatus(a), ControlMessage::TestStatus(b)) => a.same(b),
            (ControlMessage::TestResult(a), ControlMessage::TestResult(b)) => a.same(b),
            (ControlMessage::TestResultRequest(a), ControlMessage::TestResultRequest(b)) => a.same(b),
            (ControlMessage::Ping(a), ControlMessage::Ping(b)) => a.same(b),
            (ControlMessage::Pong(a), ControlMessage::Pong(b)) => a.same(b),
            (ControlMessage::Error(a), ControlMessage::Error(b)) => a.same(b),
            _ => false,
        }
    }

    /// Returns the number of the field that carries the message.
    pub fn tag_of(&self) -> (r: u32)
        ensures
            r == self.tag(),
            1 <= r <= protobuf::MAX_TAG,
    {
        match self {
            ControlMessage::HelloRequest(_) => 10,
            ControlMessage::HelloResponse(_) => 11,
            ControlMessage::PairRequest(_) => 20,
            ControlMessage::PairResponse(_) => 21,
            ControlMessage::CapabilityRequest(_) => 30,
            ControlMessage::CapabilityResponse(_) => 31,
            ControlMessage::PrepareTest(_) => 40,
            ControlMessage::PrepareTestResponse(_) => 41,
            ControlMessage::StartTest(_) => 42,
            ControlMessage::StopTest(_) => 43,
            ControlMessage::TestStatus(_) => 44,
            ControlMessage::TestResult(_) => 45,
            ControlMessage::TestResultRequest(_) => 46,
            ControlMessage::Ping(_) => 50,
            ControlMessage::Pong(_) => 51,
            ControlMessage::Error(_) => 100,
        }
    }

    /// Encodes the message.
    pub fn encode_to_vec(&self) -> (r: Vec<u8>)
        ensures
            r@ == protobuf::encoded(self.fields()),
    {
        match self {
            ControlMessage::HelloRequest(m) => m.encode_to_vec(),
            ControlMessage::HelloResponse(m) => m.encode_to_vec(),
            ControlMessage::PairRequest(m) => m.encode_to_vec(),
            ControlMessage::PairResponse(m) => m.encode_to_vec(),
            ControlMessage::CapabilityRequest(m) => m.encode_to_vec(),
            ControlMessage::CapabilityResponse(m) => m.encode_to_vec(),
            ControlMessage::PrepareTest(m) => m.encode_to_vec(),
            ControlMessage::PrepareTestResponse(m) => m.encode_to_vec(),
            ControlMessage::StartTest(m) => m.encode_to_vec(),
            ControlMessage::StopTest(m) => m.encode_to_vec(),
            ControlMessage::TestStatus(m) => m.encode_to_vec(),
            ControlMessage::TestResult(m) => m.encode_to_vec(),
            ControlMessage::TestResultRequest(m) => m.encode_to_vec(),
            ControlMessage::Ping(m) => m.encode_to_vec(),
            ControlMessage::Pong(m) => m.encode_to_vec(),
            ControlMessage::Error(m) => m.encode_to_vec(),
        }
    }

    /// Reads the message that a field with a given number carries.
    pub(crate) fn read(tag: u32, v: &[Field]) -> (r: Option<Self>)
        requires
            tag != 0 ==> {
                &&& Shape::Envelope.kind(tag) is Message
                &&& schema::fields_fault(
                    protobuf::field_views(v@),
                    Shape::Envelope.kind(tag)->Message_0,
                    (NESTING_LIMIT - 1) as nat,
                ) is None
            },
        ensures
            match r {
                Some(m) => m.is_read_from(tag, protobuf::field_views(v@)),
                None => tag == 0,
            },
    {
        match tag {
            10 => Some(ControlMessage::HelloRequest(HelloRequest::from_fields(v))),
            11 => Some(ControlMessage::HelloResponse(HelloResponse::from_fields(v))),
            20 => Some(ControlMessage::PairRequest(PairRequest::from_fields(v))),
            21 => Some(ControlMessage::PairResponse(PairResponse::from_fields(v))),
            30 => Some(ControlMessage::CapabilityRequest(CapabilityRequest {  })),
            31 => Some(ControlMessage::CapabilityResponse(CapabilityResponse::from_fields(v))),
            40 => Some(ControlMessage::PrepareTest(PrepareTest::from_fields(v))),
            41 => Some(ControlMessage::PrepareTestResponse(PrepareTestResponse::from_fields(v))),
            42 => Some(ControlMessage::StartTest(StartTest::from_fields(v))),
            43 => Some(ControlMessage::StopTest(StopTest::from_fields(v))),
            44 => Some(ControlMessage::TestStatus(TestStatus::from_fields(v))),
            45 => Some(ControlMessage::TestResult(TestResult::from_fields(v))),
            46 => Some(ControlMessage::TestResultRequest(TestResultRequest::from_fields(v))),
            50 => Some(ControlMessage::Ping(Ping::from_fields(v))),
            51 => Some(ControlMessage::Pong(Pong::from_fields(v))),
            100 => Some(ControlMessage::Error(ProtocolError::from_fields(v))),
            _ => None,
        }
    }

    /// The fields of a message have no fault and can be written.
    pub proof fn lemma_sound(self)
        requires
            protobuf::encoded(self.fields()).len() <= u64::MAX,
        ensures
            Shape::Envelope.kind(self.tag()) is Message,
            schema::fields_fault(
                self.fields(),
                Shape::Envelope.kind(self.tag())->Message_0,
                (NESTING_LIMIT - 1) as nat,
            ) is None,
            protobuf::all_writable(self.fields()),
    {
        let depth = (NESTING_LIMIT - 1) as nat;
        match self {
            ControlMessage::HelloRequest(m) => m.lemma_round_trip(m, depth),
            ControlMessage::HelloResponse(m) => m.lemma_round_trip(m, depth),
            ControlMessage::PairRequest(m) => m.lemma_round_trip(m, depth),
            ControlMessage::PairResponse(m) => m.lemma_round_trip(m, depth),
            ControlMessage::CapabilityRequest(_) => {},
            ControlMessage::CapabilityResponse(m) => m.lemma_round_trip(m),
            ControlMessage::PrepareTest(m) => m.lemma_round_trip(m, depth),
            ControlMessage::PrepareTestResponse(m) => m.lemma_round_trip(m, depth),
            ControlMessage::StartTest(m) => m.lemma_round_trip(m, depth),
            ControlMessage::StopTest(m) => m.lemma_round_trip(m, depth),
            ControlMessage::TestStatus(m) => m.lemma_round_trip(m, depth),
            ControlMessage::TestResult(m) => m.lemma_round_trip(m, depth),
            ControlMessage::TestResultRequest(m) => m.lemma_round_trip(m, depth),
            ControlMessage::Ping(m) => m.lemma_round_trip(m, depth),
            ControlMessage::Pong(m) => m.lemma_round_trip(m, depth),
            ControlMessage::Error(m) => m.lemma_round_trip(m, depth),
        }
    }

    /// What is read from the fields of a message has the content of that message.
    pub proof fn lemma_round_trip(self, other: Self)
        requires
            protobuf::encoded(self.fields()).len() <= u64::MAX,
        ensures
            other.is_read_from(self.tag(), self.fields()) <==> other.same(self),
    {
        let depth = (NESTING_LIMIT - 1) as nat;
        match (self, other) {
            (ControlMessage::HelloRequest(a), ControlMessage::HelloRequest(b)) => a.lemma_round_trip(b, depth),
            (ControlMessage::HelloResponse(a), ControlMessage::HelloResponse(b)) => a.lemma_round_trip(b, depth),
            (ControlMessage::PairRequest(a), ControlMessage::PairRequest(b)) => a.lemma_round_trip(b, depth),
            (ControlMessage::PairResponse(a), ControlMessage::PairResponse(b)) => a.lemma_round_trip(b, depth),
            (ControlMessage::CapabilityResponse(a), ControlMessage::CapabilityResponse(b)) => a.lemma_round_trip(b),
            (ControlMessage::PrepareTest(a), ControlMessage::PrepareTest(b)) => a.lemma_round_trip(b, depth),
            (ControlMessage::PrepareTestResponse(a), ControlMessage::PrepareTestResponse(b)) => a.lemma_round_trip(b, depth),
            (ControlMessage::StartTest(a), ControlMessage::StartTest(b)) => a.lemma_round_trip(b, depth),
            (ControlMessage::StopTest(a), ControlMessage::StopTest(b)) => a.lemma_round_trip(b, depth),
            (ControlMessage::TestStatus(a), ControlMessage::TestStatus(b)) => a.lemma_round_trip(b, depth),
            (ControlMessage::TestResult(a), ControlMessage::TestResult(b)) => a.lemma_round_trip(b, depth),
            (ControlMessage::TestResultRequest(a), ControlMessage::TestResultRequest(b)) => a.lemma_round_trip(b, depth),
            (ControlMessage::Ping(a), ControlMessage::Ping(b)) => a.lemma_round_trip(b, depth),
            (ControlMessage::Pong(a), ControlMessage::Pong(b)) => a.lemma_round_trip(b, depth),
            (ControlMessage::Error(a), ControlMessage::Error(b)) => a.lemma_round_trip(b, depth),
            _ => {},
        }
    }
}

} // verus!
