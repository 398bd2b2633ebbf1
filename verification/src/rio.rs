//! Registered buffers and bounded queues for registered I/O on Windows.

use crate::numbers;
use crate::numbers::is_power_of_two;
use crate::text;
use crate::text::{concat, decimal_text};
use std::collections::VecDeque;
use crate::record::Recorder;
use vstd::prelude::*;

verus! {

/// The fixed resources of the backend.
#[derive(Clone, Copy, Debug, PartialEq, Eq, Structural)]
pub struct RioConfig {
    /// The bytes of the registered buffer.
    pub buffer_length: usize,
    /// The most bytes of a payload.
    pub frame_size: u32,
    /// The room of the request queue.
    pub request_queue_capacity: u32,
    /// The room of the completion queue.
    pub completion_queue_capacity: u32,
}

impl Default for RioConfig {
    fn default() -> (r: Self)
        ensures
            r == (RioConfig {
                buffer_length: 2097152,
                frame_size: 2048,
                request_queue_capacity: 1024,
                completion_queue_capacity: 1024,
            }),
    {
        RioConfig {
            buffer_length: 2097152,
            frame_size: 2048,
            request_queue_capacity: 1024,
            completion_queue_capacity: 1024,
        }
    }
}

/// Whether a queue can have a capacity.
pub open spec fn valid_capacity(capacity: u32) -> bool {
    capacity != 0 && numbers::power_of_two(capacity as nat)
}

impl RioConfig {
    /// Whether the buffer is made of whole frames and the queues have capacities that they
    /// can have.
    pub open spec fn valid(self) -> bool {
        &&& self.buffer_length != 0
        &&& self.frame_size != 0
        &&& self.buffer_length as int % self.frame_size as int == 0
        &&& valid_capacity(self.request_queue_capacity)
        &&& valid_capacity(self.completion_queue_capacity)
    }

    /// Checks the configuration.
    ///
    /// # Errors
    ///
    /// Fails when the buffer is not made of whole frames, and when a capacity is not a power
    /// of two.
    pub fn validate(self) -> (r: Result<Self, RioError>)
        ensures
            match r {
                Ok(config) => self.valid() && config == self,
                Err(e) => !self.valid() && e.text() == RioErrorText::InvalidConfig(
                    "buffer length must contain whole frames and queue capacities must be non-zero power-of-two values"@,
                ),
            },
    {
        if self.buffer_length == 0 || self.frame_size == 0 || self.buffer_length
            % self.frame_size as usize != 0 || self.request_queue_capacity == 0
            || !is_power_of_two(self.request_queue_capacity) || self.completion_queue_capacity == 0
            || !is_power_of_two(self.completion_queue_capacity) {
            return Err(
                RioError::InvalidConfig(
                    "buffer length must contain whole frames and queue capacities must be non-zero power-of-two values".to_owned(),
                ),
            );
        }
        Ok(self)
    }
}

/// Why a request is refused.
#[derive(Clone, Debug, PartialEq, Eq)]
pub enum RioError {
    /// The configuration is not valid.
    InvalidConfig(String),
    /// This build is not linked with the Windows functions.
    UnsupportedPlatform,
    /// A descriptor reaches beyond the registered buffer.
    InvalidDescriptor(String),
    /// A queue is full.
    QueueFull,
    /// A Windows function failed.
    WindowsApi {
        /// What was tried.
        operation: &'static str,
        /// The code of the error.
        code: u32,
    },
}

/// What an error says.
pub enum RioErrorText {
    /// The configuration is not valid.
    InvalidConfig(Seq<char>),
    /// This build is not linked with the Windows functions.
    UnsupportedPlatform,
    /// A descriptor reaches beyond the registered buffer.
    InvalidDescriptor(Seq<char>),
    /// A queue is full.
    QueueFull,
    /// A Windows function failed.
    WindowsApi(Seq<char>, u32),
}

impl RioError {
    /// What the error says.
    pub open spec fn text(self) -> RioErrorText {
        match self {
            RioError::InvalidConfig(message) => RioErrorText::InvalidConfig(message@),
            RioError::UnsupportedPlatform => RioErrorText::UnsupportedPlatform,
            RioError::InvalidDescriptor(message) => RioErrorText::InvalidDescriptor(message@),
            RioError::QueueFull => RioErrorText::QueueFull,
            RioError::WindowsApi { operation, code } => RioErrorText::WindowsApi(operation@, code),
        }
    }

    /// The error for people to read.
    pub fn to_text(&self) -> (r: String)
        ensures
            r@ == match self.text() {
                RioErrorText::InvalidConfig(message) => "RIO.INVALID_CONFIG: "@ + message,
                RioErrorText::UnsupportedPlatform => "RIO.UNSUPPORTED_PLATFORM"@,
                RioErrorText::InvalidDescriptor(message) => "RIO.INVALID_DESCRIPTOR: "@ + message,
                RioErrorText::QueueFull => "RIO.QUEUE_FULL"@,
                RioErrorText::WindowsApi(operation, code) => "RIO."@ + operation
                    + "_FAILED: code="@ + text::decimal(code as nat),
            },
    {
        match self {
            RioError::InvalidConfig(message) => concat("RIO.INVALID_CONFIG: ", message.as_str()),
            RioError::UnsupportedPlatform => "RIO.UNSUPPORTED_PLATFORM".to_owned(),
            RioError::InvalidDescriptor(message) => concat(
                "RIO.INVALID_DESCRIPTOR: ",
                message.as_str(),
            ),
            RioError::QueueFull => "RIO.QUEUE_FULL".to_owned(),
            RioError::WindowsApi { operation, code } => {
                let mut out = concat("RIO.", operation);
                out.append("_FAILED: code=");
                out.append(decimal_text(*code as u64).as_str());
                out
            },
        }
    }
}

/// Whether something was refused with an error.
pub open spec fn refused<T>(r: Result<T, RioError>, error: RioErrorText) -> bool {
    r matches Err(e) && e.text() == error
}

/// What became of a request.
#[derive(Clone, Copy, Debug, PartialEq, Eq, Structural)]
pub struct RioCompletion {
    /// The status; zero for success.
    pub status: i32,
    /// The bytes that were moved.
    pub bytes_transferred: u32,
    /// What the request was marked with.
    pub request_context: usize,
}

/// The functions for registered I/O, once they were found.
#[derive(Debug)]
pub struct RioApi {
    table_size: u32,
}

/// What the search for the function table came to.
#[derive(Clone, Copy, Debug, PartialEq, Eq, Structural)]
pub struct DiscoveryReply {
    /// What the search returned; zero for success.
    pub result: i32,
    /// The code of the last error.
    pub last_error: u32,
    /// The bytes that were returned.
    pub returned: u32,
    /// The size that the table gives for itself, if there is a table.
    pub table_size: Option<u32>,
}

/// What is wrong with the outcome of a search for a table of a size.
pub open spec fn discovery_fault(reply: DiscoveryReply, needed: u32) -> Option<RioErrorText> {
    if reply.result != 0 {
        Some(RioErrorText::WindowsApi("WSAIoctl_discover"@, reply.last_error))
    } else {
        match reply.table_size {
            None => Some(RioErrorText::WindowsApi("WSAIoctl_null_table"@, reply.returned)),
            Some(size) => if size < needed {
                Some(RioErrorText::WindowsApi("WSAIoctl_short_table"@, size))
            } else {
                None
            },
        }
    }
}

/// Checks the outcome of the search for a function table of a size.
///
/// # Errors
///
/// Fails when the search failed, found no table or one that is too short.
pub fn check_discovery(reply: DiscoveryReply, needed: u32) -> (r: Result<(), RioError>)
    ensures
        match r {
            Ok(_) => discovery_fault(reply, needed) is None,
            Err(e) => discovery_fault(reply, needed) == Some(e.text()),
        },
{
    if reply.result != 0 {
        return Err(
            RioError::WindowsApi { operation: "WSAIoctl_discover", code: reply.last_error },
        );
    }
    match reply.table_size {
        None => Err(
            RioError::WindowsApi { operation: "WSAIoctl_null_table", code: reply.returned },
        ),
        Some(size) => {
            if size < needed {
                return Err(RioError::WindowsApi { operation: "WSAIoctl_short_table", code: size });
            }
            Ok(())
        },
    }
}

impl RioApi {
    /// The size that the table of the functions gives for itself.
    pub closed spec fn table_size(self) -> u32 {
        self.table_size
    }

    /// Asks a socket for the functions. The search takes the socket and returns what came of
    /// it; where the platform has no Winsock there is none. The table has to have a size.
    ///
    /// # Errors
    ///
    /// Fails where there is no search, and when the search failed, found no table or one that
    /// is too short.
    pub fn discover<F: FnOnce(usize) -> DiscoveryReply>(
        socket: usize,
        needed: u32,
        search: Option<F>,
    ) -> (r: Result<Self, RioError>)
        requires
            search matches Some(f) ==> call_requires(f, (socket,)),
        ensures
            match search {
                None => refused(r, RioErrorText::UnsupportedPlatform),
                Some(f) => exists|reply: DiscoveryReply| #[trigger]
                    call_ensures(f, (socket,), reply) && match discovery_fault(reply, needed) {
                        Some(fault) => refused(r, fault),
                        None => r matches Ok(api) && reply.table_size == Some(api.table_size()),
                    },
            },
    {
        match search {
            None => Err(RioError::UnsupportedPlatform),
            Some(f) => {
                let reply = f(socket);
                proof {
                    assert(call_ensures(f, (socket,), reply));
                }
                match check_discovery(reply, needed) {
                    Ok(_) => {},
                    Err(e) => {
                        return Err(e);
                    },
                }
                match reply.table_size {
                    Some(table_size) => Ok(RioApi { table_size }),
                    None => Err(RioError::UnsupportedPlatform),
                }
            },
        }
    }

    /// Registers a whole buffer and returns the number of the registration. The function takes
    /// the length of the buffer and returns the number, or the code of an error, or nothing
    /// where it is missing.
    ///
    /// # Errors
    ///
    /// Fails when the buffer is too long, and then calls nothing; and when the function is
    /// missing or fails.
    pub fn register_registered_buffer<F: FnMut(u32) -> Option<Result<usize, u32>>>(
        &self,
        buffer: &RegisteredBuffer,
        function: &mut Recorder<F, u32, Option<Result<usize, u32>>>,
    ) -> (r: Result<usize, RioError>)
        requires
            old(function).takes_all(),
        ensures
            final(function).takes_all(),
            if buffer.length() > u32::MAX {
                &&& *final(function) == *old(function)
                &&& refused(
                    r,
                    RioErrorText::InvalidConfig("RIO registered buffer exceeds u32 length"@),
                )
            } else {
                exists|answer: Option<Result<usize, u32>>|
                    final(function).log() == #[trigger] old(function).log().push(
                        (buffer.length() as u32, answer),
                    ) && is_answer(
                        answer,
                        "RIORegisterBuffer_missing"@,
                        "RIORegisterBuffer"@,
                        r,
                    )
            },
    {
        let length: usize = buffer.len();
        if length > 0xffff_ffff {
            return Err(
                RioError::InvalidConfig("RIO registered buffer exceeds u32 length".to_owned()),
            );
        }
        let answer = function.ask(length as u32);
        settle(answer, "RIORegisterBuffer_missing", "RIORegisterBuffer")
    }

    /// Creates a completion queue and returns its handle. The function takes the capacity and
    /// returns the handle, or the code of an error, or nothing where it is missing.
    ///
    /// # Errors
    ///
    /// Fails when the capacity is zero, and then calls nothing; and when the function is
    /// missing or fails.
    pub fn create_completion_queue<F: FnMut(u32) -> Option<Result<usize, u32>>>(
        &self,
        capacity: u32,
        function: &mut Recorder<F, u32, Option<Result<usize, u32>>>,
    ) -> (r: Result<usize, RioError>)
        requires
            old(function).takes_all(),
        ensures
            final(function).takes_all(),
            if capacity == 0 {
                &&& *final(function) == *old(function)
                &&& refused(
                    r,
                    RioErrorText::InvalidConfig("RIO completion queue capacity must be non-zero"@),
                )
            } else {
                exists|answer: Option<Result<usize, u32>>|
                    final(function).log() == #[trigger] old(function).log().push(
                        (capacity, answer),
                    ) && is_answer(
                        answer,
                        "RIOCreateCompletionQueue_missing"@,
                        "RIOCreateCompletionQueue"@,
                        r,
                    )
            },
    {
        if capacity == 0 {
            return Err(
                RioError::InvalidConfig(
                    "RIO completion queue capacity must be non-zero".to_owned(),
                ),
            );
        }
        let answer = function.ask(capacity);
        settle(answer, "RIOCreateCompletionQueue_missing", "RIOCreateCompletionQueue")
    }

    /// Creates a request queue of a socket and returns its handle. The function takes the
    /// socket, the most outstanding requests of either kind and the completion queue, and
    /// returns the handle, or the code of an error, or nothing where it is missing.
    ///
    /// # Errors
    ///
    /// Fails when the configuration is not valid, and then calls nothing; and when the function
    /// is missing or fails.
    pub fn create_request_queue<F: FnMut((usize, u32, usize)) -> Option<Result<usize, u32>>>(
        &self,
        socket: usize,
        config: RioConfig,
        completion: usize,
        function: &mut Recorder<F, (usize, u32, usize), Option<Result<usize, u32>>>,
    ) -> (r: Result<usize, RioError>)
        requires
            old(function).takes_all(),
        ensures
            final(function).takes_all(),
            if !config.valid() {
                &&& *final(function) == *old(function)
                &&& refused(
                    r,
                    RioErrorText::InvalidConfig(
                        "buffer length must contain whole frames and queue capacities must be non-zero power-of-two values"@,
                    ),
                )
            } else {
                exists|answer: Option<Result<usize, u32>>|
                    final(function).log() == #[trigger] old(function).log().push(
                        ((socket, config.request_queue_capacity, completion), answer),
                    ) && is_answer(
                        answer,
                        "RIOCreateRequestQueue_missing"@,
                        "RIOCreateRequestQueue"@,
                        r,
                    )
            },
    {
        let config = match config.validate() {
            Ok(config) => config,
            Err(e) => {
                return Err(e);
            },
        };
        let answer = function.ask((socket, config.request_queue_capacity, completion));
        settle(answer, "RIOCreateRequestQueue_missing", "RIOCreateRequestQueue")
    }

    /// Asks for data into a slice of a registered buffer. The function takes the slice, the
    /// flags and the mark, and returns the code of an error where it refuses, or nothing where
    /// it is missing.
    ///
    /// # Errors
    ///
    /// Fails when the slice has no registration, and then calls nothing; and when the function
    /// is missing or refuses.
    pub fn receive<F: FnMut((RioBufferSlice, u32, usize)) -> Option<Result<(), u32>>>(
        &self,
        slice: RioBufferSlice,
        flags: u32,
        request_context: usize,
        function: &mut Recorder<F, (RioBufferSlice, u32, usize), Option<Result<(), u32>>>,
    ) -> (r: Result<(), RioError>)
        requires
            old(function).takes_all(),
        ensures
            final(function).takes_all(),
            submitted(
                *old(function),
                *final(function),
                slice,
                flags,
                request_context,
                "RIOReceive_missing"@,
                "RIOReceive"@,
                r,
            ),
    {
        if slice.buffer_id == 0 {
            return Err(RioError::InvalidDescriptor("RIO buffer ID must be non-zero".to_owned()));
        }
        let answer = function.ask((slice, flags, request_context));
        settle(answer, "RIOReceive_missing", "RIOReceive")
    }

    /// Sends the data in a slice of a registered buffer. The function takes the slice, the
    /// flags and the mark, and returns the code of an error where it refuses, or nothing where
    /// it is missing.
    ///
    /// # Errors
    ///
    /// Fails when the slice has no registration, and then calls nothing; and when the function
    /// is missing or refuses.
    pub fn send<F: FnMut((RioBufferSlice, u32, usize)) -> Option<Result<(), u32>>>(
        &self,
        slice: RioBufferSlice,
        flags: u32,
        request_context: usize,
        function: &mut Recorder<F, (RioBufferSlice, u32, usize), Option<Result<(), u32>>>,
    ) -> (r: Result<(), RioError>)
        requires
            old(function).takes_all(),
        ensures
            final(function).takes_all(),
            submitted(
                *old(function),
                *final(function),
                slice,
                flags,
                request_context,
                "RIOSend_missing"@,
                "RIOSend"@,
                r,
            ),
    {
        if slice.buffer_id == 0 {
            return Err(RioError::InvalidDescriptor("RIO buffer ID must be non-zero".to_owned()));
        }
        let answer = function.ask((slice, flags, request_context));
        settle(answer, "RIOSend_missing", "RIOSend")
    }

    /// Takes finished requests into the front of `output` and returns their number. The
    /// function takes the most requests to return; it returns them, or the code of an error, or
    /// nothing where it is missing. Where there is no room it is not called.
    ///
    /// # Errors
    ///
    /// Fails when the function is missing or refuses.
    pub fn dequeue_completions<F: FnMut(usize) -> Option<Result<Vec<RioCompletion>, u32>>>(
        &self,
        output: &mut [RioCompletion],
        function: &mut Recorder<F, usize, Option<Result<Vec<RioCompletion>, u32>>>,
    ) -> (r: Result<usize, RioError>)
        requires
            old(function).takes_all(),
        ensures
            final(function).takes_all(),
            if old(output)@.len() == 0 {
                &&& *final(function) == *old(function)
                &&& r == Ok::<usize, RioError>(0)
                &&& final(output)@ == old(output)@
            } else {
                exists|answer: Option<Result<Vec<RioCompletion>, u32>>|
                    final(function).log() == #[trigger] old(function).log().push(
                        (old(output)@.len() as usize, answer),
                    ) && match answer {
                        None => {
                            &&& refused(
                                r,
                                RioErrorText::WindowsApi("RIODequeueCompletion_missing"@, 0),
                            )
                            &&& final(output)@ == old(output)@
                        },
                        Some(Ok(results)) => {
                            &&& r == Ok::<usize, RioError>(results@.len() as usize)
                            &&& final(output)@ == overlaid(old(output)@, results@)
                        },
                        Some(Err(code)) => {
                            &&& refused(
                                r,
                                RioErrorText::WindowsApi("RIODequeueCompletion"@, code),
                            )
                            &&& final(output)@ == old(output)@
                        },
                    }
            },
    {
        if output.len() == 0 {
            return Ok(0);
        }
        let answer = function.ask(output.len());
        proof {
            assert(function.log() == old(function).log().push((output@.len() as usize, answer)));
        }
        let results = match settle(
            answer,
            "RIODequeueCompletion_missing",
            "RIODequeueCompletion",
        ) {
            Ok(results) => results,
            Err(e) => {
                return Err(e);
            },
        };
        lay_over(output, &results);
        Ok(results.len())
    }
}

fn lay_over(output: &mut [RioCompletion], results: &Vec<RioCompletion>)
    ensures
        final(output)@ == overlaid(old(output)@, results@),
{
    let ghost before = output@;
    let mut i: usize = 0;
    while i < results.len() && i < output.len()
        invariant
            i <= results@.len(),
            i <= output@.len(),
            output@.len() == before.len(),
            forall|j: int| 0 <= j < i ==> output@[j] == results@[j],
            forall|j: int| i <= j < before.len() ==> output@[j] == before[j],
        decreases results@.len() - i,
    {
        output[i] = results[i];
        i += 1;
    }
    proof {
        assert(output@ =~= overlaid(before, results@));
    }
}

/// What the answer of a function comes to: its value, the code of an error under the name of
/// the function, or that it is missing.
pub open spec fn is_answer<T>(
    answer: Option<Result<T, u32>>,
    missing: Seq<char>,
    name: Seq<char>,
    r: Result<T, RioError>,
) -> bool {
    match answer {
        None => refused(r, RioErrorText::WindowsApi(missing, 0)),
        Some(Ok(value)) => r == Ok::<T, RioError>(value),
        Some(Err(code)) => refused(r, RioErrorText::WindowsApi(name, code)),
    }
}

fn settle<T>(
    answer: Option<Result<T, u32>>,
    missing: &'static str,
    name: &'static str,
) -> (r: Result<T, RioError>)
    ensures
        is_answer(answer, missing@, name@, r),
{
    match answer {
        None => Err(RioError::WindowsApi { operation: missing, code: 0 }),
        Some(Ok(value)) => Ok(value),
        Some(Err(code)) => Err(RioError::WindowsApi { operation: name, code }),
    }
}

/// A sequence with the front of another one laid over it.
pub open spec fn overlaid<T>(s: Seq<T>, over: Seq<T>) -> Seq<T> {
    Seq::new(
        s.len(),
        |i: int|
            if i < over.len() {
                over[i]
            } else {
                s[i]
            },
    )
}

/// Whether a request was submitted as it should be.
pub open spec fn submitted<F: FnMut((RioBufferSlice, u32, usize)) -> Option<Result<(), u32>>>(
    before: Recorder<F, (RioBufferSlice, u32, usize), Option<Result<(), u32>>>,
    after: Recorder<F, (RioBufferSlice, u32, usize), Option<Result<(), u32>>>,
    slice: RioBufferSlice,
    flags: u32,
    request_context: usize,
    missing: Seq<char>,
    name: Seq<char>,
    r: Result<(), RioError>,
) -> bool {
    if slice.buffer_id == 0 {
        &&& after == before
        &&& refused(r, RioErrorText::InvalidDescriptor("RIO buffer ID must be non-zero"@))
    } else {
        exists|answer: Option<Result<(), u32>>|
            after.log() == #[trigger] before.log().push(
                ((slice, flags, request_context), answer),
            ) && is_answer(answer, missing, name, r)
    }
}

/// Whether this build is linked with the Windows functions.
#[must_use]
pub fn is_backend_built() -> (r: bool)
    ensures
        !r,
{
    false
}

/// What a check came to.
#[derive(Clone, Copy, Debug, PartialEq, Eq, Structural)]
pub enum RioPreflightSeverity {
    /// The condition is met.
    Pass,
    /// The backend must not start.
    Fail,
}

/// A check.
#[derive(Clone, Debug, PartialEq, Eq)]
pub struct RioPreflightCheck {
    /// Its name.
    pub id: &'static str,
    /// What it came to.
    pub severity: RioPreflightSeverity,
    /// Why.
    pub message: &'static str,
}

/// All checks.
#[derive(Clone, Debug, PartialEq, Eq)]
pub struct RioPreflightReport {
    /// Whether a session can be created.
    pub can_run: bool,
    /// Whether this build is linked with the Windows functions.
    pub implementation_available: bool,
    /// Every check.
    pub checks: Vec<RioPreflightCheck>,
}

/// Whether a check is the expected one.
pub open spec fn is_check(
    check: RioPreflightCheck,
    id: Seq<char>,
    holds: bool,
    good: Seq<char>,
    bad: Seq<char>,
) -> bool {
    &&& check.id@ == id
    &&& check.severity == if holds {
        RioPreflightSeverity::Pass
    } else {
        RioPreflightSeverity::Fail
    }
    &&& check.message@ == if holds {
        good
    } else {
        bad
    }
}

/// Checks the platform and the implementation.
#[must_use]
pub fn evaluate_rio_preflight(platform_is_windows: bool, implementation_available: bool) -> (r:
    RioPreflightReport)
    ensures
        r.can_run == (platform_is_windows && implementation_available),
        r.implementation_available == implementation_available,
        r.checks@.len() == 2,
        is_check(
            r.checks@[0],
            "RIO_PLATFORM"@,
            platform_is_windows,
            "Windows platform is available"@,
            "RIO requires Windows"@,
        ),
        is_check(
            r.checks@[1],
            "RIO_IMPLEMENTATION"@,
            implementation_available,
            "Winsock RIO implementation is linked"@,
            "Winsock RIO implementation is not linked"@,
        ),
{
    let mut checks: Vec<RioPreflightCheck> = Vec::new();
    checks.push(
        RioPreflightCheck {
            id: "RIO_PLATFORM",
            severity: severity_of(platform_is_windows),
            message: if platform_is_windows {
                "Windows platform is available"
            } else {
                "RIO requires Windows"
            },
        },
    );
    checks.push(
        RioPreflightCheck {
            id: "RIO_IMPLEMENTATION",
            severity: severity_of(implementation_available),
            message: if implementation_available {
                "Winsock RIO implementation is linked"
            } else {
                "Winsock RIO implementation is not linked"
            },
        },
    );
    RioPreflightReport {
        can_run: platform_is_windows && implementation_available,
        implementation_available,
        checks,
    }
}

fn severity_of(holds: bool) -> (r: RioPreflightSeverity)
    ensures
        r == if holds {
            RioPreflightSeverity::Pass
        } else {
            RioPreflightSeverity::Fail
        },
{
    if holds {
        RioPreflightSeverity::Pass
    } else {
        RioPreflightSeverity::Fail
    }
}

/// A buffer of a fixed size that one owner holds.
pub struct RegisteredBuffer {
    storage: Vec<u8>,
    frame_size: u32,
}

/// Where a payload is in a registered buffer.
#[derive(Clone, Copy, Debug, PartialEq, Eq, Structural)]
pub struct RioDescriptor {
    /// Where it begins.
    pub offset: usize,
    /// Its bytes.
    pub length: u32,
}

/// A slice of a registered buffer.
#[derive(Clone, Copy, Debug, PartialEq, Eq, Structural)]
pub struct RioBufferSlice {
    /// The number of the registration.
    pub buffer_id: usize,
    /// Where the slice begins.
    pub offset: u32,
    /// Its bytes.
    pub length: u32,
}

/// What is wrong with a payload in a frame of a buffer.
pub open spec fn descriptor_fault(
    buffer_length: nat,
    frame_size: u32,
    frame_index: usize,
    length: u32,
) -> Option<Seq<char>> {
    if length > frame_size {
        Some("payload exceeds registered frame size"@)
    } else if frame_index * frame_size > usize::MAX {
        Some("frame offset overflows"@)
    } else if frame_index * frame_size + length > usize::MAX {
        Some("descriptor end overflows"@)
    } else if frame_index * frame_size + length > buffer_length {
        Some("descriptor exceeds registered buffer"@)
    } else {
        None
    }
}

/// What is wrong with a slice of a buffer.
pub open spec fn slice_fault(buffer_length: nat, offset: usize, length: usize) -> Option<
    Seq<char>,
> {
    if offset + length > usize::MAX {
        Some("RIO slice offset overflows"@)
    } else if offset + length > buffer_length {
        Some("RIO slice exceeds registered buffer"@)
    } else if offset > u32::MAX {
        Some("RIO slice offset exceeds u32"@)
    } else if length > u32::MAX {
        Some("RIO slice length exceeds u32"@)
    } else {
        None
    }
}

impl RegisteredBuffer {
    /// The bytes of the buffer.
    pub closed spec fn length(self) -> nat {
        self.storage@.len()
    }

    /// The most bytes of a payload.
    pub closed spec fn frame_size(self) -> u32 {
        self.frame_size
    }

    /// What the buffer holds.
    pub closed spec fn contents(self) -> Seq<u8> {
        self.storage@
    }

    /// Whether the buffer is made of whole frames.
    #[verifier::type_invariant]
    spec fn whole(self) -> bool {
        &&& self.frame_size > 0
        &&& self.storage@.len() > 0
        &&& self.storage@.len() as int % self.frame_size as int == 0
    }

    /// Allocates a buffer of zeros.
    ///
    /// # Errors
    ///
    /// Fails when the configuration is not valid.
    pub fn allocate(config: RioConfig) -> (r: Result<Self, RioError>)
        ensures
            match r {
                Ok(buffer) => {
                    &&& config.valid()
                    &&& buffer.length() == config.buffer_length
                    &&& buffer.frame_size() == config.frame_size
                    &&& buffer.contents() == Seq::new(config.buffer_length as nat, |i: int| 0u8)
                },
                Err(e) => !config.valid() && e.text() == RioErrorText::InvalidConfig(
                    "buffer length must contain whole frames and queue capacities must be non-zero power-of-two values"@,
                ),
            },
    {
        let config = match config.validate() {
            Ok(config) => config,
            Err(e) => {
                return Err(e);
            },
        };
        let storage: Vec<u8> = vec![0u8; config.buffer_length];
        proof {
            assert(storage@ =~= Seq::new(config.buffer_length as nat, |i: int| 0u8));
        }
        Ok(RegisteredBuffer { storage, frame_size: config.frame_size })
    }

    /// The bytes of the buffer.
    #[must_use]
    pub fn len(&self) -> (r: usize)
        ensures
            r == self.length(),
    {
        self.storage.len()
    }

    /// Whether the buffer holds nothing: it never does.
    #[must_use]
    pub fn is_empty(&self) -> (r: bool)
        ensures
            r == (self.length() == 0),
            !r,
    {
        proof {
            use_type_invariant(self);
        }
        self.storage.len() == 0
    }

    /// Where a payload in a frame is.
    ///
    /// # Errors
    ///
    /// Fails when the payload is longer than a frame or reaches beyond the buffer.
    pub fn descriptor(&self, frame_index: usize, length: u32) -> (r: Result<
        RioDescriptor,
        RioError,
    >)
        ensures
            match r {
                Ok(d) => {
                    &&& descriptor_fault(self.length(), self.frame_size(), frame_index, length)
                        is None
                    &&& d.offset == frame_index * self.frame_size()
                    &&& d.length == length
                },
                Err(e) => descriptor_fault(
                    self.length(),
                    self.frame_size(),
                    frame_index,
                    length,
                ) matches Some(message) && e.text() == RioErrorText::InvalidDescriptor(message),
            },
    {
        if length > self.frame_size {
            return Err(
                RioError::InvalidDescriptor("payload exceeds registered frame size".to_owned()),
            );
        }
        let offset: usize = match frame_index.checked_mul(self.frame_size as usize) {
            Some(offset) => offset,
            None => {
                return Err(RioError::InvalidDescriptor("frame offset overflows".to_owned()));
            },
        };
        let end: usize = match offset.checked_add(length as usize) {
            Some(end) => end,
            None => {
                return Err(RioError::InvalidDescriptor("descriptor end overflows".to_owned()));
            },
        };
        if end > self.storage.len() {
            return Err(
                RioError::InvalidDescriptor("descriptor exceeds registered buffer".to_owned()),
            );
        }
        Ok(RioDescriptor { offset, length })
    }

    /// A slice of the buffer, for a registration of it.
    ///
    /// # Errors
    ///
    /// Fails when the slice reaches beyond the buffer or its numbers are too large.
    pub fn slice(&self, buffer_id: usize, offset: usize, length: usize) -> (r: Result<
        RioBufferSlice,
        RioError,
    >)
        ensures
            match r {
                Ok(slice) => {
                    &&& slice_fault(self.length(), offset, length) is None
                    &&& slice.buffer_id == buffer_id
                    &&& slice.offset == offset
                    &&& slice.length == length
                },
                Err(e) => slice_fault(self.length(), offset, length) matches Some(message)
                    && e.text() == RioErrorText::InvalidDescriptor(message),
            },
    {
        let end: usize = match offset.checked_add(length) {
            Some(end) => end,
            None => {
                return Err(RioError::InvalidDescriptor("RIO slice offset overflows".to_owned()));
            },
        };
        if end > self.storage.len() {
            return Err(
                RioError::InvalidDescriptor("RIO slice exceeds registered buffer".to_owned()),
            );
        }
        if offset > 0xffff_ffff {
            return Err(RioError::InvalidDescriptor("RIO slice offset exceeds u32".to_owned()));
        }
        if length > 0xffff_ffff {
            return Err(RioError::InvalidDescriptor("RIO slice length exceeds u32".to_owned()));
        }
        Ok(RioBufferSlice { buffer_id, offset: offset as u32, length: length as u32 })
    }
}

/// Payloads of different frames never share a byte of a buffer.
pub proof fn law_frames_do_not_overlap(
    buffer_length: nat,
    frame_size: u32,
    first: usize,
    first_length: u32,
    second: usize,
    second_length: u32,
)
    requires
        first < second,
        descriptor_fault(buffer_length, frame_size, first, first_length) is None,
        descriptor_fault(buffer_length, frame_size, second, second_length) is None,
    ensures
        first * frame_size + first_length <= second * frame_size,
{
    assert(first * frame_size + first_length <= second * frame_size) by (nonlinear_arith)
        requires
            first < second,
            first_length <= frame_size,
    ;
}

/// A queue of a fixed capacity: what came first leaves first.
pub struct RioQueue {
    entries: VecDeque<RioDescriptor>,
    capacity: usize,
}

impl View for RioQueue {
    type V = Seq<RioDescriptor>;

    closed spec fn view(&self) -> Seq<RioDescriptor> {
        self.entries@
    }
}

impl RioQueue {
    /// The room of the queue.
    pub closed spec fn capacity(self) -> usize {
        self.capacity
    }

    /// Whether the queue holds no more than its room.
    #[verifier::type_invariant]
    spec fn bounded(self) -> bool {
        self.entries@.len() <= self.capacity
    }

    /// Creates an empty queue.
    ///
    /// # Errors
    ///
    /// Fails when the capacity is not a power of two.
    pub fn new(capacity: u32) -> (r: Result<Self, RioError>)
        ensures
            match r {
                Ok(queue) => {
                    &&& valid_capacity(capacity)
                    &&& queue.capacity() == capacity
                    &&& queue@ == Seq::<RioDescriptor>::empty()
                },
                Err(e) => !valid_capacity(capacity) && e.text() == RioErrorText::InvalidConfig(
                    "RIO queue capacity must be a non-zero power-of-two"@,
                ),
            },
    {
        if capacity == 0 || !is_power_of_two(capacity) {
            return Err(
                RioError::InvalidConfig(
                    "RIO queue capacity must be a non-zero power-of-two".to_owned(),
                ),
            );
        }
        Ok(
            RioQueue {
                entries: VecDeque::with_capacity(capacity as usize),
                capacity: capacity as usize,
            },
        )
    }

    /// Adds a descriptor at the end.
    ///
    /// # Errors
    ///
    /// Fails, and adds nothing, when the queue is full.
    pub fn submit(&mut self, descriptor: RioDescriptor) -> (r: Result<(), RioError>)
        ensures
            final(self).capacity() == old(self).capacity(),
            old(self)@.len() < old(self).capacity() ==> r is Ok && final(self)@ == old(self)@.push(
                descriptor,
            ),
            old(self)@.len() >= old(self).capacity() ==> refused(
                r,
                RioErrorText::QueueFull,
            ) && final(self)@ == old(self)@,
    {
        if self.entries.len() >= self.capacity {
            return Err(RioError::QueueFull);
        }
        let mut entries: VecDeque<RioDescriptor> = VecDeque::new();
        std::mem::swap(&mut entries, &mut self.entries);
        entries.push_back(descriptor);
        self.entries = entries;
        Ok(())
    }

    /// Takes the descriptor at the front.
    pub fn complete(&mut self) -> (r: Option<RioDescriptor>)
        ensures
            final(self).capacity() == old(self).capacity(),
            old(self)@.len() == 0 ==> r is None && final(self)@ == old(self)@,
            old(self)@.len() > 0 ==> r == Some(old(self)@[0]) && final(self)@ == old(self)@.drop_first(),
    {
        proof {
            use_type_invariant(&*self);
        }
        let mut entries: VecDeque<RioDescriptor> = VecDeque::new();
        std::mem::swap(&mut entries, &mut self.entries);
        let first = entries.pop_front();
        self.entries = entries;
        first
    }

    /// The number of descriptors.
    #[must_use]
    pub fn len(&self) -> (r: usize)
        ensures
            r == self@.len(),
            r <= self.capacity(),
    {
        proof {
            use_type_invariant(self);
        }
        self.entries.len()
    }

    /// Whether there are none.
    #[must_use]
    pub fn is_empty(&self) -> (r: bool)
        ensures
            r == (self@.len() == 0),
    {
        self.entries.len() == 0
    }
}

/// A queue of requests and a queue of what is done.
pub struct RioQueuePair {
    request: RioQueue,
    completion: RioQueue,
}

impl RioQueuePair {
    /// The requests.
    pub closed spec fn requests(self) -> Seq<RioDescriptor> {
        self.request@
    }

    /// What is done.
    pub closed spec fn completions(self) -> Seq<RioDescriptor> {
        self.completion@
    }

    /// The room for requests.
    pub closed spec fn request_capacity(self) -> usize {
        self.request.capacity()
    }

    /// The room for what is done.
    pub closed spec fn completion_capacity(self) -> usize {
        self.completion.capacity()
    }

    /// Creates two empty queues.
    ///
    /// # Errors
    ///
    /// Fails when the configuration is not valid.
    pub fn new(config: RioConfig) -> (r: Result<Self, RioError>)
        ensures
            match r {
                Ok(pair) => {
                    &&& config.valid()
                    &&& pair.requests() == Seq::<RioDescriptor>::empty()
                    &&& pair.completions() == Seq::<RioDescriptor>::empty()
                    &&& pair.request_capacity() == config.request_queue_capacity
                    &&& pair.completion_capacity() == config.completion_queue_capacity
                },
                Err(e) => !config.valid() && e.text() == RioErrorText::InvalidConfig(
                    "buffer length must contain whole frames and queue capacities must be non-zero power-of-two values"@,
                ),
            },
    {
        let config = match config.validate() {
            Ok(config) => config,
            Err(e) => {
                return Err(e);
            },
        };
        let request = match RioQueue::new(config.request_queue_capacity) {
            Ok(queue) => queue,
            Err(e) => {
                return Err(e);
            },
        };
        let completion = match RioQueue::new(config.completion_queue_capacity) {
            Ok(queue) => queue,
            Err(e) => {
                return Err(e);
            },
        };
        Ok(RioQueuePair { request, completion })
    }

    /// Adds a request.
    ///
    /// # Errors
    ///
    /// Fails, and adds nothing, when there is no room for it.
    pub fn submit_request(&mut self, descriptor: RioDescriptor) -> (r: Result<(), RioError>)
        ensures
            final(self).request_capacity() == old(self).request_capacity(),
            final(self).completion_capacity() == old(self).completion_capacity(),
            final(self).completions() == old(self).completions(),
            old(self).requests().len() < old(self).request_capacity() ==> r is Ok && final(self).requests() == old(self).requests().push(descriptor),
            old(self).requests().len() >= old(self).request_capacity() ==> refused(
                r,
                RioErrorText::QueueFull,
            ) && final(self).requests() == old(self).requests(),
    {
        self.request.submit(descriptor)
    }

    /// Moves the first request to what is done, if there is one.
    ///
    /// # Errors
    ///
    /// Fails, and leaves the request where it is, when there is no room for what is done.
    pub fn complete_one(&mut self) -> (r: Result<bool, RioError>)
        ensures
            final(self).request_capacity() == old(self).request_capacity(),
            final(self).completion_capacity() == old(self).completion_capacity(),
            old(self).completions().len() >= old(self).completion_capacity() ==> {
                &&& refused(r, RioErrorText::QueueFull)
                &&& final(self).requests() == old(self).requests()
                &&& final(self).completions() == old(self).completions()
            },
            old(self).completions().len() < old(self).completion_capacity() && old(self).requests().len() == 0 ==> {
                &&& r == Ok::<bool, RioError>(false)
                &&& final(self).requests() == old(self).requests()
                &&& final(self).completions() == old(self).completions()
            },
            old(self).completions().len() < old(self).completion_capacity() && old(self).requests().len() > 0 ==> {
                &&& r == Ok::<bool, RioError>(true)
                &&& final(self).requests() == old(self).requests().drop_first()
                &&& final(self).completions() == old(self).completions().push(
                    old(self).requests()[0],
                )
            },
    {
        if self.completion.len() >= self.completion.capacity {
            return Err(RioError::QueueFull);
        }
        match self.request.complete() {
            None => Ok(false),
            Some(descriptor) => match self.completion.submit(descriptor) {
                Ok(_) => Ok(true),
                Err(e) => Err(e),
            },
        }
    }

    /// Takes the first of what is done.
    pub fn dequeue_completion(&mut self) -> (r: Option<RioDescriptor>)
        ensures
            final(self).request_capacity() == old(self).request_capacity(),
            final(self).completion_capacity() == old(self).completion_capacity(),
            final(self).requests() == old(self).requests(),
            old(self).completions().len() == 0 ==> r is None && final(self).completions() == old(self).completions(),
            old(self).completions().len() > 0 ==> r == Some(old(self).completions()[0]) && final(self).completions() == old(self).completions().drop_first(),
    {
        self.completion.complete()
    }

    /// The number of requests.
    #[must_use]
    pub fn request_len(&self) -> (r: usize)
        ensures
            r == self.requests().len(),
            r <= self.request_capacity(),
    {
        self.request.len()
    }

    /// The number of what is done.
    #[must_use]
    pub fn completion_len(&self) -> (r: usize)
        ensures
            r == self.completions().len(),
            r <= self.completion_capacity(),
    {
        self.completion.len()
    }
}

/// Completing a request neither loses a descriptor nor changes the order: what is done and
/// what is asked for, one behind the other, stay the same.
pub proof fn law_completing_keeps_the_order(
    requests: Seq<RioDescriptor>,
    completions: Seq<RioDescriptor>,
)
    requires
        requests.len() > 0,
    ensures
        completions.push(requests[0]) + requests.drop_first() == completions + requests,
{
    assert(completions.push(requests[0]) + requests.drop_first() =~= completions + requests);
}

} // verus!
