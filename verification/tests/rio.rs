use nettool::record::Recorder;
use nettool::rio::{
    check_discovery, evaluate_rio_preflight, is_backend_built, DiscoveryReply, RegisteredBuffer,
    RioApi, RioBufferSlice, RioCompletion, RioConfig, RioDescriptor, RioError,
    RioPreflightSeverity, RioQueue, RioQueuePair,
};

#[test]
fn registered_buffer_and_queue_are_bounded() {
    assert!(!is_backend_built());
    let config = RioConfig {
        buffer_length: 4096,
        frame_size: 1024,
        request_queue_capacity: 2,
        completion_queue_capacity: 2,
    };
    let buffer = RegisteredBuffer::allocate(config).expect("buffer");
    let first = buffer.descriptor(0, 512).expect("descriptor");
    let second = buffer.descriptor(3, 1024).expect("descriptor");
    assert_eq!(buffer.slice(7, 1024, 512).expect("slice").length, 512);
    assert!(buffer.slice(7, 4090, 16).is_err());
    assert!(buffer.descriptor(4, 1).is_err());
    let mut queue = RioQueue::new(2).expect("queue");
    queue.submit(first).expect("submit");
    queue.submit(second).expect("submit");
    assert_eq!(queue.submit(first), Err(RioError::QueueFull));
    assert_eq!(queue.complete(), Some(first));
    assert_eq!(queue.complete(), Some(second));
    assert_eq!(queue.complete(), None);
}

#[test]
fn preflight_fails_closed_without_windows_implementation() {
    let report = evaluate_rio_preflight(false, false);
    assert!(!report.can_run);
    assert!(!report.implementation_available);
    assert_eq!(report.checks[0].severity, RioPreflightSeverity::Fail);
    assert_eq!(report.checks[1].severity, RioPreflightSeverity::Fail);
    let linked = evaluate_rio_preflight(true, true);
    assert!(linked.can_run);
}

#[test]
fn request_and_completion_queues_have_separate_capacity() {
    let config = RioConfig {
        request_queue_capacity: 2,
        completion_queue_capacity: 2,
        ..RioConfig::default()
    };
    let buffer = RegisteredBuffer::allocate(config).expect("buffer");
    let descriptor = buffer.descriptor(0, 64).expect("descriptor");
    let mut queues = RioQueuePair::new(config).expect("queues");
    queues.submit_request(descriptor).expect("request");
    assert_eq!(queues.request_len(), 1);
    assert!(queues.complete_one().expect("complete"));
    assert_eq!(queues.request_len(), 0);
    assert_eq!(queues.completion_len(), 1);
    assert_eq!(queues.dequeue_completion(), Some(descriptor));
}

#[test]
fn a_full_completion_queue_keeps_the_request() {
    let config = RioConfig {
        request_queue_capacity: 4,
        completion_queue_capacity: 1,
        ..RioConfig::default()
    };
    let mut queues = RioQueuePair::new(config).expect("queues");
    assert_eq!(queues.complete_one(), Ok(false));
    for offset in 0..3 {
        queues
            .submit_request(RioDescriptor { offset, length: 1 })
            .expect("request");
    }
    assert_eq!(queues.complete_one(), Ok(true));
    assert_eq!(queues.complete_one(), Err(RioError::QueueFull));
    assert_eq!(queues.request_len(), 2);
    assert_eq!(queues.dequeue_completion().expect("first").offset, 0);
    assert_eq!(queues.complete_one(), Ok(true));
    assert_eq!(queues.dequeue_completion().expect("second").offset, 1);
    assert_eq!(queues.dequeue_completion(), None);
}

#[test]
fn invalid_configurations_and_descriptors_say_why() {
    let mut config = RioConfig::default();
    assert_eq!(config.validate(), Ok(config));
    config.request_queue_capacity = 3;
    assert!(config.validate().is_err());
    config = RioConfig {
        buffer_length: 5000,
        ..RioConfig::default()
    };
    assert!(RegisteredBuffer::allocate(config).is_err());
    assert!(RioQueue::new(6).is_err());
    let buffer = RegisteredBuffer::allocate(RioConfig::default()).expect("buffer");
    assert_eq!(buffer.len(), 2 * 1024 * 1024);
    assert!(!buffer.is_empty());
    assert_eq!(
        buffer.descriptor(0, 2049),
        Err(RioError::InvalidDescriptor(
            "payload exceeds registered frame size".to_owned()
        ))
    );
    assert_eq!(
        buffer.descriptor(usize::MAX, 1),
        Err(RioError::InvalidDescriptor("frame offset overflows".to_owned()))
    );
    assert_eq!(
        buffer.descriptor(usize::MAX / 2048, 2048),
        Err(RioError::InvalidDescriptor("descriptor end overflows".to_owned()))
    );
    assert_eq!(
        buffer.slice(1, usize::MAX, 1),
        Err(RioError::InvalidDescriptor("RIO slice offset overflows".to_owned()))
    );
    assert_eq!(RioError::QueueFull.to_text(), "RIO.QUEUE_FULL");
    assert_eq!(
        RioError::WindowsApi {
            operation: "RIOSend",
            code: 10022
        }
        .to_text(),
        "RIO.RIOSend_FAILED: code=10022"
    );
    assert_eq!(
        RioError::InvalidConfig("x".to_owned()).to_text(),
        "RIO.INVALID_CONFIG: x"
    );
    assert_eq!(
        RioError::InvalidDescriptor("y".to_owned()).to_text(),
        "RIO.INVALID_DESCRIPTOR: y"
    );
    assert_eq!(
        RioError::UnsupportedPlatform.to_text(),
        "RIO.UNSUPPORTED_PLATFORM"
    );
}

fn found_api() -> RioApi {
    let search = |socket: usize| DiscoveryReply {
        result: if socket == 3 { 0 } else { -1 },
        last_error: 9,
        returned: 8,
        table_size: Some(112),
    };
    assert!(matches!(
        RioApi::discover(4, 112, Some(search)),
        Err(RioError::WindowsApi { operation: "WSAIoctl_discover", code: 9 })
    ));
    RioApi::discover(3, 112, Some(search)).expect("functions")
}

type Submission = (RioBufferSlice, u32, usize);

#[test]
fn requests_go_through_the_functions_that_were_found() {
    assert!(matches!(
        RioApi::discover(3, 112, None::<fn(usize) -> DiscoveryReply>),
        Err(RioError::UnsupportedPlatform)
    ));
    let api = found_api();
    let slice = RioBufferSlice {
        buffer_id: 7,
        offset: 0,
        length: 64,
    };
    assert_eq!(
        api.send(slice, 1, 99, &mut Recorder::new(|call: Submission| {
            assert_eq!(call, (slice, 1, 99));
            Some(Ok(()))
        })),
        Ok(())
    );
    assert_eq!(
        api.receive(slice, 0, 0, &mut Recorder::new(|_: Submission| Some(Err(10055)))),
        Err(RioError::WindowsApi {
            operation: "RIOReceive",
            code: 10055
        })
    );
    assert_eq!(
        api.send(slice, 0, 0, &mut Recorder::new(|_: Submission| None)),
        Err(RioError::WindowsApi {
            operation: "RIOSend_missing",
            code: 0
        })
    );
    let unregistered = RioBufferSlice {
        buffer_id: 0,
        ..slice
    };
    assert_eq!(
        api.receive(unregistered, 0, 0, &mut Recorder::new(|_: Submission| panic!("a call"))),
        Err(RioError::InvalidDescriptor(
            "RIO buffer ID must be non-zero".to_owned()
        ))
    );
}

#[test]
fn completions_are_copied_to_the_front() {
    let api = found_api();
    let done = RioCompletion {
        status: 0,
        bytes_transferred: 64,
        request_context: 5,
    };
    let empty = RioCompletion {
        status: -1,
        bytes_transferred: 0,
        request_context: 0,
    };
    let mut output = [empty; 3];
    let count = api.dequeue_completions(&mut output, &mut Recorder::new(|room: usize| {
        assert_eq!(room, 3);
        Some(Ok(vec![done, done]))
    }));
    assert_eq!(count, Ok(2));
    assert_eq!(output, [done, done, empty]);
    assert_eq!(
        api.dequeue_completions(&mut [], &mut Recorder::new(|_: usize| panic!("a call"))),
        Ok(0)
    );
    assert_eq!(
        api.dequeue_completions(&mut output, &mut Recorder::new(|_: usize| Some(Err(6)))),
        Err(RioError::WindowsApi {
            operation: "RIODequeueCompletion",
            code: 6
        })
    );
}

#[test]
fn resources_are_created_through_the_functions_that_were_found() {
    let api = found_api();
    let buffer = RegisteredBuffer::allocate(RioConfig::default()).expect("buffer");
    assert_eq!(
        api.register_registered_buffer(&buffer, &mut Recorder::new(|length: u32| {
            assert_eq!(length, 2 * 1024 * 1024);
            Some(Ok(11))
        })),
        Ok(11)
    );
    assert_eq!(
        api.create_completion_queue(0, &mut Recorder::new(|_: u32| panic!("a call"))),
        Err(RioError::InvalidConfig(
            "RIO completion queue capacity must be non-zero".to_owned()
        ))
    );
    assert_eq!(
        api.create_completion_queue(8, &mut Recorder::new(|_: u32| Some(Err(5)))),
        Err(RioError::WindowsApi {
            operation: "RIOCreateCompletionQueue",
            code: 5
        })
    );
    assert_eq!(
        api.create_request_queue(
            1,
            RioConfig::default(),
            2,
            &mut Recorder::new(|call: (usize, u32, usize)| {
                assert_eq!(call, (1, 1024, 2));
                Some(Ok(33))
            })
        ),
        Ok(33)
    );
}

#[test]
fn discovery_replies_are_checked_in_order() {
    let good = DiscoveryReply {
        result: 0,
        last_error: 9,
        returned: 8,
        table_size: Some(112),
    };
    assert_eq!(check_discovery(good, 112), Ok(()));
    let failing = |operation: &'static str, code: u32| Err(RioError::WindowsApi { operation, code });
    assert_eq!(
        check_discovery(DiscoveryReply { result: -1, ..good }, 112),
        failing("WSAIoctl_discover", 9)
    );
    assert_eq!(
        check_discovery(DiscoveryReply { table_size: None, ..good }, 112),
        failing("WSAIoctl_null_table", 8)
    );
    assert_eq!(
        check_discovery(DiscoveryReply { table_size: Some(100), ..good }, 112),
        failing("WSAIoctl_short_table", 100)
    );
}
