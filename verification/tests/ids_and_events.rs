use mehoy::event::{ExitCause, InferenceEvent, RuntimeEvent};
use mehoy::id::{IdAllocator, ModelId, RequestId, WorkerId};

#[test]
fn allocator_starts_at_one() {
    let mut alloc = IdAllocator::new();
    assert_eq!(alloc.request().as_raw(), 1);
}

#[test]
fn allocator_does_not_repeat_across_kinds() {
    let mut alloc = IdAllocator::new();
    let a = alloc.request().as_raw();
    let b = alloc.worker().as_raw();
    let c = alloc.model().as_raw();
    assert_eq!([a, b, c], [1, 2, 3]);
}

#[test]
fn display_is_prefixed_by_kind() {
    assert_eq!(RequestId::from_raw(7).to_string(), "req-7");
    assert_eq!(WorkerId::from_raw(7).to_string(), "wrk-7");
    assert_eq!(ModelId::from_raw(7).to_string(), "mdl-7");
}

#[test]
fn ids_of_different_kinds_are_distinct_types() {
    // This test documents intent: the following must not compile.
    //   let _: RequestId = WorkerId::from_raw(1);
    let request = RequestId::from_raw(1);
    let worker = WorkerId::from_raw(1);
    assert_eq!(request.as_raw(), worker.as_raw());
    assert_ne!(request.to_string(), worker.to_string());
}

#[test]
fn identifiers_count_up_without_repeating() {
    let mut alloc = IdAllocator::new();
    let mut last = 0;
    for _ in 0..100 {
        let next = alloc.request().as_raw();
        assert_eq!(next, last + 1);
        last = next;
    }
    assert_eq!(alloc.worker().as_raw(), 101);
    assert_eq!(RequestId::from_raw(u64::MAX).to_string(), "req-18446744073709551615");
    assert_eq!(WorkerId::from_raw(0).to_string(), "wrk-0");
}

fn req() -> RequestId {
    RequestId::from_raw(42)
}

#[test]
fn every_inference_event_reports_its_request() {
    let events = [
        InferenceEvent::Started { request_id: req() },
        InferenceEvent::Token {
            request_id: req(),
            index: 0,
            text: "hello".into(),
        },
        InferenceEvent::Completed {
            request_id: req(),
            token_count: 1,
        },
        InferenceEvent::Failed {
            request_id: req(),
            cause: "backend gone".into(),
        },
    ];
    for event in &events {
        assert_eq!(event.request_id(), req());
    }
}

#[test]
fn only_completed_and_failed_are_terminal() {
    assert!(!InferenceEvent::Started { request_id: req() }.is_terminal());
    assert!(
        !InferenceEvent::Token {
            request_id: req(),
            index: 0,
            text: String::new(),
        }
        .is_terminal()
    );
    assert!(
        InferenceEvent::Completed {
            request_id: req(),
            token_count: 0,
        }
        .is_terminal()
    );
    assert!(
        InferenceEvent::Failed {
            request_id: req(),
            cause: String::new(),
        }
        .is_terminal()
    );
}

#[test]
fn only_requested_exit_is_expected() {
    assert!(ExitCause::Requested.is_expected());
    assert!(!ExitCause::Unexpected { code: Some(1) }.is_expected());
    assert!(!ExitCause::StartupTimeout.is_expected());
    assert!(!ExitCause::Killed.is_expected());
}

#[test]
fn runtime_events_name_what_they_are_about() {
    let started = RuntimeEvent::WorkerStarted { worker_id: WorkerId::from_raw(1) };
    let exited = RuntimeEvent::WorkerExited {
        worker_id: WorkerId::from_raw(1),
        cause: ExitCause::Requested,
    };
    assert_ne!(started, exited);
    assert_eq!(started, RuntimeEvent::WorkerStarted { worker_id: WorkerId::from_raw(1) });
    assert_ne!(
        RuntimeEvent::ModelLoaded { model_id: ModelId::from_raw(1), worker_id: WorkerId::from_raw(2) },
        RuntimeEvent::ModelUnloaded { model_id: ModelId::from_raw(1) }
    );
}

#[test]
fn a_default_allocator_never_hands_out_zero() {
    let mut allocator = IdAllocator::default();
    assert_eq!(allocator.worker().as_raw(), 1);
    assert_eq!(allocator.request().as_raw(), 2);
    assert_eq!(allocator.model().as_raw(), 3);
}
