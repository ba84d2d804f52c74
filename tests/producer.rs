use rocketmq::codec::{encode_reply, DecodeError, Reply, ReplyOutcome};
use rocketmq::error::ClientError;
use rocketmq::message::Message;
use rocketmq::producer::{Producer, ProducerBuilder, SendReceipt};
use rocketmq::retry::RetryPolicy;
use rocketmq::send::{Action, Event, Phase, SendCall};

fn producer(target: &str) -> Producer {
    ProducerBuilder::new(target).build().unwrap()
}

fn ack(id: u64, message_id: &str) -> Vec<u8> {
    encode_reply(&Reply {
        correlation_id: id,
        outcome: ReplyOutcome::Accepted { message_id: message_id.to_owned() },
    })
}

fn reject(id: u64, reason: &str) -> Vec<u8> {
    encode_reply(&Reply {
        correlation_id: id,
        outcome: ReplyOutcome::Rejected { reason: reason.to_owned() },
    })
}

/// Connects and writes, leaving the call waiting for its reply.
fn connect_and_write(call: &mut SendCall) {
    assert_eq!(call.step(Event::Connected), Action::Write { endpoint: call.endpoint() });
    assert_eq!(call.phase(), Phase::AwaitingResponse);
}

#[test]
fn test_builder() {
    let target = "localhost:9876";
    let mut producer = ProducerBuilder::new(target).build().unwrap();

    let message = Message::new("topic", vec![]);
    let mut call = producer.begin_send(&message, 0, 0).unwrap();
    connect_and_write(&mut call);
    let action = call.step(Event::Response { bytes: ack(call.correlation_id(), "abc") });
    assert_eq!(
        Action::Complete {
            result: Ok(SendReceipt::Success { message_id: "abc".to_owned() }),
        },
        action
    );
}

#[test]
fn broker_rejection_is_a_failure_receipt() {
    let mut producer = producer("localhost:9876");
    let mut call = producer.begin_send(&Message::new("t", vec![1]), 0, 0).unwrap();
    connect_and_write(&mut call);
    let action = call.step(Event::Response { bytes: reject(call.correlation_id(), "queue full") });
    assert_eq!(
        action,
        Action::Complete {
            result: Ok(SendReceipt::Failure {
                cause: "queue full".to_owned(),
                target_host: "localhost:9876".to_owned(),
            }),
        }
    );
    assert!(call.is_done());
}

#[test]
fn unreachable_endpoint_exhausts_retries() {
    let policy = RetryPolicy::new(4, 10, 1000);
    let mut producer = ProducerBuilder::new("a:1")
        .add_endpoint("b:2")
        .set_retry_policy(policy)
        .build()
        .unwrap();
    let mut call = producer.begin_send(&Message::new("t", vec![]), 0, 0).unwrap();
    let mut connects = 1;
    let mut endpoints = vec![call.endpoint()];
    let result = loop {
        match call.step(Event::ConnectFailed { cause: "refused".to_owned() }) {
            Action::Sleep { .. } => {}
            Action::Complete { result } => break result,
            other => panic!("unexpected {:?}", other),
        }
        match call.step(Event::BackoffElapsed) {
            Action::Connect { endpoint } => {
                connects += 1;
                endpoints.push(endpoint);
            }
            other => panic!("unexpected {:?}", other),
        }
    };
    assert_eq!(connects, 4);
    assert_eq!(endpoints, vec![0, 1, 0, 1]);
    assert_eq!(
        result,
        Err(ClientError::ExhaustedRetries {
            attempts: 4,
            last: Box::new(ClientError::ConnectError {
                endpoint: "b:2".to_owned(),
                cause: "refused".to_owned(),
            }),
        })
    );
}

#[test]
fn lost_connection_is_retried_then_succeeds() {
    let mut producer = producer("a:1");
    let mut call = producer.begin_send(&Message::new("t", vec![]), 0, 0).unwrap();
    connect_and_write(&mut call);
    let action = call.step(Event::ConnectionLost { cause: "reset".to_owned() });
    assert_eq!(action, Action::Sleep { ms: 50 });
    assert_eq!(call.attempts(), 2);
    assert_eq!(call.step(Event::BackoffElapsed), Action::Connect { endpoint: 0 });
    connect_and_write(&mut call);
    let action = call.step(Event::Response { bytes: ack(call.correlation_id(), "m-2") });
    assert_eq!(
        action,
        Action::Complete { result: Ok(SendReceipt::Success { message_id: "m-2".to_owned() }) }
    );
}

#[test]
fn decode_error_is_not_retried() {
    let mut producer = producer("a:1");
    let mut call = producer.begin_send(&Message::new("t", vec![]), 0, 0).unwrap();
    connect_and_write(&mut call);
    let action = call.step(Event::Response { bytes: vec![9, 9, 9] });
    assert_eq!(
        action,
        Action::Complete {
            result: Err(ClientError::DecodeError {
                endpoint: "a:1".to_owned(),
                error: DecodeError::Truncated,
            }),
        }
    );
    assert_eq!(call.attempts(), 1);
    assert!(call.is_done());
}

#[test]
fn concurrent_calls_get_their_own_receipts() {
    let mut producer = producer("a:1");
    let mut calls: Vec<SendCall> = Vec::new();
    for i in 0..100u8 {
        let mut call = producer.begin_send(&Message::new("t", vec![i]), 0, 0).unwrap();
        connect_and_write(&mut call);
        calls.push(call);
    }
    let ids: Vec<u64> = calls.iter().map(|c| c.correlation_id()).collect();
    for (i, id) in ids.iter().enumerate() {
        assert_eq!(*id, i as u64);
    }
    // Every call first sees the reply meant for its neighbour, then its own.
    for (i, call) in calls.iter_mut().enumerate() {
        let other = ids[(i + 1) % 100];
        let action = call.step(Event::Response { bytes: ack(other, &format!("m{}", other)) });
        assert_eq!(action, Action::Await);
        assert!(!call.is_done());
        let own = call.correlation_id();
        let action = call.step(Event::Response { bytes: ack(own, &format!("m{}", own)) });
        assert_eq!(
            action,
            Action::Complete {
                result: Ok(SendReceipt::Success { message_id: format!("m{}", own) }),
            }
        );
    }
}

#[test]
fn deadline_gives_timeout() {
    let mut producer = ProducerBuilder::new("a:1").set_timeout(500).build().unwrap();
    let mut call = producer.begin_send(&Message::new("t", vec![]), 1000, 0).unwrap();
    assert_eq!(call.deadline_ms(), 1500);
    connect_and_write(&mut call);
    assert_eq!(call.step(Event::Tick { now_ms: 1499 }), Action::Await);
    assert!(!call.is_done());
    assert_eq!(
        call.step(Event::Tick { now_ms: 1500 }),
        Action::Complete { result: Err(ClientError::Timeout { endpoint: "a:1".to_owned() }) }
    );
}

#[test]
fn deadline_saturates() {
    let mut producer = ProducerBuilder::new("a:1").set_timeout(10).build().unwrap();
    let call = producer.begin_send(&Message::new("t", vec![]), u64::MAX - 3, 0).unwrap();
    assert_eq!(call.deadline_ms(), u64::MAX);
}

#[test]
fn stale_events_are_ignored() {
    let mut producer = producer("a:1");
    let mut call = producer.begin_send(&Message::new("t", vec![]), 0, 0).unwrap();
    assert_eq!(call.step(Event::BackoffElapsed), Action::Await);
    assert_eq!(call.step(Event::Response { bytes: ack(0, "x") }), Action::Await);
    assert_eq!(call.phase(), Phase::Connecting);
}

#[test]
fn builder_rejects_empty_target() {
    assert!(matches!(ProducerBuilder::new("").build(), Err(ClientError::InvalidTarget)));
    assert!(matches!(
        ProducerBuilder::new("a:1").add_endpoint("").build(),
        Err(ClientError::InvalidTarget)
    ));
}

#[test]
fn builder_rejects_policy_without_attempts() {
    let policy = RetryPolicy::new(0, 1, 1);
    assert!(matches!(
        ProducerBuilder::new("a:1").set_retry_policy(policy).build(),
        Err(ClientError::InvalidRetryPolicy)
    ));
}

#[test]
fn correlation_ids_advance() {
    let mut producer = producer("a:1");
    assert_eq!(producer.next_correlation_id(), 0);
    let first = producer.begin_send(&Message::new("t", vec![]), 0, 0).unwrap();
    let second = producer.begin_send(&Message::new("t", vec![]), 0, 0).unwrap();
    assert_eq!(first.correlation_id(), 0);
    assert_eq!(second.correlation_id(), 1);
    assert_eq!(producer.next_correlation_id(), 2);
    assert_eq!(producer.endpoints(), &vec!["a:1".to_owned()]);
}

#[test]
fn request_frame_is_written() {
    let mut producer = producer("a:1");
    let call = producer.begin_send(&Message::new("t", vec![1, 2]), 0, 0).unwrap();
    assert_eq!(
        call.request(),
        &vec![0, 0, 0, 0, 0, 0, 0, 0, 0, 0, 0, 1, b't', 0, 0, 0, 0, 0, 0, 0, 0, 0, 0, 0, 2, 1, 2]
    );
    assert_eq!(call.endpoint_address(), "a:1");
}
