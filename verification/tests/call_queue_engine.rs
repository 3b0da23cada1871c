use yakyak::domain::call_queue::{CallQueue, QueueMember, QueueStrategy};
use yakyak::domain::call_queue_engine::{CallQueueEngine, QueueEngineError};

fn create_test_queue() -> CallQueue {
    let mut queue = CallQueue::new("Support Queue".to_string(), "5000".to_string(), QueueStrategy::RoundRobin);
    queue.max_wait_time_secs = 300;
    queue.max_queue_size = 10;
    queue.ring_timeout_secs = 20;
    queue.retry_delay_secs = 5;
    queue.max_retries = 3;
    queue.wrap_up_time_secs = 10;
    queue.music_on_hold = Some("moh_default".to_string());
    queue.periodic_announce_frequency_secs = 30;
    queue
}

#[test]
fn test_engine_creation() {
    let mut engine = CallQueueEngine::new();
    let queue = create_test_queue();
    engine.start_queue(queue.clone());

    let stats = engine.get_statistics(queue.id).unwrap();
    assert_eq!(stats.total_calls, 0);
}

#[test]
fn test_enqueue_call() {
    let mut engine = CallQueueEngine::new();
    let queue = create_test_queue();
    engine.start_queue(queue.clone());

    let result = engine.enqueue_call(
        queue.id,
        "call-123".to_string(),
        "sip:alice@example.com".to_string(),
        Some("Alice".to_string()),
    );

    assert!(result.is_ok());
    let queued = result.unwrap();
    assert_eq!(queued.caller, "sip:alice@example.com");
    assert_eq!(queued.position, 1);
}

#[test]
fn test_queue_full() {
    let mut engine = CallQueueEngine::new();
    let mut queue = create_test_queue();
    queue.max_queue_size = 2;
    engine.start_queue(queue.clone());

    engine.enqueue_call(queue.id, "call-1".to_string(), "caller1".to_string(), None).unwrap();
    engine.enqueue_call(queue.id, "call-2".to_string(), "caller2".to_string(), None).unwrap();

    let result = engine.enqueue_call(queue.id, "call-3".to_string(), "caller3".to_string(), None);
    assert_eq!(result, Err(QueueEngineError::QueueFull));
}

#[test]
fn test_add_remove_member() {
    let mut engine = CallQueueEngine::new();
    let queue = create_test_queue();
    engine.start_queue(queue.clone());

    let member = QueueMember::new(1, "agent1".to_string(), "1001".to_string());
    let member_id = member.id;

    engine.add_member(queue.id, member).unwrap();
    assert_eq!(engine.get_available_agents(queue.id).unwrap(), 1);

    engine.remove_member(queue.id, member_id).unwrap();
    assert_eq!(engine.get_available_agents(queue.id).unwrap(), 0);
}

#[test]
fn test_connect_call() {
    let mut engine = CallQueueEngine::new();
    let queue = create_test_queue();
    engine.start_queue(queue.clone());

    let member = QueueMember::new(1, "agent1".to_string(), "1001".to_string());
    let member_id = member.id;
    engine.add_member(queue.id, member).unwrap();

    engine.enqueue_call(queue.id, "call-123".to_string(), "caller".to_string(), None).unwrap();

    engine.connect_call(queue.id, "call-123", member_id).unwrap();

    let stats = engine.get_statistics(queue.id).unwrap();
    assert_eq!(stats.calls_answered, 1);
    assert_eq!(stats.calls_active, 1);
    assert_eq!(stats.calls_waiting, 0);
}

#[test]
fn test_abandon_call() {
    let mut engine = CallQueueEngine::new();
    let queue = create_test_queue();
    engine.start_queue(queue.clone());

    engine.enqueue_call(queue.id, "call-123".to_string(), "caller".to_string(), None).unwrap();
    engine.abandon_call(queue.id, "call-123").unwrap();

    let stats = engine.get_statistics(queue.id).unwrap();
    assert_eq!(stats.calls_abandoned, 1);
    assert_eq!(stats.calls_waiting, 0);
}

#[test]
fn test_end_call() {
    let mut engine = CallQueueEngine::new();
    let queue = create_test_queue();
    engine.start_queue(queue.clone());

    let member = QueueMember::new(1, "agent1".to_string(), "1001".to_string());
    let member_id = member.id;
    engine.add_member(queue.id, member).unwrap();

    engine.enqueue_call(queue.id, "call-123".to_string(), "caller".to_string(), None).unwrap();
    engine.connect_call(queue.id, "call-123", member_id).unwrap();

    let talk_time_ms = 60_000;
    engine.end_call(queue.id, "call-123", talk_time_ms).unwrap();

    let stats = engine.get_statistics(queue.id).unwrap();
    assert_eq!(stats.calls_active, 0);
}

#[test]
fn test_get_next_agent_round_robin() {
    let mut engine = CallQueueEngine::new();
    let queue = create_test_queue();
    engine.start_queue(queue.clone());

    let member1 = QueueMember::new(1, "agent1".to_string(), "1001".to_string());
    let member2 = QueueMember::new(2, "agent2".to_string(), "1002".to_string());

    engine.add_member(queue.id, member1).unwrap();
    engine.add_member(queue.id, member2).unwrap();

    let agent1 = engine.get_next_agent(queue.id).unwrap().unwrap();
    let agent2 = engine.get_next_agent(queue.id).unwrap().unwrap();

    assert_ne!(agent1.id, agent2.id);
}

#[test]
fn unknown_queue_is_reported() {
    let mut engine = CallQueueEngine::new();
    assert_eq!(engine.get_statistics(5).unwrap_err(), QueueEngineError::QueueNotFound);
    assert_eq!(engine.abandon_call(5, "x"), Err(QueueEngineError::QueueNotFound));
    assert_eq!(QueueEngineError::QueueNotFound.to_string(), "Queue not found");
}

#[test]
fn unknown_call_is_reported() {
    let mut engine = CallQueueEngine::new();
    let queue = create_test_queue();
    engine.start_queue(queue.clone());
    assert_eq!(engine.connect_call(queue.id, "nope", 1), Err(QueueEngineError::CallNotFound));
    assert_eq!(engine.end_call(queue.id, "nope", 1), Err(QueueEngineError::CallNotFound));
    assert_eq!(engine.get_position(queue.id, "nope"), Err(QueueEngineError::CallNotFound));
}

#[test]
fn positions_and_waits_follow_the_clock() {
    let mut engine = CallQueueEngine::new();
    let queue = create_test_queue();
    engine.start_queue(queue.clone());
    engine.enqueue_call_at(queue.id, "a".to_string(), "x".to_string(), None, 1, 1_000).unwrap();
    let second = engine.enqueue_call_at(queue.id, "b".to_string(), "y".to_string(), None, 2, 4_000).unwrap();
    assert_eq!(second.position, 2);
    assert_eq!(engine.get_position(queue.id, "a"), Ok(1));
    let calls = engine.get_waiting_calls(queue.id).unwrap();
    assert_eq!(calls[0].wait_time_ms, 3_000);
    // Mean of 3000 and 0 milliseconds.
    assert_eq!(engine.get_statistics(queue.id).unwrap().avg_wait_time_ms, 1_500);
    engine.abandon_call_at(queue.id, "a", 10_000).unwrap();
    assert_eq!(engine.get_position(queue.id, "b"), Ok(1));
    assert_eq!(engine.get_waiting_calls(queue.id).unwrap()[0].wait_time_ms, 6_000);
}

#[test]
fn answered_calls_feed_the_average_and_longest_wait() {
    let mut engine = CallQueueEngine::new();
    let queue = create_test_queue();
    engine.start_queue(queue.clone());
    engine.add_member(queue.id, QueueMember::new_at(9, 1, "a".to_string(), "1".to_string(), 0)).unwrap();
    engine.enqueue_call_at(queue.id, "a".to_string(), "x".to_string(), None, 1, 0).unwrap();
    engine.enqueue_call_at(queue.id, "b".to_string(), "y".to_string(), None, 2, 0).unwrap();
    // The first call leaves with the wait measured when it was last renumbered (0 ms);
    // the second is renumbered at 30 s.
    engine.connect_call_at(queue.id, "a", 9, 30_000).unwrap();
    let stats = engine.get_statistics(queue.id).unwrap();
    assert_eq!(stats.calls_answered, 1);
    assert_eq!(stats.longest_wait_time_ms, 0);
    assert_eq!(stats.answered_within_threshold, 1);
    engine.end_call_at(queue.id, "a", 1_000, 31_000).unwrap();
    assert_eq!(engine.get_available_agents(queue.id), Ok(1));
    engine.connect_call_at(queue.id, "b", 9, 40_000).unwrap();
    let stats = engine.get_statistics(queue.id).unwrap();
    assert_eq!(stats.calls_answered, 2);
    assert_eq!(stats.longest_wait_time_ms, 30_000);
    // The reported average is that of the calls still waiting: none.
    assert_eq!(stats.avg_wait_time_ms, 0);
    assert_eq!(stats.answered_within_threshold, 1);
}

#[test]
fn queue_without_music_gives_no_player() {
    let engine_queue = {
        let mut q = create_test_queue();
        q.music_on_hold = None;
        q
    };
    let mut engine = CallQueueEngine::new();
    engine.start_queue(engine_queue.clone());
    assert!(engine.create_moh_player(engine_queue.id, None).unwrap().is_none());
    assert_eq!(engine.music_on_hold(engine_queue.id), Ok(None));
}
