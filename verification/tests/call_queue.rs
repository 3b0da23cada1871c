use yakyak::domain::call_queue::{AgentStatus, CallQueue, CallQueueState, QueueMember, QueueStrategy, QueuedCall};

fn queue_id() -> u128 {
    0x1234_5678_9abc_4def_8123_4567_89ab_cdef
}

#[test]
fn test_queue_member_creation() {
    let member = QueueMember::new(1, "alice".to_string(), "1001".to_string());
    assert_eq!(member.username, "alice");
    assert_eq!(member.extension, "1001");
    assert_eq!(member.status, AgentStatus::Available);
    assert!(member.is_available());
}

#[test]
fn test_queue_member_pause() {
    let mut member = QueueMember::new(1, "alice".to_string(), "1001".to_string());
    member.pause(Some("Break".to_string()));

    assert!(member.paused);
    assert_eq!(member.paused_reason, Some("Break".to_string()));
    assert!(!member.is_available());

    member.unpause();
    assert!(!member.paused);
    assert!(member.is_available());
}

#[test]
fn test_queue_member_record_calls() {
    let mut member = QueueMember::new(1, "alice".to_string(), "1001".to_string());

    member.record_answered(120_000);
    assert_eq!(member.answered_calls, 1);
    assert_eq!(member.total_calls, 1);
    assert_eq!(member.total_talk_time_ms, 120_000);

    member.record_missed();
    assert_eq!(member.missed_calls, 1);
    assert_eq!(member.total_calls, 2);
}

#[test]
fn test_call_queue_creation() {
    let queue = CallQueue::new("Support Queue".to_string(), "8000".to_string(), QueueStrategy::RoundRobin);

    assert_eq!(queue.name, "Support Queue");
    assert_eq!(queue.strategy, QueueStrategy::RoundRobin);
    assert_eq!(queue.max_queue_size, 100);
}

#[test]
fn test_queue_state_enqueue() {
    let queue_id = queue_id();
    let mut state = CallQueueState::new(queue_id);

    let call = QueuedCall::new("call-1".to_string(), "alice".to_string(), queue_id);
    state.enqueue_call(call).unwrap();

    assert_eq!(state.waiting_calls.len(), 1);
    assert_eq!(state.waiting_calls[0].position, 0);
}

#[test]
fn test_queue_state_dequeue() {
    let queue_id = queue_id();
    let mut state = CallQueueState::new(queue_id);

    let call1 = QueuedCall::new("call-1".to_string(), "alice".to_string(), queue_id);
    let call2 = QueuedCall::new("call-2".to_string(), "bob".to_string(), queue_id);

    state.enqueue_call(call1).unwrap();
    state.enqueue_call(call2).unwrap();

    let dequeued = state.dequeue_call().unwrap();
    assert_eq!(dequeued.caller, "alice");
    assert_eq!(state.waiting_calls.len(), 1);
    assert_eq!(state.waiting_calls[0].position, 1);
}

#[test]
fn test_round_robin_selection() {
    let queue_id = queue_id();
    let mut state = CallQueueState::new(queue_id);

    let member1 = QueueMember::new(1, "alice".to_string(), "1001".to_string());
    let member2 = QueueMember::new(2, "bob".to_string(), "1002".to_string());

    state.add_member(member1);
    state.add_member(member2);

    let selected1 = state.get_next_agent(QueueStrategy::RoundRobin).unwrap();
    let selected2 = state.get_next_agent(QueueStrategy::RoundRobin).unwrap();

    assert_ne!(selected1, selected2);
}

#[test]
fn test_queue_statistics() {
    let queue_id = queue_id();
    let mut state = CallQueueState::new(queue_id);

    let member1 = QueueMember::new(1, "alice".to_string(), "1001".to_string());
    let member2 = QueueMember::new(2, "bob".to_string(), "1002".to_string());

    state.add_member(member1);
    state.add_member(member2);

    let call = QueuedCall::new("call-1".to_string(), "caller".to_string(), queue_id);
    state.enqueue_call(call).unwrap();

    let stats = state.get_statistics();
    assert_eq!(stats.total_members, 2);
    assert_eq!(stats.available_members, 2);
    assert_eq!(stats.calls_waiting, 1);
}

#[test]
fn fewest_calls_strategy_picks_least_busy_agent() {
    let mut state = CallQueueState::new(queue_id());
    let mut busy = QueueMember::new_at(1, 1, "alice".to_string(), "1001".to_string(), 10);
    busy.record_answered_at(1000, 20);
    let idle = QueueMember::new_at(2, 2, "bob".to_string(), "1002".to_string(), 30);
    state.add_member(busy);
    state.add_member(idle);
    assert_eq!(state.get_next_agent(QueueStrategy::FewestCalls), Some(2));
    assert_eq!(state.get_next_agent(QueueStrategy::Linear), Some(1));
    assert_eq!(state.get_next_agent(QueueStrategy::LeastRecent), Some(2));
}

#[test]
fn paused_agents_are_not_offered() {
    let mut state = CallQueueState::new(queue_id());
    let mut m = QueueMember::new_at(7, 1, "alice".to_string(), "1001".to_string(), 0);
    m.pause(None);
    state.add_member(m);
    assert_eq!(state.get_next_agent(QueueStrategy::RingAll), None);
    assert_eq!(state.get_available_members().len(), 0);
}

#[test]
fn completing_a_call_updates_the_agent() {
    let mut state = CallQueueState::new(queue_id());
    state.add_member(QueueMember::new_at(7, 1, "alice".to_string(), "1001".to_string(), 0));
    state.assign_call("call-1".to_string(), 7);
    assert_eq!(state.get_statistics().busy_members, 1);
    assert_eq!(state.get_statistics().active_calls, 1);
    state.complete_call_at("call-1", 5_000, 99);
    let stats = state.get_statistics();
    assert_eq!(stats.active_calls, 0);
    assert_eq!(stats.busy_members, 0);
    let m = state.members.get(&7).unwrap();
    assert_eq!(m.status, AgentStatus::AfterCallWork);
    assert_eq!(m.total_talk_time_ms, 5_000);
    assert_eq!(m.last_call_time, Some(99));
}
