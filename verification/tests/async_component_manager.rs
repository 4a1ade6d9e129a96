use timewarp::async_component_manager::{AsyncComponentManager, Failure};
use timewarp::models::{Checkpoint, ComponentId, Message};

fn get_manager() -> AsyncComponentManager<i32> {
    AsyncComponentManager {
        id: 1,
        lvt: 20,
        state: 50,
        checkpoints: Vec::new(),
        received_messages: Vec::new(),
        sent_messages: Vec::new(),
    }
}

fn get_message() -> Message {
    Message {
        id: 10,
        payload: String::from("lkadjsfkl"),
        path: String::from(""),
        is_anti: false,
        sent_ts: 100,
        exec_ts: 200,
        from: 10,
        to: 100,
    }
}

fn get_id(x: u16) -> ComponentId {
    x
}

#[test]
fn async_component_manager_new_creates_and_takes_a_checkpoint() {
    let id = get_id(4);
    let initial_state = String::from("hello");
    let manager = AsyncComponentManager::new(id, initial_state.clone());

    let checkpoints = vec![Checkpoint { timestamp: 0, state: initial_state.clone() }];

    assert_eq!(
        manager,
        AsyncComponentManager {
            state: initial_state,
            lvt: 0,
            id,
            checkpoints,
            sent_messages: Vec::new(),
            received_messages: Vec::new(),
        }
    );
}

fn check_take_checkpoint(a: AsyncComponentManager<i32>) {
    let mut b = a.clone();
    b.take_checkpoint();

    let last_checkpoint = b.checkpoints.last().unwrap();
    assert_eq!(a.state, last_checkpoint.state);
    assert_eq!(a.lvt, last_checkpoint.timestamp);

    b.checkpoints.pop();
    assert_eq!(a, b);
}

#[test]
fn takecheckpoint_adds_a_checkpoint_and_increments_lvt() {
    // The snapshot is taken at the current virtual time; the virtual time
    // itself only moves through `update`, so the loop advances it between
    // snapshots.
    let mut a = get_manager();

    for _ in 0..10 {
        check_take_checkpoint(a.clone());
        a.take_checkpoint();
        let next = a.lvt + 1;
        a.update(50, next).unwrap();
    }
}

#[test]
fn async_component_manager_update_changes_fields_correctly() {
    let mut manager = get_manager();
    manager.state = 20;
    manager.lvt = 10;
    let clone = manager.clone();

    let new_lvt = 11;
    let new_state = 22;
    match manager.update(new_state, new_lvt) {
        Ok(_) => (),
        Err(_) => panic!(),
    }
    assert_eq!(manager.id, clone.id);
    assert_eq!(manager.checkpoints, clone.checkpoints);
    assert_eq!(manager.sent_messages, clone.sent_messages);
    assert_eq!(manager.received_messages, clone.received_messages);

    assert_eq!(manager.state, new_state);
    assert_eq!(manager.lvt, new_lvt);
}

#[test]
fn async_component_manager_update_returns_timeviolation_if_there_is_an_attempt_to_lower_lvt_manually(
) {
    let original = get_manager();
    let mut manager = original.clone();

    match manager.update(123, 10) {
        Err(Failure::TimeViolation) => (),
        _ => panic!(),
    }
    assert_eq!(manager.state, original.state);
    assert_eq!(manager.lvt, original.lvt);
}

#[test]
fn async_component_manager_savemessage_appends_received_message_to_correct_list() {
    let self_id = get_id(1);
    let other_id = get_id(2);
    let mut manager = AsyncComponentManager::new(self_id, 123);
    let mut msg = get_message();
    msg.from = other_id;
    msg.to = self_id;
    let mut clone = manager.clone();
    manager.save_message(msg.clone()).unwrap();
    assert_ne!(manager, clone);
    clone.received_messages.push(msg);
    assert_eq!(manager, clone);
}

#[test]
fn async_component_manager_savemessage_appends_sent_message_to_correct_list() {
    let self_id = get_id(1);
    let other_id = get_id(2);
    let mut manager = AsyncComponentManager::new(self_id, 123);
    let mut msg = get_message();
    msg.from = self_id;
    msg.to = other_id;
    let mut clone = manager.clone();
    manager.save_message(msg.clone()).unwrap();
    assert_ne!(manager, clone);
    clone.sent_messages.push(msg);
    assert_eq!(manager, clone);
}

#[test]
fn savemessage_handles_antimessages() {
    // An anti-message is never stored: the call fails and the manager is
    // left untouched.
    let self_id = get_id(1);
    let other_id = get_id(2);
    let mut manager = AsyncComponentManager::new(self_id, 123);
    let mut msg = get_message();
    msg.from = other_id;
    msg.to = self_id;
    msg.is_anti = true;
    let clone = manager.clone();
    match manager.save_message(msg) {
        Err(Failure::InvalidMessage) => (),
        _ => panic!(),
    }
    assert_eq!(manager, clone);
}

#[test]
fn async_component_manager_savemessage_returns_invalidmessage_if_new_message_is_neither_sent_or_received_by_self(
) {
    let self_id = get_id(1);
    let other_id1 = get_id(2);
    let other_id2 = get_id(3);
    let mut manager = get_manager();
    manager.id = self_id;

    let mut msg = get_message();
    msg.from = other_id1;
    msg.to = other_id2;

    match manager.save_message(msg) {
        Err(Failure::InvalidMessage) => (),
        _ => panic!(),
    }
}

#[test]
fn async_component_manager_savemessage_returns_timeviolation_if_new_sent_message_breaks_order() {
    let self_id = get_id(1);
    let other_id = get_id(2);
    let mut manager = AsyncComponentManager::new(self_id, 123);
    let mut msg1 = get_message();
    msg1.from = self_id;
    msg1.to = other_id;

    msg1.sent_ts = 10;
    msg1.exec_ts = 100;
    let mut msg2 = msg1.clone();
    msg2.sent_ts = 5;
    msg2.exec_ts = 100;

    manager.save_message(msg1).unwrap();
    match manager.save_message(msg2) {
        Err(Failure::TimeViolation) => (),
        _ => panic!(),
    }
}

#[test]
fn async_component_manager_savemessage_return_timeviolation_if_new_received_message_breaks_order() {
    let self_id = get_id(1);
    let other_id = get_id(2);
    let mut manager = AsyncComponentManager::new(self_id, 123);
    let mut msg1 = get_message();
    msg1.from = other_id;
    msg1.to = self_id;

    msg1.exec_ts = 10;
    msg1.sent_ts = 1;
    let mut msg2 = msg1.clone();
    msg2.exec_ts = 5;

    manager.save_message(msg1).unwrap();
    match manager.save_message(msg2) {
        Err(Failure::TimeViolation) => (),
        _ => panic!(),
    }
}

#[test]
fn async_component_manager_free_removes_correct_sent_messages() {
    let self_id = get_id(1);
    let other_id = get_id(2);
    let mut manager = AsyncComponentManager::new(self_id, 123);
    let mut msg1 = get_message();
    msg1.from = self_id;
    msg1.to = other_id;
    msg1.sent_ts = 10;
    msg1.exec_ts = 300;

    let mut msg2 = msg1.clone();
    msg2.sent_ts = 20;
    msg2.exec_ts = 200;

    let mut msg3 = msg1.clone();
    msg3.sent_ts = 30;
    msg3.exec_ts = 100;

    manager.save_message(msg1).unwrap();
    manager.save_message(msg2).unwrap();
    manager.save_message(msg3).unwrap();

    let mut clone = manager.clone();

    manager.free(20);
    assert_ne!(manager, clone);
    clone.sent_messages.remove(0);
    clone.sent_messages.remove(0);
    clone.checkpoints.remove(0);
    assert_eq!(manager, clone);
}

#[test]
fn async_component_manager_free_removes_correct_received_messages() {
    let self_id = get_id(1);
    let other_id = get_id(2);
    let mut manager = AsyncComponentManager::new(self_id, 123);
    let mut msg1 = get_message();
    msg1.from = other_id;
    msg1.to = self_id;
    msg1.sent_ts = 30;
    msg1.exec_ts = 100;

    let mut msg2 = msg1.clone();
    msg2.sent_ts = 20;
    msg2.exec_ts = 200;

    let mut msg3 = msg1.clone();
    msg3.sent_ts = 10;
    msg3.exec_ts = 300;

    manager.save_message(msg1).unwrap();
    manager.save_message(msg2).unwrap();
    manager.save_message(msg3).unwrap();

    let mut clone = manager.clone();

    manager.free(20);
    assert_ne!(manager, clone);
    // Every received message executes after 20; only the genesis
    // checkpoint is collected.
    clone.checkpoints.remove(0);
    assert_eq!(manager, clone);
}

#[test]
fn async_component_manager_free_removes_correct_checkpoints() {
    let mut manager = AsyncComponentManager::new(get_id(1), 123);
    manager.update(11, 10).unwrap();
    manager.take_checkpoint();
    manager.update(22, 20).unwrap();
    manager.take_checkpoint();
    manager.update(33, 30).unwrap();
    manager.take_checkpoint();

    let mut clone = manager.clone();
    manager.free(20);
    assert_ne!(manager, clone);
    clone.checkpoints.remove(0);
    clone.checkpoints.remove(0);
    clone.checkpoints.remove(0);
    assert_eq!(manager, clone);
}

/// The checkpoints are insufficient when there is no checkpoint whose
/// timestamp is less than or equal to the timestamp of the rollback.
#[test]
fn async_component_manager_rollback_returns_insufficientcheckpoints_if_checkpoints_are_insufficient(
) {
    let mut manager = get_manager();
    manager.lvt = 10;
    manager.checkpoints.clear();
    let clone = manager.clone();
    match manager.rollback(5) {
        Err(Failure::InsufficientCheckpoints) => (),
        _ => panic!(),
    };
    assert_eq!(manager, clone);
}

#[test]
fn async_component_manager_rollback_retuns_timeviolation_if_there_is_an_attempt_to_rollback_the_future(
) {
    let mut manager = get_manager();
    manager.lvt = 10;
    manager.checkpoints.clear();
    let clone = manager.clone();
    match manager.rollback(20) {
        Err(Failure::TimeViolation) => (),
        _ => panic!(),
    }
    assert_eq!(manager, clone);

    manager.checkpoints.push(Checkpoint { state: 123, timestamp: 5 });
    let clone = manager.clone();
    match manager.rollback(20) {
        Err(Failure::TimeViolation) => (),
        _ => panic!(),
    }
    assert_eq!(manager, clone);
}

fn manager_with_history() -> (AsyncComponentManager<i32>, Vec<Message>, Vec<Message>) {
    let self_id = get_id(1);
    let other_id = get_id(2);
    let mut rec = Vec::new();
    let mut snt = Vec::new();
    let mut manager = AsyncComponentManager::new(self_id, 123);
    for k in 1..4 {
        let mut m = get_message();
        m.from = other_id;
        m.to = self_id;
        m.sent_ts = 1;
        m.exec_ts = 10 * k;
        manager.save_message(m.clone()).unwrap();
        rec.push(m);
    }
    for k in 1..4 {
        let mut m = get_message();
        m.from = self_id;
        m.to = other_id;
        m.sent_ts = 10 * k;
        m.exec_ts = 1000;
        manager.save_message(m.clone()).unwrap();
        snt.push(m);
    }
    manager.update(999, 19).unwrap();
    manager.take_checkpoint();
    manager.update(888, 200).unwrap();
    manager.take_checkpoint();
    (manager, rec, snt)
}

#[test]
fn rollback_updates_state_and_lvt_correctly() {
    let (mut manager, _rec, _snt) = manager_with_history();
    manager.rollback(20).unwrap();
    assert_eq!(manager.lvt, 19);
    assert_eq!(manager.state, 999);
}

#[test]
fn rollback_removes_correct_messages_and_checkpoints() {
    let (mut manager, rec, snt) = manager_with_history();
    manager.rollback(20).unwrap();
    // Only the entries before 20 stay: one received message, one sent
    // message, the genesis checkpoint and the snapshot at 19.
    assert_eq!(manager.received_messages, vec![rec[0].clone()]);
    assert_eq!(manager.sent_messages, vec![snt[0].clone()]);
    assert_eq!(manager.checkpoints.len(), 2);
    assert_eq!(manager.checkpoints[0].timestamp, 0);
    assert_eq!(manager.checkpoints[1].timestamp, 19);
}

#[test]
fn rollback_returns_the_messages_that_must_be_sent_by_the_component() {
    let (mut manager, rec, snt) = manager_with_history();
    let result = manager.rollback(20).unwrap();
    // Anti twins share the identity of the retracted sent messages and
    // carry no payload.
    let mut anti2 = snt[1].clone();
    anti2.is_anti = true;
    anti2.payload = String::new();
    let mut anti3 = snt[2].clone();
    anti3.is_anti = true;
    anti3.payload = String::new();
    let expected = vec![rec[1].clone(), rec[2].clone(), anti2, anti3];
    assert_eq!(result, expected);
}
