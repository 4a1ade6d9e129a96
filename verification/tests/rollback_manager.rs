use timewarp::models::{Checkpoint, Message};
use timewarp::rollback_manager::{Failure, RollbackManager};

fn get_manager() -> RollbackManager<i32> {
    RollbackManager {
        id: 1,
        lvt: 20,
        state: 50,
        checkpoints: Vec::new(),
        received_messages: Vec::new(),
        sent_messages: Vec::new(),
    }
}

fn get_message() -> Message {
    Message {
        id: 10,
        payload: String::from(""),
        path: String::from(""),
        is_anti: false,
        sent_ts: 100,
        exec_ts: 200,
        from: 10,
        to: 100,
    }
}

#[test]
fn rollback_manager_new_creates_and_takes_a_checkpoint() {
    let id = 4;
    let initial_state = String::from("hello");
    let manager = RollbackManager::new(id, initial_state.clone());

    let checkpoints = vec![Checkpoint { timestamp: 0, state: initial_state.clone() }];

    assert_eq!(
        manager,
        RollbackManager {
            state: initial_state,
            lvt: 0,
            id,
            checkpoints,
            sent_messages: Vec::new(),
            received_messages: Vec::new(),
        }
    );
}

fn check_take_checkpoint(a: RollbackManager<i32>) {
    let mut b = a.clone();
    b.take_checkpoint();

    let last_checkpoint = b.checkpoints.last().unwrap();
    assert_eq!(a.state, last_checkpoint.state);
    assert_eq!(a.lvt, last_checkpoint.timestamp);

    b.checkpoints.pop();
    assert_eq!(a, b);
}

#[test]
fn takecheckpoint_increments_lvt_then_adds_a_checkpoint() {
    // The checkpoint is recorded at the current virtual time and the
    // virtual time itself does not move: `update` is its sole driver, so
    // the loop advances it between snapshots.
    let mut a = get_manager();

    for _ in 0..10 {
        check_take_checkpoint(a.clone());
        a.take_checkpoint();
        let next = a.lvt + 1;
        a.update(50, next).unwrap();
    }
}

#[test]
fn rollback_manager_update_changes_fields_correctly() {
    let mut manager = get_manager();
    manager.state = 20;
    manager.lvt = 10;
    let clone = manager.clone();

    let new_lvt = 11;
    let new_state = 22;
    match manager.update(new_state, new_lvt) {
        Ok(_) => (),
        Err(_) => panic!(),
    }
    assert_eq!(manager.id, clone.id);
    assert_eq!(manager.checkpoints, clone.checkpoints);
    assert_eq!(manager.sent_messages, clone.sent_messages);
    assert_eq!(manager.received_messages, clone.received_messages);

    assert_eq!(manager.state, new_state);
    assert_eq!(manager.lvt, new_lvt);
}

#[test]
fn rollback_manager_update_returns_timeviolation_if_there_is_an_attempt_to_lower_lvt_manually() {
    let original = get_manager();
    let mut manager = original.clone();

    match manager.update(123, 10) {
        Err(Failure::TimeViolation) => (),
        _ => panic!(),
    }
    assert_eq!(manager.state, original.state);
    assert_eq!(manager.lvt, original.lvt);
}

#[test]
fn rollback_manager_savemessage_appends_received_message_to_correct_list() {
    let self_id = 1;
    let other_id = 2;
    let mut manager = RollbackManager::new(self_id, 123);
    let mut msg = get_message();
    msg.from = other_id;
    msg.to = self_id;
    let mut clone = manager.clone();
    manager.save_message(msg.clone()).unwrap();
    assert_ne!(manager, clone);
    clone.received_messages.push(msg);
    assert_eq!(manager, clone);
}

#[test]
fn rollback_manager_savemessage_appends_sent_message_to_correct_list() {
    let self_id = 1;
    let other_id = 2;
    let mut manager = RollbackManager::new(self_id, 123);
    let mut msg = get_message();
    msg.from = self_id;
    msg.to = other_id;
    let mut clone = manager.clone();
    manager.save_message(msg.clone()).unwrap();
    assert_ne!(manager, clone);
    clone.sent_messages.push(msg);
    assert_eq!(manager, clone);
}

#[test]
fn rollback_manager_savemessage_returns_invalidmessage_if_new_message_is_neither_sent_or_received_by_self(
) {
    let self_id = 1;
    let other_id1 = 2;
    let other_id2 = 3;
    let mut manager = get_manager();
    manager.id = self_id;

    let mut msg = get_message();
    msg.from = other_id1;
    msg.to = other_id2;

    match manager.save_message(msg) {
        Err(Failure::InvalidMessage) => (),
        _ => panic!(),
    }
}

#[test]
fn savemessage_returns_invalidmessage_if_new_message_is_anti() {
    let self_id = 1;
    let other_id = 2;
    let mut msg = get_message();
    msg.is_anti = true;
    msg.from = self_id;
    msg.to = other_id;
    let mut manager = get_manager();
    manager.id = self_id;
    match manager.save_message(msg) {
        Err(Failure::InvalidMessage) => (),
        _ => panic!(),
    }
}

#[test]
fn rollback_manager_savemessage_returns_timeviolation_if_new_sent_message_breaks_order() {
    let self_id = 1;
    let other_id = 2;
    let mut manager = RollbackManager::new(self_id, 123);
    let mut msg1 = get_message();
    msg1.from = self_id;
    msg1.to = other_id;

    msg1.sent_ts = 10;
    msg1.exec_ts = 100;
    let mut msg2 = msg1.clone();
    msg2.sent_ts = 5;
    msg2.exec_ts = 100;

    manager.save_message(msg1).unwrap();
    match manager.save_message(msg2) {
        Err(Failure::TimeViolation) => (),
        _ => panic!(),
    }
}

#[test]
fn rollback_manager_savemessage_return_timeviolation_if_new_received_message_breaks_order() {
    let self_id = 1;
    let other_id = 2;
    let mut manager = RollbackManager::new(self_id, 123);
    let mut msg1 = get_message();
    msg1.from = other_id;
    msg1.to = self_id;

    msg1.exec_ts = 10;
    msg1.sent_ts = 1;
    let mut msg2 = msg1.clone();
    msg2.exec_ts = 5;

    manager.save_message(msg1).unwrap();
    match manager.save_message(msg2) {
        Err(Failure::TimeViolation) => (),
        _ => panic!(),
    }
}

#[test]
fn rollback_manager_free_removes_correct_sent_messages() {
    let self_id = 1;
    let other_id = 2;
    let mut manager = RollbackManager::new(self_id, 123);
    let mut msg1 = get_message();
    msg1.from = self_id;
    msg1.to = other_id;
    msg1.sent_ts = 10;
    msg1.exec_ts = 300;

    let mut msg2 = msg1.clone();
    msg2.sent_ts = 20;
    msg2.exec_ts = 200;

    let mut msg3 = msg1.clone();
    msg3.sent_ts = 30;
    msg3.exec_ts = 100;

    manager.save_message(msg1).unwrap();
    manager.save_message(msg2).unwrap();
    manager.save_message(msg3).unwrap();

    let mut clone = manager.clone();

    manager.free(20);
    assert_ne!(manager, clone);
    clone.sent_messages.remove(0);
    clone.sent_messages.remove(0);
    clone.checkpoints.remove(0);
    assert_eq!(manager, clone);
}

#[test]
fn rollback_manager_free_removes_correct_received_messages() {
    let self_id = 1;
    let other_id = 2;
    let mut manager = RollbackManager::new(self_id, 123);
    let mut msg1 = get_message();
    msg1.from = other_id;
    msg1.to = self_id;
    msg1.sent_ts = 30;
    msg1.exec_ts = 100;

    let mut msg2 = msg1.clone();
    msg2.sent_ts = 20;
    msg2.exec_ts = 200;

    let mut msg3 = msg1.clone();
    msg3.sent_ts = 10;
    msg3.exec_ts = 300;

    manager.save_message(msg1).unwrap();
    manager.save_message(msg2).unwrap();
    manager.save_message(msg3).unwrap();

    let mut clone = manager.clone();

    manager.free(20);
    assert_ne!(manager, clone);
    // Every received message executes after 20; only the genesis
    // checkpoint is collected.
    clone.checkpoints.remove(0);
    assert_eq!(manager, clone);
}

#[test]
fn rollback_manager_free_removes_correct_checkpoints() {
    let mut manager = RollbackManager::new(1, 123);
    manager.update(11, 10).unwrap();
    manager.take_checkpoint();
    manager.update(22, 20).unwrap();
    manager.take_checkpoint();
    manager.update(33, 30).unwrap();
    manager.take_checkpoint();

    println!("manager before {:#?}", manager);

    let mut clone = manager.clone();
    manager.free(21);

    println!("manager after {:#?}", manager);
    assert_ne!(manager, clone);
    clone.checkpoints.remove(0);
    clone.checkpoints.remove(0);
    clone.checkpoints.remove(0);
    assert_eq!(manager, clone);
}

/// The checkpoints are insufficient when there is no checkpoint whose
/// timestamp is less than or equal to the timestamp of the rollback.
#[test]
fn rollback_manager_rollback_returns_insufficientcheckpoints_if_checkpoints_are_insufficient() {
    let mut manager = get_manager();
    manager.lvt = 10;
    manager.checkpoints.clear();
    let clone = manager.clone();
    match manager.rollback(5) {
        Err(Failure::InsufficientCheckpoints) => (),
        _ => panic!(),
    };
    assert_eq!(manager, clone);
}

#[test]
fn rollback_manager_rollback_retuns_timeviolation_if_there_is_an_attempt_to_rollback_the_future() {
    let mut manager = get_manager();
    manager.lvt = 10;
    manager.checkpoints.clear();
    let clone = manager.clone();
    match manager.rollback(20) {
        Err(Failure::TimeViolation) => (),
        _ => panic!(),
    }
    assert_eq!(manager, clone);

    manager.checkpoints.push(Checkpoint { state: 123, timestamp: 5 });
    let clone = manager.clone();
    match manager.rollback(20) {
        Err(Failure::TimeViolation) => (),
        _ => panic!(),
    }
    assert_eq!(manager, clone);
}

/// Tests if the rollback function updates LVT and state correctly,
/// removes correct checkpoints and messages, and returns the messages
/// that must be sent.
#[test]
fn rollback_changes_values_correctly() {
    let self_id = 1;
    let other_id = 2;
    let rec1 = Message {
        payload: String::default(),
        path: String::default(),
        from: other_id,
        to: self_id,
        sent_ts: 1,
        exec_ts: 10,
        id: 123,
        is_anti: false,
    };
    let mut rec2 = rec1.clone();
    rec2.exec_ts = 20;
    let mut rec3 = rec1.clone();
    rec3.exec_ts = 30;

    let sent1 = Message {
        payload: String::default(),
        path: String::default(),
        from: self_id,
        to: other_id,
        sent_ts: 10,
        exec_ts: 1000,
        id: 321,
        is_anti: false,
    };
    let mut sent2 = sent1.clone();
    sent2.sent_ts = 20;
    let mut sent3 = sent1.clone();
    sent3.sent_ts = 30;

    let mut manager = RollbackManager::new(self_id, 123);
    manager.save_message(rec1.clone()).unwrap();
    manager.save_message(rec2.clone()).unwrap();
    manager.save_message(rec3.clone()).unwrap();
    manager.save_message(sent1.clone()).unwrap();
    manager.save_message(sent2.clone()).unwrap();
    manager.save_message(sent3.clone()).unwrap();

    manager.update(222, 9).unwrap();
    manager.take_checkpoint();
    manager.update(999, 19).unwrap();
    manager.take_checkpoint();
    manager.update(777, 49).unwrap();
    manager.take_checkpoint();
    manager.update(888, 200).unwrap();
    manager.take_checkpoint();

    let mut clone: RollbackManager<i32> = manager.clone();

    println!("before rollback {:#?}", manager);

    let result = manager.rollback(20).unwrap();
    assert_ne!(manager, clone);
    clone.lvt = 19;
    clone.state = 999;
    clone.checkpoints.pop();
    clone.checkpoints.pop();
    clone.sent_messages.pop();
    clone.sent_messages.pop();
    clone.received_messages.pop();
    clone.received_messages.pop();
    assert_eq!(manager, clone);

    // The removed received messages come back unchanged and in stored
    // order, followed by the anti twin of each removed sent message.
    let mut anti2 = sent2.clone();
    anti2.is_anti = true;
    let mut anti3 = sent3.clone();
    anti3.is_anti = true;
    let expected = vec![rec2.clone(), rec3.clone(), anti2, anti3];

    println!("result {:#?}", result);
    println!("expected {:#?}", expected);

    assert_eq!(result, expected);
}
