use timewarp::dependency_vector::DependencyVector;
use timewarp::models::{ComponentId, Timestamp};

#[test]
fn new_creates_correct_dependency_vector() {
    let self_id = 1;
    let components = vec![1, 2, 3];
    let manager = DependencyVector::new(self_id, components);
    let entries: Vec<(ComponentId, Timestamp)> = vec![(1, 0), (2, 0), (3, 0)];
    assert_eq!(manager, DependencyVector { id: 1, entries });
}

#[test]
fn setselfts_returns_err_if_new_ts_is_lower_than_current_ts() {
    let mut manager = DependencyVector::new(1, vec![1, 2]);
    manager.set_self_ts(10).unwrap();
    match manager.set_self_ts(5) {
        Err(()) => (),
        Ok(()) => panic!(),
    }
}

#[test]
fn setselfts_updates_self_ts_correctly() {
    let mut manager = DependencyVector::new(1, vec![1, 2]);
    let mut clone = manager.clone();
    manager.set_self_ts(10).unwrap();
    assert_ne!(manager, clone);
    clone.entries[0] = (1, 10);
    assert_eq!(manager, clone);
}

/// Consider that:
///     the local vector belongs to the component with the local id;
///     the received vector arrived with a message.
///
/// The rollback dependency is inconsistent when the received vector claims
/// a newer virtual time for the local component than the component itself.
#[test]
fn update_returns_err_if_rollback_dependency_is_inconsistent() {
    let mut manager = DependencyVector::new(1, vec![1, 2]);
    let map: Vec<(ComponentId, Timestamp)> = vec![(1, 10), (2, 0)];
    match manager.update(&map) {
        Err(()) => (),
        Ok(()) => panic!(),
    }
}

#[test]
fn update_changes_values_correctly() {
    let mut manager = DependencyVector::new(1, vec![1, 2, 3]);
    manager.set_self_ts(10).unwrap();
    let map: Vec<(ComponentId, Timestamp)> = vec![(1, 0), (2, 10), (3, 20)];
    manager.update(&map).unwrap();
    let expected: Vec<(ComponentId, Timestamp)> = vec![(1, 10), (2, 10), (3, 20)];
    assert_eq!(*manager.get_map(), expected);
    assert_eq!(manager.id, 1);

    let map: Vec<(ComponentId, Timestamp)> = vec![(1, 8), (2, 15), (3, 16)];
    manager.update(&map).unwrap();
    let expected: Vec<(ComponentId, Timestamp)> = vec![(1, 10), (2, 15), (3, 20)];

    println!("manager.map -> {:#?}", manager.get_map());
    println!("map -> {:#?}", expected);

    assert_eq!(*manager.get_map(), expected);
    assert_eq!(manager.id, 1);
}
