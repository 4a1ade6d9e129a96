use timewarp::async_component_data::AsyncComponentData;
use timewarp::models::Message;

#[test]
fn async_component_data_new_creates_and_takes_a_checkpoint() {
    let id = 4;
    let initial_state = String::from("hello");
    let data = AsyncComponentData::new(id, initial_state.clone());

    assert_eq!(data.get_state(), initial_state);
    assert_eq!(data.get_lvt(), 0);
}

#[test]
fn take_checkpoint_works() {}

#[test]
fn async_component_data_save_rollback_and_free() {
    let mut data = AsyncComponentData::new(1, 100);

    let rec = Message {
        sent_ts: 1,
        exec_ts: 10,
        from: 2,
        to: 1,
        payload: String::from("in"),
        path: String::new(),
        id: 5,
        is_anti: false,
    };
    let mut snt = rec.clone();
    snt.from = 1;
    snt.to = 2;
    snt.sent_ts = 12;
    snt.exec_ts = 90;
    data.save_message(rec.clone());
    data.save_message(snt.clone());

    data.update(200, 12);
    data.take_checkpoint();
    assert_eq!(data.get_lvt(), 12);
    assert_eq!(data.get_state(), 200);

    let returned = data.rollback_to(11);
    // The receive at 10 stays; the send at 12 is retracted as an anti twin.
    assert_eq!(returned.len(), 1);
    assert!(returned[0].is_anti);
    assert_eq!(returned[0].sent_ts, 12);
    assert_eq!(data.get_lvt(), 0);
    assert_eq!(data.get_state(), 100);

    data.free_up_to(5);
    assert_eq!(data.get_lvt(), 0);
}
