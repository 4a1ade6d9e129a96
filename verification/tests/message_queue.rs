use rand::Rng;
use timewarp::message_queue::MessageQueue;
use timewarp::models::Message;

fn get_msg() -> Message {
    Message {
        exec_ts: 10,
        payload: String::default(),
        path: String::default(),
        from: 1,
        to: 2,
        id: 123,
        is_anti: false,
        sent_ts: 1,
    }
}

/// Tests if messages are pushed correctly and if they annihilate each
/// other when they are inverse.
#[test]
fn push_works_correctly() {
    let mut q = MessageQueue::new();
    let mut x = get_msg();
    x.sent_ts = 5;
    let mut y = get_msg();
    y.exec_ts = 10;
    let mut z = get_msg();
    z.exec_ts = 15;
    let antix = x.get_anti().unwrap();

    q.push(x.clone());
    q.push(z.clone());
    q.push(y.clone());
    assert_eq!(q.to_vec(), vec![z.clone(), y.clone(), x.clone()]);
    q.push(antix.clone());
    assert_eq!(q.to_vec(), vec![z.clone(), y.clone()]);

    let mut q = MessageQueue::new();
    q.push(antix.clone());
    q.push(z.clone());
    q.push(y.clone());
    assert_eq!(q.to_vec(), vec![z.clone(), y.clone(), antix.clone()]);
    q.push(x.clone());
    assert_eq!(q.to_vec(), vec![z.clone(), y.clone()]);
}

#[test]
fn push_maintains_correct_order() {
    let mut q = MessageQueue::new();
    let mut m = get_msg();

    let mut rng = rand::thread_rng();
    let mut aux: Vec<Message> = Vec::new();
    for _ in 0..100 {
        m.exec_ts = rng.gen();
        q.push(m.clone());
        aux.push(m.clone());
        aux.sort_by(|a, b| b.exec_ts.cmp(&a.exec_ts));
        assert_eq!(q.to_vec(), aux);
    }
}
