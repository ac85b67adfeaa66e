use sentry::queue::ClientQueue;
use sentry::types::{Endpoint, IpAddress};

fn ep(last_octet: u32, port: u16) -> Endpoint {
    Endpoint { ip: IpAddress::V4(0x0a000000 + last_octet), port }
}

#[test]
fn enqueue_broadcasts_true_positions_and_count() {
    let mut q = ClientQueue::new();
    let a = ep(1, 4000);
    let b = ep(2, 4001);

    assert_eq!(q.enqueue(a), 0);
    let a_lines = q.take_outbox(0);
    assert_eq!(a_lines, vec![b"{\"num_clients\":1,\"queue_position\":0}".to_vec()]);

    assert_eq!(q.enqueue(b), 1);
    let a_lines = q.take_outbox(0);
    let b_lines = q.take_outbox(1);
    assert_eq!(a_lines, vec![b"{\"num_clients\":2,\"queue_position\":0}".to_vec()]);
    assert_eq!(b_lines, vec![b"{\"num_clients\":2,\"queue_position\":1}".to_vec()]);
}

#[test]
fn removal_promotes_the_next_client_and_rebroadcasts() {
    let mut q = ClientQueue::new();
    let a = ep(1, 4000);
    let b = ep(2, 4001);
    q.enqueue(a);
    q.enqueue(b);
    q.take_outbox(0);
    q.take_outbox(1);

    q.remove(a);
    assert_eq!(q.len(), 1);
    assert_eq!(q.index_of(b), Some(0));
    assert_eq!(q.index_of(a), None);
    let b_lines = q.take_outbox(0);
    assert_eq!(b_lines, vec![b"{\"num_clients\":1,\"queue_position\":0}".to_vec()]);
}

#[test]
fn removing_an_unknown_address_changes_nothing() {
    let mut q = ClientQueue::new();
    q.enqueue(ep(1, 4000));
    q.remove(ep(9, 9999));
    assert_eq!(q.len(), 1);
    assert_eq!(q.index_of(ep(1, 4000)), Some(0));
}

#[test]
fn send_reaches_only_the_addressed_client() {
    let mut q = ClientQueue::new();
    let a = ep(1, 4000);
    let b = ep(2, 4001);
    q.enqueue(a);
    q.enqueue(b);
    q.take_outbox(0);
    q.take_outbox(1);

    q.send(a, b"hello".to_vec());
    q.send(ep(9, 9), b"lost".to_vec());
    assert_eq!(q.take_outbox(0), vec![b"hello".to_vec()]);
    assert_eq!(q.take_outbox(1), Vec::<Vec<u8>>::new());
}

#[test]
fn send_to_all_reaches_every_client() {
    let mut q = ClientQueue::new();
    q.enqueue(ep(1, 4000));
    q.enqueue(ep(2, 4001));
    q.take_outbox(0);
    q.take_outbox(1);

    q.send_to_all(&b"news".to_vec());
    assert_eq!(q.take_outbox(0), vec![b"news".to_vec()]);
    assert_eq!(q.take_outbox(1), vec![b"news".to_vec()]);
}
