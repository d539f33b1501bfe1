use crossbeam_channel::Sender;
use std::rc::Rc;
use test_server::requests::{capture_queue, ShareRequest};
use test_server::text::TextMap;
use test_server::{Request, RequestReceiver};

fn request_with_body(body: &[u8]) -> Request {
    Request {
        body: body.to_vec(),
        headers: TextMap::new(),
        method: String::new(),
        path: String::new(),
        query: TextMap::new(),
        sequence: 0,
    }
}

fn add_request(tx: Sender<Request>) {
    if let Err(err) = tx.send(request_with_body(b"")) {
        println!("Failed to send Request: {}", err);
    }
}

#[test]
fn request_receiver_is_empty() {
    let (tx, rx) = crossbeam_channel::unbounded();
    let mut rr = RequestReceiver::new(Rc::new(rx));

    assert!(rr.is_empty());

    add_request(tx);

    assert!(!rr.is_empty());
}

#[test]
fn request_reciever_len() {
    let (tx, rx) = crossbeam_channel::unbounded();
    let mut rr = RequestReceiver::new(Rc::new(rx));

    assert_eq!(rr.len(), 0);

    add_request(tx);

    assert_eq!(rr.len(), 1);
}

#[test]
fn request_reciever_next() {
    let (tx, rx) = crossbeam_channel::unbounded();
    let mut rr = RequestReceiver::new(Rc::new(rx));

    assert!(rr.next().is_none());

    add_request(tx);

    assert!(rr.next().is_some());
}

#[test]
fn requests_come_out_in_the_order_in_which_they_arrived() {
    let (tx, rx) = crossbeam_channel::unbounded();
    let mut rr = RequestReceiver::new(Rc::new(rx));
    let share = ShareRequest::new(tx);

    for body in [&b"first"[..], &b"second"[..], &b"third"[..], &b"fourth"[..]] {
        share.tx.send(request_with_body(body)).unwrap();
    }

    let mut bodies = Vec::new();
    let mut sequences = Vec::new();
    for _ in 0..4 {
        let request = rr.next().unwrap();
        bodies.push(request.body);
        sequences.push(request.sequence);
    }

    assert_eq!(bodies, vec![b"first".to_vec(), b"second".to_vec(), b"third".to_vec(), b"fourth".to_vec()]);
    assert_eq!(sequences, vec![0, 1, 2, 3]);
    assert!(rr.next().is_none());
}

#[test]
fn sequence_numbers_go_on_after_claims() {
    let (tx, rx) = crossbeam_channel::unbounded();
    let mut rr = RequestReceiver::new(Rc::new(rx));
    let share = ShareRequest::new(tx);

    share.tx.send(request_with_body(b"a")).unwrap();
    assert_eq!(rr.next().unwrap().sequence, 0);

    share.tx.send(request_with_body(b"b")).unwrap();
    share.tx.send(request_with_body(b"c")).unwrap();
    assert_eq!(rr.next().unwrap().sequence, 1);
    assert_eq!(rr.next().unwrap().sequence, 2);
}

#[test]
fn the_queue_counts_what_is_unclaimed() {
    let (tx, rx) = crossbeam_channel::unbounded();
    let mut rr = RequestReceiver::new(Rc::new(rx));
    let share = ShareRequest::new(tx);

    assert!(rr.is_empty());
    assert_eq!(rr.len(), 0);

    for _ in 0..5 {
        share.tx.send(request_with_body(b"x")).unwrap();
    }
    assert_eq!(rr.len(), 5);
    assert!(!rr.is_empty());

    for left in (0..5).rev() {
        assert!(rr.next().is_some());
        assert_eq!(rr.len(), left);
    }

    assert!(rr.is_empty());
    assert!(rr.next().is_none());
    assert!(rr.next().is_none());
    assert_eq!(rr.len(), 0);
}

#[test]
fn a_capture_queue_starts_empty_and_carries_requests() {
    let (share, mut requests) = capture_queue();

    assert!(requests.is_empty());

    share.tx.send(request_with_body(b"through")).unwrap();

    assert_eq!(requests.len(), 1);
    assert_eq!(requests.next().unwrap().body, b"through".to_vec());
}

#[test]
fn accept_numbers_what_it_takes_in() {
    let (_tx, rx) = crossbeam_channel::unbounded::<Request>();
    let mut rr = RequestReceiver::new(Rc::new(rx));

    let mut late = request_with_body(b"late");
    late.sequence = 77;
    assert!(rr.accept(request_with_body(b"early")));
    assert!(rr.accept(late));

    assert_eq!(rr.unclaimed(), 2);
    let first = rr.claim().unwrap();
    let second = rr.claim().unwrap();
    assert_eq!((first.body, first.sequence), (b"early".to_vec(), 0));
    assert_eq!((second.body, second.sequence), (b"late".to_vec(), 1));
    assert!(rr.claim().is_none());
}

#[test]
fn claim_and_unclaimed_leave_the_channel_alone() {
    let (tx, rx) = crossbeam_channel::unbounded();
    let mut rr = RequestReceiver::new(Rc::new(rx));

    add_request(tx);

    assert_eq!(rr.unclaimed(), 0);
    assert!(rr.claim().is_none());

    rr.poll();

    assert_eq!(rr.unclaimed(), 1);
    assert!(rr.claim().is_some());
}

#[test]
fn the_body_can_be_read_as_text() {
    assert_eq!(request_with_body(b"hello world").body_text(), "hello world");
    assert_eq!(request_with_body("grüße".as_bytes()).body_text(), "grüße");
    assert_eq!(request_with_body(b"").body_text(), "");
    assert_eq!(request_with_body(&[b'a', 0xff, b'b']).body_text(), "a\u{fffd}b");
}

#[test]
fn requests_that_wait_when_the_senders_are_gone_are_still_there() {
    let (tx, rx) = crossbeam_channel::unbounded();
    let share = ShareRequest::new(tx);
    share.tx.send(request_with_body(b"1")).unwrap();
    share.tx.send(request_with_body(b"2")).unwrap();
    drop(share);

    let mut rr = RequestReceiver::new(Rc::new(rx));

    assert_eq!(rr.len(), 2);
    assert_eq!(rr.next().unwrap().body, b"1".to_vec());
    assert_eq!(rr.next().unwrap().body, b"2".to_vec());
    assert!(rr.next().is_none());
}
