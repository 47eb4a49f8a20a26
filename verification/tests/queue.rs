use queues::queue::{Queue, QueueNode};

#[test]
fn queue_starts_empty() {
    let q: Queue<i32> = Queue::new();
    assert_eq!(q.len(), 0);
    assert!(q.is_empty());
}

#[test]
fn queue_fifo_order() {
    let mut q: Queue<i32> = Queue::new();
    q.push(1);
    q.push(2);
    q.push(3);
    assert_eq!(q.pop(), Some(1));
    assert_eq!(q.pop(), Some(2));
    assert_eq!(q.pop(), Some(3));
    assert_eq!(q.pop(), None);
}

#[test]
fn queue_pop_on_empty_is_none() {
    let mut q: Queue<u8> = Queue::new();
    assert_eq!(q.pop(), None);
    assert!(q.peek().is_none());
    q.push(9);
    assert_eq!(q.pop(), Some(9));
    assert_eq!(q.pop(), None);
    assert!(q.is_empty());
}

#[test]
fn queue_len_counts_pushes_minus_pops() {
    let mut q: Queue<i32> = Queue::new();
    assert_eq!(q.len(), 0);
    q.push(10);
    q.push(20);
    assert_eq!(q.len(), 2);
    assert!(!q.is_empty());
    assert_eq!(q.pop(), Some(10));
    assert_eq!(q.len(), 1);
    let _ = q.pop();
    assert_eq!(q.len(), 0);
    assert!(q.is_empty());
    // an unsuccessful pop does not change the count
    assert_eq!(q.pop(), None);
    assert_eq!(q.len(), 0);
}

#[test]
fn queue_peek_reads_without_removing() {
    let mut q: Queue<i32> = Queue::new();
    q.push(5);
    q.push(6);
    assert_eq!(q.peek(), Some(&5));
    assert_eq!(q.peek(), Some(&5));
    assert_eq!(q.len(), 2);
    q.push(7);
    assert_eq!(q.peek(), Some(&5));
    assert_eq!(q.pop(), Some(5));
    assert_eq!(q.peek(), Some(&6));
}

#[test]
fn queue_round_trip_ends_empty() {
    let mut q: Queue<usize> = Queue::new();
    let n: usize = 8;
    for v in 0..n {
        q.push(v);
    }
    assert_eq!(q.len(), n);
    for v in 0..n {
        assert_eq!(q.pop(), Some(v));
    }
    assert!(q.is_empty());
    assert_eq!(q.len(), 0);
    assert_eq!(q.pop(), None);
}

#[test]
fn queue_interleaved_pushes_and_pops() {
    let mut q: Queue<i32> = Queue::new();
    q.push(1);
    q.push(2);
    assert_eq!(q.pop(), Some(1));
    q.push(3);
    q.push(4);
    assert_eq!(q.pop(), Some(2));
    assert_eq!(q.pop(), Some(3));
    q.push(5);
    assert_eq!(q.pop(), Some(4));
    assert_eq!(q.pop(), Some(5));
    assert_eq!(q.pop(), None);
}

#[test]
fn queue_holds_unclonable_values() {
    let mut q: Queue<String> = Queue::new();
    q.push(String::from("first"));
    q.push(String::from("second"));
    assert_eq!(q.peek(), Some(&String::from("first")));
    assert_eq!(q.pop(), Some(String::from("first")));
    assert_eq!(q.pop(), Some(String::from("second")));
    assert_eq!(q.pop(), None);
}

#[test]
fn queue_node_construction() {
    let _node: QueueNode<i32> = QueueNode::new(42);
    let _other: QueueNode<String> = QueueNode::new(String::from("x"));
}

#[test]
fn queue_reuses_slots_under_churn() {
    let mut q: Queue<usize> = Queue::new();
    let mut expected_front: usize = 0;
    let mut next_value: usize = 0;
    for round in 0..50 {
        q.push(next_value);
        next_value += 1;
        if round % 3 != 0 {
            assert_eq!(q.pop(), Some(expected_front));
            expected_front += 1;
        }
    }
    while let Some(v) = q.pop() {
        assert_eq!(v, expected_front);
        expected_front += 1;
    }
    assert_eq!(expected_front, next_value);
    assert!(q.is_empty());
}
