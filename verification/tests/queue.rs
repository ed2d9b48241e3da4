use twitch_highlights::queue::Queue;

#[test]
fn queue_hands_out_the_first_value_first() {
    let mut q = Queue::from(vec!["JOIN #a".to_string(), "JOIN #b".to_string()]);
    assert_eq!(2, q.size());
    q.enqueue("JOIN #c".to_string());
    assert_eq!(3, q.size());
    assert_eq!(Some("JOIN #a".to_string()), q.dequeue());
    assert_eq!(Some("JOIN #b".to_string()), q.dequeue());
    assert_eq!(Some("JOIN #c".to_string()), q.dequeue());
    assert!(q.is_empty());
    assert_eq!(None, q.dequeue());
    assert_eq!(0, q.size());
}

#[test]
fn dequeue_after_enqueue() {
    let mut q: Queue<u32> = Queue::new();
    assert!(q.is_empty());
    q.enqueue(1);
    q.enqueue(2);
    q.enqueue(7);
    assert_eq!(Some(1), q.dequeue());
    assert_eq!(2, q.size());
    assert!(!q.is_empty());

    let mut empty: Queue<u32> = Queue::new();
    empty.enqueue(5);
    assert_eq!(Some(5), empty.dequeue());
    assert!(empty.is_empty());
}

#[test]
fn values_come_out_in_the_order_they_went_in() {
    let mut q: Queue<u32> = Queue::new();
    for x in 1..=5 {
        q.enqueue(x);
    }
    for x in 1..=5 {
        assert_eq!(5 - x + 1, q.size() as u32);
        assert_eq!(Some(x), q.dequeue());
    }
    assert_eq!(None, q.dequeue());
    assert!(q.is_empty());
}
