use tsticker::queue::{Popped, PushError, WorkQueue};

#[test]
fn queue_is_first_in_first_out() {
    let mut q: WorkQueue<u32> = WorkQueue::new(3);
    assert!(q.push(1).is_ok());
    assert!(q.push(2).is_ok());
    assert!(q.push(3).is_ok());
    assert!(matches!(q.pop(), Popped::Item(1)));
    assert!(matches!(q.pop(), Popped::Item(2)));
    assert!(matches!(q.pop(), Popped::Item(3)));
    assert!(matches!(q.pop(), Popped::Empty));
}

#[test]
fn push_on_full_queue_gives_the_item_back() {
    let mut q: WorkQueue<&str> = WorkQueue::new(2);
    assert!(q.push("a").is_ok());
    assert!(q.push("b").is_ok());
    assert!(q.is_full());
    assert!(matches!(q.push("c"), Err(PushError::Full("c"))));
    assert_eq!(q.len(), 2);
    assert!(matches!(q.pop(), Popped::Item("a")));
    assert!(!q.is_full());
    assert!(q.push("c").is_ok());
    assert_eq!(q.len(), 2);
}

#[test]
fn depth_never_passes_capacity() {
    let mut q: WorkQueue<usize> = WorkQueue::new(4);
    for i in 0..100 {
        let _ = q.push(i);
        assert!(q.len() <= q.capacity());
        if i % 3 == 0 {
            let _ = q.pop();
        }
        assert!(q.len() <= 4);
    }
}

#[test]
fn closed_queue_drains_then_ends() {
    let mut q: WorkQueue<u8> = WorkQueue::new(2);
    assert!(q.push(7).is_ok());
    assert!(!q.is_closed());
    q.close();
    assert!(q.is_closed());
    assert!(matches!(q.push(8), Err(PushError::Closed(8))));
    assert!(matches!(q.pop(), Popped::Item(7)));
    assert!(matches!(q.pop(), Popped::EndOfStream));
    assert!(matches!(q.pop(), Popped::EndOfStream));
}

#[test]
fn open_empty_queue_asks_to_wait() {
    let mut q: WorkQueue<u8> = WorkQueue::new(1);
    assert!(q.is_empty());
    assert!(matches!(q.pop(), Popped::Empty));
}

#[test]
fn queue_without_room_is_always_full() {
    let mut q: WorkQueue<u8> = WorkQueue::new(0);
    assert!(q.is_full());
    assert!(matches!(q.push(1), Err(PushError::Full(1))));
    assert_eq!(q.len(), 0);
}
