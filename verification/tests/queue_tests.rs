use interval_timer::queue::Queue;

#[test]
fn empty_queue_has_nothing() {
    let mut q: Queue<u32> = Queue::new();
    assert!(q.get().is_none());
    assert!(q.get_mut().is_none());
    assert!(!q.is_last());
    q.next();
    assert!(q.get().is_none());
    q.prev();
    assert!(q.get().is_none());
}

#[test]
fn next_advances_in_order() {
    let mut q: Queue<u32> = Queue::new();
    q.set(vec![10, 20, 30]);
    assert_eq!(q.get(), Some(&10));
    q.next();
    assert_eq!(q.get(), Some(&20));
    q.next();
    assert_eq!(q.get(), Some(&30));
}

#[test]
fn n_steps_return_to_the_start() {
    let mut q: Queue<u32> = Queue::new();
    q.set(vec![1, 2, 3, 4, 5]);
    q.next();
    q.next();
    assert_eq!(q.get(), Some(&3));
    for _ in 0..5 {
        q.next();
    }
    assert_eq!(q.get(), Some(&3));
}

#[test]
fn is_last_only_on_the_last_position() {
    let mut q: Queue<u32> = Queue::new();
    q.set(vec![1, 2]);
    assert!(!q.is_last());
    q.next();
    assert!(q.is_last());
    q.next();
    assert!(!q.is_last());
}

#[test]
fn prev_wraps_backward() {
    let mut q: Queue<u32> = Queue::new();
    q.set(vec![1, 2, 3]);
    q.prev();
    assert_eq!(q.get(), Some(&3));
    q.prev();
    assert_eq!(q.get(), Some(&2));
}

#[test]
fn get_mut_changes_the_current_item() {
    let mut q: Queue<u32> = Queue::new();
    q.set(vec![5, 6]);
    q.next();
    if let Some(v) = q.get_mut() {
        *v = 60;
    }
    assert_eq!(q.get(), Some(&60));
    q.prev();
    assert_eq!(q.get(), Some(&5));
}

#[test]
fn set_replaces_and_rewinds() {
    let mut q: Queue<u32> = Queue::new();
    q.set(vec![1, 2, 3]);
    q.next();
    q.set(vec![4, 5]);
    assert_eq!(q.get(), Some(&4));
}

#[test]
fn single_item_wraps_to_itself() {
    let mut q: Queue<u32> = Queue::new();
    q.set(vec![7]);
    assert!(q.is_last());
    q.next();
    assert_eq!(q.get(), Some(&7));
    assert!(q.is_last());
}
