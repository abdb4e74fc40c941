use ring_buffer::ring_buffers::linked_list_queue::StdLinkedListQueue;
use ring_buffer::ring_buffers::ring_buffer_trait::{BufferState, LocalQueue};
use ring_buffer::ring_buffers::tests::{verify_basic_push_pop, verify_wrap_around};

#[test]
fn linked_list_queue_scenarios() {
    assert!(verify_basic_push_pop(StdLinkedListQueue::<i32>::new()));
    assert!(verify_wrap_around(StdLinkedListQueue::<i32>::new()));
}

#[test]
fn linked_list_queue_is_unbounded() {
    let mut q = StdLinkedListQueue::<usize>::new();
    assert_eq!(q.capacity(), usize::MAX);
    assert!(q.is_empty());
    assert!(!q.is_full());
    for i in 0..1000 {
        assert_eq!(q.push(i), Ok(()));
    }
    assert_eq!(q.len(), 1000);
    for i in 0..1000 {
        assert_eq!(q.pop(), Some(i));
    }
    assert_eq!(q.pop(), None);
}
