use ring_buffer::ring_buffers::stack_circular_queue::FixedSizeStackCircularQueue;
use ring_buffer::ring_buffers::ring_buffer_trait::{BufferState, LocalQueue};
use ring_buffer::ring_buffers::tests::{verify_basic_push_pop, verify_push_full, verify_wrap_around};

fn check_basic_push_pop<Q: LocalQueue<Item = i32> + BufferState>(mut queue: Q) {
    assert_eq!(queue.push(10), Ok(()));
    assert_eq!(queue.push(20), Ok(()));
    assert_eq!(queue.len(), 2);
    assert!(!queue.is_empty());
    assert_eq!(queue.pop(), Some(10));
    assert_eq!(queue.pop(), Some(20));
    assert!(queue.is_empty());
}

fn check_push_full<Q: LocalQueue<Item = String> + BufferState>(mut queue: Q) {
    assert_eq!(queue.push("A".to_string()), Ok(()));
    assert_eq!(queue.push("B".to_string()), Ok(()));
    assert!(queue.is_full());
    assert_eq!(queue.push("C".to_string()), Err("C".to_string()));
    assert_eq!(queue.len(), 2);
}

fn check_wrap_around<Q: LocalQueue<Item = i32> + BufferState>(mut queue: Q) {
    queue.push(1).unwrap();
    queue.push(2).unwrap();
    queue.push(3).unwrap();
    assert_eq!(queue.pop(), Some(1));
    assert_eq!(queue.pop(), Some(2));
    queue.push(4).unwrap();
    queue.push(5).unwrap();
    assert_eq!(queue.pop(), Some(3));
    assert_eq!(queue.pop(), Some(4));
    assert_eq!(queue.pop(), Some(5));
    assert!(queue.is_empty());
}

#[test]
fn stack_circular_queue_basic_push_pop() {
    let queue = FixedSizeStackCircularQueue::<i32, 3>::new();
    check_basic_push_pop(queue);
    assert!(verify_basic_push_pop(FixedSizeStackCircularQueue::<i32, 3>::new()));
}

#[test]
fn stack_circular_queue_push_full() {
    let queue = FixedSizeStackCircularQueue::<String, 2>::new();
    check_push_full(queue);
    assert!(verify_push_full(FixedSizeStackCircularQueue::<String, 2>::new()));
}

#[test]
fn stack_circular_queue_wrap_around() {
    let queue = FixedSizeStackCircularQueue::<i32, 3>::new();
    check_wrap_around(queue);
    assert!(verify_wrap_around(FixedSizeStackCircularQueue::<i32, 3>::new()));
}

#[test]
fn stack_circular_queue_pop_empty_gives_none() {
    let mut queue = FixedSizeStackCircularQueue::<i32, 1>::new();
    assert_eq!(queue.pop(), None);
    assert_eq!(queue.len(), 0);
    assert_eq!(queue.capacity(), 1);
    assert_eq!(queue.push(7), Ok(()));
    assert!(queue.is_full());
    assert_eq!(queue.push(8), Err(8));
    assert_eq!(queue.pop(), Some(7));
    assert_eq!(queue.pop(), None);
}

#[test]
fn stack_circular_queue_many_turns_keep_order() {
    let mut queue = FixedSizeStackCircularQueue::<u32, 4>::new();
    let mut next_in = 0u32;
    let mut next_out = 0u32;
    for round in 0..50u32 {
        let pushes = round % 4 + 1;
        for _ in 0..pushes {
            if queue.push(next_in).is_ok() {
                next_in += 1;
            }
        }
        let pops = (round * 7) % 5;
        for _ in 0..pops {
            match queue.pop() {
                Some(v) => {
                    assert_eq!(v, next_out);
                    next_out += 1;
                }
                None => assert!(queue.is_empty()),
            }
        }
        assert_eq!(queue.len() as u32, next_in - next_out);
        assert!(queue.len() <= queue.capacity());
    }
}

#[test]
fn stack_circular_queue_ends_commute() {
    let mut a = FixedSizeStackCircularQueue::<i32, 3>::new();
    let mut b = FixedSizeStackCircularQueue::<i32, 3>::new();
    assert_eq!(a.push(1), Ok(()));
    assert_eq!(b.push(1), Ok(()));
    assert_eq!(a.push(2), Ok(()));
    let from_a = a.pop();
    let from_b = b.pop();
    assert_eq!(b.push(2), Ok(()));
    assert_eq!(from_a, Some(1));
    assert_eq!(from_a, from_b);
    assert_eq!(a.len(), b.len());
    assert_eq!(a.pop(), Some(2));
    assert_eq!(b.pop(), Some(2));
}
