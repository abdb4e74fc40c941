use ring_buffer::ring_buffers::ring_buffer_trait::{BufferState, Consumer, Producer};
use ring_buffer::ring_buffers::spsc_ring_buffer::create_queue;
use ring_buffer::ring_buffers::tests::{
    verify_producer_consumer_basic_push_pop, verify_producer_consumer_push_full,
    verify_producer_consumer_wrap_around,
};

fn check_producer_consumer_basic_push_pop<P, C>(mut prod: P, mut cons: C)
where
    P: Producer<Item = i32> + BufferState,
    C: Consumer<Item = i32> + BufferState,
{
    assert_eq!(prod.push(10), Ok(()));
    assert_eq!(prod.push(20), Ok(()));
    assert_eq!(prod.len(), 2);
    assert!(!prod.is_empty());

    assert_eq!(cons.pop(), Some(10));
    assert_eq!(cons.pop(), Some(20));
    assert!(cons.is_empty());
}

fn check_producer_consumer_push_full<P, C>(mut prod: P, _cons: C)
where
    P: Producer<Item = String> + BufferState,
    C: Consumer<Item = String> + BufferState,
{
    assert_eq!(prod.push("A".to_string()), Ok(()));
    assert_eq!(prod.push("B".to_string()), Ok(()));
    assert!(prod.is_full());
    assert_eq!(prod.push("C".to_string()), Err("C".to_string()));
    assert_eq!(prod.len(), 2);
}

fn check_producer_consumer_wrap_around<P, C>(mut prod: P, mut cons: C)
where
    P: Producer<Item = i32> + BufferState,
    C: Consumer<Item = i32> + BufferState,
{
    prod.push(1).unwrap();
    prod.push(2).unwrap();

    assert_eq!(cons.pop(), Some(1));
    assert_eq!(cons.pop(), Some(2));

    prod.push(4).unwrap();
    prod.push(5).unwrap();

    assert_eq!(cons.pop(), Some(4));
    assert_eq!(cons.pop(), Some(5));
    assert!(cons.is_empty());
}

#[test]
fn spsc_ring_buffer_basic_push_pop() {
    let (prod, cons) = create_queue::<i32>(16);
    check_producer_consumer_basic_push_pop(prod, cons);
    let (prod, cons) = create_queue::<i32>(16);
    assert!(verify_producer_consumer_basic_push_pop(prod, cons));
}

#[test]
fn spsc_ring_buffer_push_full() {
    let (prod, cons) = create_queue::<String>(2);
    check_producer_consumer_push_full(prod, cons);
    let (prod, cons) = create_queue::<String>(2);
    assert!(verify_producer_consumer_push_full(prod, cons));
}

#[test]
fn spsc_ring_buffer_wrap_around() {
    let (prod, cons) = create_queue::<i32>(2);
    check_producer_consumer_wrap_around(prod, cons);
    let (prod, cons) = create_queue::<i32>(2);
    assert!(verify_producer_consumer_wrap_around(prod, cons));
}

#[test]
fn spsc_ring_buffer_capacity_and_lengths() {
    let (mut prod, mut cons) = create_queue::<u64>(4);
    assert_eq!(prod.capacity(), 4);
    assert_eq!(cons.capacity(), 4);
    assert_eq!(cons.pop(), None);
    assert!(cons.is_empty());
    for i in 0..4u64 {
        assert_eq!(prod.push(i), Ok(()));
        assert_eq!(cons.len(), (i + 1) as usize);
    }
    assert!(prod.is_full());
    assert_eq!(prod.push(99), Err(99));
    assert_eq!(cons.pop(), Some(0));
    assert_eq!(prod.len(), 3);
    assert_eq!(prod.push(4), Ok(()));
    for i in 1..5u64 {
        assert_eq!(cons.pop(), Some(i));
    }
    assert_eq!(cons.pop(), None);
}

#[test]
fn spsc_ring_buffer_batches() {
    let (mut prod, mut cons) = create_queue::<usize>(8);
    let mut first: Vec<usize> = (0..5).collect();
    assert_eq!(prod.push_batch(&mut first), 5);
    assert!(first.is_empty());
    let mut second: Vec<usize> = (5..12).collect();
    assert_eq!(prod.push_batch(&mut second), 3);
    assert_eq!(second, vec![8, 9, 10, 11]);
    let mut refused = vec![100];
    assert_eq!(prod.push_batch(&mut refused), 0);
    assert_eq!(refused, vec![100]);
    assert_eq!(cons.pop_batch(3), vec![0, 1, 2]);
    assert_eq!(cons.pop_batch(0), Vec::<usize>::new());
    assert_eq!(prod.push_batch(&mut second), 3);
    assert_eq!(second, vec![11]);
    assert_eq!(cons.pop_batch(100), vec![3, 4, 5, 6, 7, 8, 9, 10]);
    assert_eq!(cons.pop_batch(4), Vec::<usize>::new());
    assert!(cons.is_empty());
    let mut empty: Vec<usize> = Vec::new();
    assert_eq!(prod.push_batch(&mut empty), 0);
}

#[test]
fn spsc_ring_buffer_many_turns_keep_order() {
    let (mut prod, mut cons) = create_queue::<u32>(4);
    let mut next_in = 0u32;
    let mut next_out = 0u32;
    for round in 0..40u32 {
        for _ in 0..(round % 3 + 1) {
            if prod.push(next_in).is_ok() {
                next_in += 1;
            }
        }
        for _ in 0..(round % 2 + 1) {
            if let Some(v) = cons.pop() {
                assert_eq!(v, next_out);
                next_out += 1;
            }
        }
        assert_eq!(prod.len() as u32, next_in - next_out);
    }
}
