use ring_buffer::ring_buffers::bip_buffer_queue::BipBufferQueue;
use ring_buffer::ring_buffers::heap_circular_queue::FixedSizeHeapCircularQueue;
use ring_buffer::ring_buffers::laws::{run_calls, QueueAnswer, QueueOp};
use ring_buffer::ring_buffers::ring_buffer_trait::BufferState;
use ring_buffer::ring_buffers::stack_circular_queue::FixedSizeStackCircularQueue;

fn calls() -> Vec<QueueOp<u32>> {
    let mut ops = Vec::new();
    for round in 0..60u32 {
        if (round * 5) % 7 < 4 {
            ops.push(QueueOp::Push(round));
        } else {
            ops.push(QueueOp::Pop);
        }
    }
    ops
}

#[test]
fn laws_runs_answer_alike_and_count() {
    let mut bip = BipBufferQueue::<u32>::new(3);
    let mut heap = FixedSizeHeapCircularQueue::<u32>::new(3);
    let mut stack = FixedSizeStackCircularQueue::<u32, 3>::new();
    let from_bip = run_calls(&mut bip, calls());
    let from_heap = run_calls(&mut heap, calls());
    let from_stack = run_calls(&mut stack, calls());
    assert_eq!(from_bip.len(), 60);
    assert_eq!(from_bip, from_heap);
    assert_eq!(from_heap, from_stack);
    let accepted = from_bip
        .iter()
        .filter(|a| matches!(a, QueueAnswer::Pushed(Ok(()))))
        .count();
    let served = from_bip
        .iter()
        .filter(|a| matches!(a, QueueAnswer::Popped(Some(_))))
        .count();
    assert_eq!(bip.len(), accepted - served);
    assert_eq!(heap.len(), accepted - served);
    assert_eq!(stack.len(), accepted - served);
    assert!(bip.len() <= bip.capacity());
    assert_eq!(bip.capacity(), 3);
}

#[test]
fn laws_run_small() {
    let mut q = FixedSizeHeapCircularQueue::<u32>::new(1);
    let answers = run_calls(
        &mut q,
        vec![QueueOp::Pop, QueueOp::Push(1), QueueOp::Push(2), QueueOp::Pop, QueueOp::Pop],
    );
    assert_eq!(
        answers,
        vec![
            QueueAnswer::Popped(None),
            QueueAnswer::Pushed(Ok(())),
            QueueAnswer::Pushed(Err(2)),
            QueueAnswer::Popped(Some(1)),
            QueueAnswer::Popped(None),
        ]
    );
    assert!(q.is_empty());
}
