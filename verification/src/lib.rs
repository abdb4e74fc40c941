//! Bounded FIFO queues: circular queues on the heap and on the stack, a bip
//! buffer, an unbounded deque-backed queue, and a single-producer
//! single-consumer ring buffer shared between two handles.

pub mod ring_buffers;
