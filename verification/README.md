# ring_buffer

Bounded FIFO queues with verified contracts:

- `FixedSizeHeapCircularQueue` and `FixedSizeStackCircularQueue`: circular
  queues over heap slots and over an inline array;
- `BipBufferQueue`: a bip buffer whose oldest items can be read as one slice;
- `StdLinkedListQueue`: a queue kept in a standard-library deque;
- `create_queue`: a single-producer single-consumer ring split into a
  `RingBufferProducer` and a `RingBufferConsumer`, which may run on two threads.

`src/` is the library, verified with Verus: every local queue refines one
model of a bounded FIFO (`ring_buffer_trait.rs`), whose laws, over single
calls and over runs of calls, are proved in `laws.rs`. For the shared ring,
`ring_counters.rs` proves the counter and slot arithmetic that each handle
applies to the counter it read from the other thread (each handle notes that
read as a ghost, and its contracts speak of it), and proves of the
counter values that the slot a producer writes next is none of the slots of
unread items. What the ring's slots hold is not part of any contract: the two
handles share no specified state. `app/` holds the benchmarks and the threaded
stress run.
