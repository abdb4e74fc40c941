pub mod ring_buffer_trait;
pub mod laws;
pub mod circular_index;
pub mod heap_circular_queue;
pub mod stack_circular_queue;
pub mod bip_buffer_queue;
pub mod linked_list_queue;
pub mod ring_counters;
pub mod atomic_counters;
pub mod spsc_ring_buffer;
