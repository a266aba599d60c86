//! The records that travel from a producer connection to storage.
use vstd::prelude::*;

verus! {

/// One intercepted API call.
#[derive(Clone, Debug, PartialEq, Eq)]
pub struct VulkanEvent {
    pub timestamp: i64,
    pub frame_number: i64,
    pub function_name: String,
    pub event_type: Option<String>,
    pub memory_delta: Option<i64>,
    pub parameters: Option<String>,
    pub result_code: Option<i64>,
    pub thread_id: Option<String>,
}

/// One allocation lifecycle record; the deallocation fields are empty while
/// the allocation is live.
#[derive(Clone, Debug, PartialEq, Eq)]
pub struct MemoryUsage {
    pub device_memory: Option<i64>,
    pub frame_index_allocated: i64,
    pub allocated_at: i64,
    pub allocation_size: Option<i64>,
    pub frame_index_deallocated: Option<i64>,
    pub deallocated_at: Option<i64>,
}

/// One rendered frame marker; `frame_index` is assigned by the producer and
/// is the table's unique key.
#[derive(Clone, Copy, Debug, PartialEq, Eq)]
pub struct FrameInformation {
    pub frame_index: i64,
    pub started_at: i64,
}

/// A decoded wire message.
#[derive(Clone, Debug, PartialEq, Eq)]
pub enum Packet {
    VulkanEvent(VulkanEvent),
    MemoryUsage(MemoryUsage),
    FrameInformation(FrameInformation),
}

} // verus!
