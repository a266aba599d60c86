//! The storage schema and the insert statement that each packet becomes.
use vstd::prelude::*;
use crate::model::{FrameInformation, MemoryUsage, Packet, VulkanEvent};

verus! {

/// The schema script run once, on an empty store, before ingestion starts.
pub const DATABASE_SCHEMA: &'static str = "
CREATE TABLE IF NOT EXISTS vulkan_events (
    id INTEGER PRIMARY KEY AUTOINCREMENT,
    timestamp TIMESTAMP NOT NULL,
    frame_number INTEGER NOT NULL,
    function_name TEXT NOT NULL,
    event_type TEXT,
    memory_delta BIGINT,
    parameters TEXT,
    result_code INTEGER,
    thread_id TEXT
);
CREATE TABLE IF NOT EXISTS frame_information (
    frame_index INTEGER PRIMARY KEY,
    started_at TIMESTAMP NOT NULL
);
CREATE TABLE IF NOT EXISTS memory_usage (
    id INTEGER PRIMARY KEY AUTOINCREMENT,
    device_memory BIGINT,
    frame_index_allocated INTEGER NOT NULL,
    allocated_at TIMESTAMP NOT NULL,
    allocation_size BIGINT,
    frame_index_deallocated INTEGER,
    deallocated_at TIMESTAMP
);
";

pub const INSERT_VULKAN_EVENT: &'static str =
    "INSERT INTO vulkan_events (timestamp, frame_number, function_name, event_type, memory_delta, parameters, result_code, thread_id) VALUES (?1, ?2, ?3, ?4, ?5, ?6, ?7, ?8)";

pub const INSERT_MEMORY_USAGE: &'static str =
    "INSERT INTO memory_usage (device_memory, frame_index_allocated, allocated_at, allocation_size, frame_index_deallocated, deallocated_at) VALUES (?1, ?2, ?3, ?4, ?5, ?6)";

/// A plain `INSERT`: a second row with a `frame_index` already stored breaks
/// the primary key and fails the statement instead of replacing the row.
pub const INSERT_FRAME_INFORMATION: &'static str =
    "INSERT INTO frame_information (frame_index, started_at) VALUES (?1, ?2)";

/// Reads at most `?1` frame rows, in storage order.
pub const SELECT_FRAMES: &'static str =
    "SELECT frame_index, started_at FROM frame_information LIMIT ?1";

/// The three tables that packets are written to.
#[derive(Clone, Copy, Debug, PartialEq, Eq)]
pub enum Table {
    VulkanEvents,
    MemoryUsage,
    FrameInformation,
}

impl Table {
    /// The insert statement of this table, with one placeholder per column.
    pub fn insert_sql(self) -> (r: &'static str)
        ensures
            self == Table::VulkanEvents ==> r == INSERT_VULKAN_EVENT,
            self == Table::MemoryUsage ==> r == INSERT_MEMORY_USAGE,
            self == Table::FrameInformation ==> r == INSERT_FRAME_INFORMATION,
    {
        match self {
            Table::VulkanEvents => INSERT_VULKAN_EVENT,
            Table::MemoryUsage => INSERT_MEMORY_USAGE,
            Table::FrameInformation => INSERT_FRAME_INFORMATION,
        }
    }
}

/// A value bound to one statement placeholder.
#[derive(Clone, Debug, PartialEq, Eq)]
pub enum SqlValue {
    Null,
    Integer(i64),
    Text(String),
}

/// An insert ready to run: the table and the values of its columns, in the
/// table's column order.
#[derive(Clone, Debug, PartialEq, Eq)]
pub struct Statement {
    pub table: Table,
    pub params: Vec<SqlValue>,
}

pub open spec fn table_of(p: Packet) -> Table {
    match p {
        Packet::VulkanEvent(_) => Table::VulkanEvents,
        Packet::MemoryUsage(_) => Table::MemoryUsage,
        Packet::FrameInformation(_) => Table::FrameInformation,
    }
}

pub open spec fn int_or_null(v: Option<i64>) -> SqlValue {
    match v {
        Some(x) => SqlValue::Integer(x),
        None => SqlValue::Null,
    }
}

pub open spec fn text_or_null(v: Option<String>) -> SqlValue {
    match v {
        Some(s) => SqlValue::Text(s),
        None => SqlValue::Null,
    }
}

/// The column values of a packet, in the column order of its table.
pub open spec fn columns_of(p: Packet) -> Seq<SqlValue> {
    match p {
        Packet::VulkanEvent(e) => seq![
            SqlValue::Integer(e.timestamp),
            SqlValue::Integer(e.frame_number),
            SqlValue::Text(e.function_name),
            text_or_null(e.event_type),
            int_or_null(e.memory_delta),
            text_or_null(e.parameters),
            int_or_null(e.result_code),
            text_or_null(e.thread_id),
        ],
        Packet::MemoryUsage(m) => seq![
            int_or_null(m.device_memory),
            SqlValue::Integer(m.frame_index_allocated),
            SqlValue::Integer(m.allocated_at),
            int_or_null(m.allocation_size),
            int_or_null(m.frame_index_deallocated),
            int_or_null(m.deallocated_at),
        ],
        Packet::FrameInformation(f) => seq![
            SqlValue::Integer(f.frame_index),
            SqlValue::Integer(f.started_at),
        ],
    }
}

fn int_value(v: Option<i64>) -> (r: SqlValue)
    ensures
        r == int_or_null(v),
{
    match v {
        Some(x) => SqlValue::Integer(x),
        None => SqlValue::Null,
    }
}

fn text_value(v: &Option<String>) -> (r: SqlValue)
    ensures
        r == text_or_null(*v),
{
    match v {
        Some(s) => SqlValue::Text(s.clone()),
        None => SqlValue::Null,
    }
}

fn vulkan_event_params(e: &VulkanEvent) -> (r: Vec<SqlValue>)
    ensures
        r@ == columns_of(Packet::VulkanEvent(*e)),
{
    let mut r: Vec<SqlValue> = Vec::new();
    r.push(SqlValue::Integer(e.timestamp));
    r.push(SqlValue::Integer(e.frame_number));
    r.push(SqlValue::Text(e.function_name.clone()));
    r.push(text_value(&e.event_type));
    r.push(int_value(e.memory_delta));
    r.push(text_value(&e.parameters));
    r.push(int_value(e.result_code));
    r.push(text_value(&e.thread_id));
    assert(r@ =~= columns_of(Packet::VulkanEvent(*e)));
    r
}

fn memory_usage_params(m: &MemoryUsage) -> (r: Vec<SqlValue>)
    ensures
        r@ == columns_of(Packet::MemoryUsage(*m)),
{
    let mut r: Vec<SqlValue> = Vec::new();
    r.push(int_value(m.device_memory));
    r.push(SqlValue::Integer(m.frame_index_allocated));
    r.push(SqlValue::Integer(m.allocated_at));
    r.push(int_value(m.allocation_size));
    r.push(int_value(m.frame_index_deallocated));
    r.push(int_value(m.deallocated_at));
    assert(r@ =~= columns_of(Packet::MemoryUsage(*m)));
    r
}

fn frame_information_params(f: &FrameInformation) -> (r: Vec<SqlValue>)
    ensures
        r@ == columns_of(Packet::FrameInformation(*f)),
{
    let mut r: Vec<SqlValue> = Vec::new();
    r.push(SqlValue::Integer(f.frame_index));
    r.push(SqlValue::Integer(f.started_at));
    assert(r@ =~= columns_of(Packet::FrameInformation(*f)));
    r
}

/// The insert that stores `p`: the table of its variant and every field of
/// the record, in the table's column order, absent optional fields as NULL.
pub fn insert_statement(p: &Packet) -> (r: Statement)
    ensures
        r.table == table_of(*p),
        r.params@ == columns_of(*p),
{
    match p {
        Packet::VulkanEvent(e) => Statement { table: Table::VulkanEvents, params: vulkan_event_params(e) },
        Packet::MemoryUsage(m) => Statement { table: Table::MemoryUsage, params: memory_usage_params(m) },
        Packet::FrameInformation(f) => Statement {
            table: Table::FrameInformation,
            params: frame_information_params(f),
        },
    }
}

/// The inserts of a whole batch, one per packet, in batch order.
pub fn batch_statements(batch: &Vec<Packet>) -> (r: Vec<Statement>)
    ensures
        r@.len() == batch@.len(),
        forall|i: int|
            0 <= i < batch@.len() ==> (#[trigger] r@[i]).table == table_of(batch@[i])
                && r@[i].params@ == columns_of(batch@[i]),
{
    let mut r: Vec<Statement> = Vec::new();
    let mut i: usize = 0;
    while i < batch.len()
        invariant
            i <= batch@.len(),
            r@.len() == i,
            forall|j: int|
                0 <= j < i ==> (#[trigger] r@[j]).table == table_of(batch@[j])
                    && r@[j].params@ == columns_of(batch@[j]),
        decreases batch@.len() - i,
    {
        r.push(insert_statement(&batch[i]));
        i = i + 1;
    }
    r
}

/// The parameters of the bounded frame read: the row limit.
pub fn select_frames_params(limit: u32) -> (r: Vec<SqlValue>)
    ensures
        r@ == seq![SqlValue::Integer(limit as i64)],
{
    let mut r: Vec<SqlValue> = Vec::new();
    r.push(SqlValue::Integer(limit as i64));
    assert(r@ =~= seq![SqlValue::Integer(limit as i64)]);
    r
}

} // verus!
