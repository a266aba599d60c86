use rusqlite::types::Value;
use rusqlite::Connection;
use vmi_pipeline::model::{FrameInformation, Packet, VulkanEvent};
use vmi_pipeline::query::FrameRead;
use vmi_pipeline::sql::{batch_statements, select_frames_params, SqlValue, DATABASE_SCHEMA, SELECT_FRAMES};
use vmi_pipeline::writer::{BatchWrite, WriteStep};

fn to_value(v: &SqlValue) -> Value {
    match v {
        SqlValue::Null => Value::Null,
        SqlValue::Integer(i) => Value::Integer(*i),
        SqlValue::Text(s) => Value::Text(s.clone()),
    }
}

fn store() -> Connection {
    let conn = Connection::open_in_memory().unwrap();
    conn.execute_batch(DATABASE_SCHEMA).unwrap();
    conn
}

/// Runs a batch as the writer decides; true when it was committed.
fn write(conn: &mut Connection, batch: &Vec<Packet>) -> bool {
    let statements = batch_statements(batch);
    let tx = conn.transaction().unwrap();
    let mut w = BatchWrite::new(statements.len());
    loop {
        match w.next() {
            WriteStep::Execute(i) => {
                let s = &statements[i];
                let params: Vec<Value> = s.params.iter().map(to_value).collect();
                let r = tx.execute(s.table.insert_sql(), rusqlite::params_from_iter(params));
                w.record(r.is_ok());
            }
            WriteStep::Commit => {
                tx.commit().unwrap();
                return true;
            }
            WriteStep::Rollback => {
                tx.rollback().unwrap();
                return false;
            }
        }
    }
}

fn count(conn: &Connection, table: &str) -> i64 {
    conn.query_row(&format!("SELECT COUNT(*) FROM {table}"), [], |r| r.get(0)).unwrap()
}

fn frame(i: i64, at: i64) -> Packet {
    Packet::FrameInformation(FrameInformation { frame_index: i, started_at: at })
}

fn call(n: i64) -> Packet {
    Packet::VulkanEvent(VulkanEvent {
        timestamp: n,
        frame_number: 1,
        function_name: format!("vkCall{n}"),
        event_type: None,
        memory_delta: Some(-64),
        parameters: None,
        result_code: None,
        thread_id: Some("main".to_string()),
    })
}

fn read_frames(conn: &Connection, size: u32) -> Vec<FrameInformation> {
    let mut stmt = conn.prepare(SELECT_FRAMES).unwrap();
    let params: Vec<Value> = select_frames_params(size).iter().map(to_value).collect();
    let mut rows = stmt.query(rusqlite::params_from_iter(params)).unwrap();
    let mut read = FrameRead::new(size as usize);
    while read.wants_more() {
        match rows.next().unwrap() {
            Some(row) => read.push(FrameInformation { frame_index: row.get(0).unwrap(), started_at: row.get(1).unwrap() }),
            None => break,
        }
    }
    read.finish()
}

#[test]
fn schema_runs_twice() {
    let conn = store();
    conn.execute_batch(DATABASE_SCHEMA).unwrap();
    assert_eq!(count(&conn, "vulkan_events"), 0);
    assert_eq!(count(&conn, "memory_usage"), 0);
    assert_eq!(count(&conn, "frame_information"), 0);
}

#[test]
fn batch_with_invalid_row_leaves_nothing() {
    let mut conn = store();
    let mut batch: Vec<Packet> = (0..5).map(call).collect();
    batch.push(frame(1, 10));
    batch.push(frame(1, 20));
    batch.push(call(9));
    assert!(!write(&mut conn, &batch));
    assert_eq!(count(&conn, "vulkan_events"), 0);
    assert_eq!(count(&conn, "frame_information"), 0);
}

#[test]
fn valid_batch_is_stored_in_order() {
    let mut conn = store();
    let batch: Vec<Packet> = (0..3).map(call).collect();
    assert!(write(&mut conn, &batch));
    let mut stmt = conn.prepare("SELECT function_name, memory_delta, thread_id FROM vulkan_events ORDER BY id").unwrap();
    let rows: Vec<(String, i64, String)> =
        stmt.query_map([], |r| Ok((r.get(0)?, r.get(1)?, r.get(2)?))).unwrap().map(|r| r.unwrap()).collect();
    assert_eq!(
        rows,
        vec![
            ("vkCall0".to_string(), -64, "main".to_string()),
            ("vkCall1".to_string(), -64, "main".to_string()),
            ("vkCall2".to_string(), -64, "main".to_string())
        ]
    );
}

#[test]
fn duplicate_frame_index_keeps_first_record() {
    let mut conn = store();
    assert!(write(&mut conn, &vec![frame(4, 100)]));
    assert!(!write(&mut conn, &vec![frame(4, 200)]));
    assert!(write(&mut conn, &vec![frame(5, 300)]));
    assert_eq!(read_frames(&conn, 10), vec![
        FrameInformation { frame_index: 4, started_at: 100 },
        FrameInformation { frame_index: 5, started_at: 300 },
    ]);
}

#[test]
fn get_two_of_five_frames() {
    let mut conn = store();
    let batch: Vec<Packet> = (0..5).map(|i| frame(i, 1000 + i)).collect();
    assert!(write(&mut conn, &batch));
    let rows = read_frames(&conn, 2);
    assert_eq!(rows.len(), 2);
    assert_eq!(rows[0], FrameInformation { frame_index: 0, started_at: 1000 });
    assert_eq!(rows[1], FrameInformation { frame_index: 1, started_at: 1001 });
    assert_eq!(read_frames(&conn, 0).len(), 0);
    assert_eq!(read_frames(&conn, 9).len(), 5);
}
