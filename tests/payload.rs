use fbs_writer::payload::{Message, Payload};
use fbs_writer::server::{SendError, Server};
use fbs_writer::writer::{Handle, Writer, WriterError};

fn u16_at(b: &[u8], i: usize) -> u16 {
    u16::from_le_bytes([b[i], b[i + 1]])
}

fn u32_at(b: &[u8], i: usize) -> u32 {
    u32::from_le_bytes([b[i], b[i + 1], b[i + 2], b[i + 3]])
}

fn i32_at(b: &[u8], i: usize) -> i32 {
    i32::from_le_bytes([b[i], b[i + 1], b[i + 2], b[i + 3]])
}

/// Where a table's field lies, by its vtable slot; None when it was left at its default.
fn field_pos(b: &[u8], table: usize, slot: usize) -> Option<usize> {
    let vtable = (table as i64 - i32_at(b, table) as i64) as usize;
    let vtable_len = u16_at(b, vtable) as usize;
    if slot + 2 > vtable_len {
        return None;
    }
    let off = u16_at(b, vtable + slot) as usize;
    if off == 0 {
        None
    } else {
        Some(table + off)
    }
}

/// Reads the message values of a finished payload region.
fn decode(b: &[u8]) -> Vec<u32> {
    let root = u32_at(b, 0) as usize;
    let field = field_pos(b, root, 4).expect("payload has a messages field");
    let vector = field + u32_at(b, field) as usize;
    let n = u32_at(b, vector) as usize;
    let mut out = Vec::new();
    for i in 0..n {
        let at = vector + 4 + 4 * i;
        let table = at + u32_at(b, at) as usize;
        out.push(field_pos(b, table, 4).map(|p| u32_at(b, p)).unwrap_or(0));
    }
    out
}

fn payload_of(values: &[u32]) -> Payload {
    Payload { messages: values.iter().map(|v| Message { value: *v }).collect() }
}

#[test]
fn example_scenario() {
    let mut w = Writer::new();
    let bytes = payload_of(&[7, 42]).to_bytes(&mut w).unwrap();
    assert!(bytes.len() > 0);
    assert_eq!(decode(&bytes), vec![7, 42]);
    let empty = payload_of(&[]).to_bytes(&mut w).unwrap();
    assert!(empty.len() > 0);
    assert_eq!(decode(&empty).len(), 0);
}

#[test]
fn round_trip_keeps_values_in_order() {
    let cases: Vec<Vec<u32>> = vec![
        vec![],
        vec![0],
        vec![1],
        vec![u32::MAX],
        vec![3, 1, 2],
        vec![5, 0, 5, 0, 9],
        (0..100).map(|i| i * 7919).collect(),
    ];
    let mut w = Writer::new();
    for values in cases {
        let bytes = payload_of(&values).to_bytes(&mut w).unwrap();
        assert_eq!(decode(&bytes), values);
    }
}

#[test]
fn reuse_matches_fresh_writer() {
    let payloads: Vec<Vec<u32>> = vec![vec![1, 2, 3], vec![], vec![42], vec![9, 9], vec![100, 200, 300, 400]];
    let mut server = Server::new();
    for values in &payloads {
        let reused = server.send_payload(&payload_of(values)).unwrap();
        let fresh = payload_of(values).to_bytes(&mut Writer::new()).unwrap();
        assert_eq!(reused, fresh);
    }
}

#[test]
fn second_finish_fails() {
    let mut w = Writer::new();
    let root = payload_of(&[1, 2]).encode_into(&mut w).unwrap();
    assert_eq!(w.finish(root), Ok(()));
    assert!(w.is_finished());
    let first = w.finished_data().unwrap().to_vec();
    assert_eq!(w.finish(root), Err(WriterError::AlreadyFinished));
    assert_eq!(w.finished_data().unwrap(), &first[..]);
    assert_eq!(payload_of(&[3]).to_bytes_delegated(&mut w), Err(WriterError::AlreadyFinished));
    assert_eq!(payload_of(&[3]).to_bytes(&mut w), Err(WriterError::AlreadyFinished));
    assert_eq!(Message { value: 3 }.to_fbs(&mut w), Err(WriterError::AlreadyFinished));
}

#[test]
fn empty_payload_decodes_to_no_messages() {
    let mut w = Writer::new();
    let bytes = payload_of(&[]).to_bytes_delegated(&mut w).unwrap().to_vec();
    assert!(bytes.len() > 0);
    assert_eq!(decode(&bytes), Vec::<u32>::new());
}

#[test]
fn encoding_is_deterministic() {
    let values = [11, 0, 22, 33];
    let mut a = Writer::new();
    let mut b = Writer::new();
    payload_of(&[5, 6, 7]).to_bytes(&mut a).unwrap();
    let from_a = payload_of(&values).to_bytes(&mut a).unwrap();
    let from_b = payload_of(&values).to_bytes(&mut b).unwrap();
    assert_eq!(from_a, from_b);
}

#[test]
fn consumed_region_then_reset_starts_new_cycle() {
    let mut server = Server::new();
    let mut first: Vec<u8> = Vec::new();
    let r: Result<(), SendError<()>> = server.send_payload_delegated(&payload_of(&[7, 42]), |b: &[u8]| {
        first.extend_from_slice(b);
        Ok(())
    });
    assert_eq!(r, Ok(()));
    assert!(!server.built());
    assert_eq!(decode(&first), vec![7, 42]);
    assert_eq!(first, payload_of(&[7, 42]).to_bytes(&mut Writer::new()).unwrap());
    let mut second: Vec<u8> = Vec::new();
    let r: Result<(), SendError<()>> = server.send_payload_delegated(&payload_of(&[8]), |b: &[u8]| {
        second.extend_from_slice(b);
        Ok(())
    });
    assert_eq!(r, Ok(()));
    assert_eq!(decode(&second), vec![8]);
    let owned = server.send_payload(&payload_of(&[9, 10])).unwrap();
    assert_eq!(decode(&owned), vec![9, 10]);
}

#[test]
fn sink_error_is_reported_and_writer_reset() {
    let mut server = Server::new();
    let r = server.send_payload_delegated(&payload_of(&[1, 2]), |_b: &[u8]| Err::<(), &str>("closed"));
    assert_eq!(r, Err(SendError::Sink("closed")));
    assert!(!server.built());
    let bytes = server.send_payload(&payload_of(&[3])).unwrap();
    assert_eq!(decode(&bytes), vec![3]);
}

#[test]
fn release_leaves_server_idle() {
    let mut server = Server::new();
    server.release();
    assert!(!server.built());
    let bytes = server.send_payload(&payload_of(&[]) ).unwrap();
    assert_eq!(decode(&bytes), Vec::<u32>::new());
}

#[test]
fn stale_handle_is_refused() {
    let mut w = Writer::new();
    let old = Message { value: 1 }.to_fbs(&mut w).unwrap();
    assert_eq!(old, Handle { generation: 0, index: 0 });
    w.reset();
    assert_eq!(w.generation(), 1);
    assert_eq!(w.finish(old), Err(WriterError::StaleHandle));
    assert_eq!(w.table_ref(4, old), Err(WriterError::StaleHandle));
    assert_eq!(w.vector(&vec![old]), Err(WriterError::StaleHandle));
    let never = Handle { generation: 1, index: 5 };
    assert_eq!(w.finish(never), Err(WriterError::StaleHandle));
}

#[test]
fn unfinished_region_is_refused() {
    let mut w = Writer::new();
    assert_eq!(w.finished_data(), Err(WriterError::NotFinished));
    Message { value: 3 }.to_fbs(&mut w).unwrap();
    assert_eq!(w.finished_data(), Err(WriterError::NotFinished));
}

#[test]
fn handles_count_up_within_a_generation() {
    let mut w = Writer::new();
    let a = Message { value: 1 }.to_fbs(&mut w).unwrap();
    let b = Message { value: 2 }.to_fbs(&mut w).unwrap();
    let v = w.vector(&vec![a, b]).unwrap();
    let p = w.table_ref(4, v).unwrap();
    assert_eq!(v, Handle { generation: 0, index: 2 });
    assert_eq!(p, Handle { generation: 0, index: 3 });
    w.finish(p).unwrap();
    assert_eq!(decode(w.finished_data().unwrap()), vec![1, 2]);
}

#[test]
fn payload_handle_follows_its_messages() {
    let mut w = Writer::new();
    let root = payload_of(&[4, 5, 6]).encode_into(&mut w).unwrap();
    assert_eq!(root, Handle { generation: 0, index: 4 });
}

#[test]
fn generation_advances_on_reset() {
    let mut w = Writer::new();
    assert_eq!(w.generation(), 0);
    w.reset();
    w.reset();
    assert_eq!(w.generation(), 2);
}
