use shiloh::network::{
    InMemoryTransport, Packet, ReplicationBuffer, ReplicationChannel, ReplicationDelta, Transport,
};

fn encode(d: &ReplicationDelta) -> Vec<u8> {
    let mut obj = serde_json::Map::new();
    obj.insert("net_id".to_string(), serde_json::Value::from(d.net_id));
    let channel = match d.channel {
        ReplicationChannel::Reliable => "Reliable",
        ReplicationChannel::Unreliable => "Unreliable",
        ReplicationChannel::Snapshot => "Snapshot",
    };
    obj.insert("channel".to_string(), serde_json::Value::from(channel));
    obj.insert("bytes".to_string(), serde_json::Value::from(d.bytes.clone()));
    serde_json::to_vec(&serde_json::Value::Object(obj)).unwrap()
}

#[test]
fn flush_roundtrip_memory() {
    let mut buf = ReplicationBuffer::default();
    buf.push(ReplicationDelta {
        net_id: 7,
        channel: ReplicationChannel::Reliable,
        bytes: vec![1, 2, 3],
    });
    let mut a = InMemoryTransport::new();
    let mut b = InMemoryTransport::new();
    let payloads: Vec<Vec<u8>> = buf.deltas.iter().map(encode).collect();
    assert_eq!(buf.flush_to(&mut a, payloads).unwrap(), 1);
    a.deliver_to(&mut b);
    let pkt = b.recv().unwrap().expect("packet");
    let decoded: serde_json::Value = serde_json::from_slice(&pkt.payload).unwrap();
    assert_eq!(decoded["net_id"], serde_json::Value::from(7u64));
    assert_eq!(decoded["bytes"], serde_json::Value::from(vec![1u8, 2, 3]));
}

#[test]
fn flush_frames_channel_bytes_in_order() {
    let mut buf = ReplicationBuffer::default();
    for (id, ch) in [
        (1u64, ReplicationChannel::Snapshot),
        (2, ReplicationChannel::Reliable),
        (3, ReplicationChannel::Unreliable),
    ] {
        buf.push(ReplicationDelta { net_id: id, channel: ch, bytes: vec![id as u8] });
    }
    let payloads = vec![vec![10u8], vec![20u8], vec![30u8]];
    let mut a = InMemoryTransport::new();
    assert_eq!(buf.flush_to(&mut a, payloads).unwrap(), 3);
    assert!(buf.deltas.is_empty());
    let mut b = InMemoryTransport::new();
    a.deliver_to(&mut b);
    let mut got: Vec<(u8, Vec<u8>)> = Vec::new();
    while let Some(p) = b.recv().unwrap() {
        got.push((p.channel, p.payload));
    }
    assert_eq!(got, vec![(2, vec![10]), (0, vec![20]), (1, vec![30])]);
}

#[test]
fn loopback_is_fifo() {
    let mut a = InMemoryTransport::new();
    let mut b = InMemoryTransport::default();
    for i in 0..5u8 {
        a.send(Packet { channel: i, payload: vec![i] }).unwrap();
    }
    assert!(b.recv().unwrap().is_none());
    a.deliver_to(&mut b);
    for i in 0..5u8 {
        let p = b.recv().unwrap().unwrap();
        assert_eq!(p.channel, i);
        assert_eq!(p.payload, vec![i]);
    }
    assert!(b.recv().unwrap().is_none());
    assert!(a.recv().unwrap().is_none());
}

#[test]
fn drain_returns_pushed_and_empties() {
    let mut buf = ReplicationBuffer::default();
    buf.push(ReplicationDelta { net_id: 1, channel: ReplicationChannel::Reliable, bytes: vec![] });
    buf.push(ReplicationDelta { net_id: 2, channel: ReplicationChannel::Snapshot, bytes: vec![9] });
    let out = buf.drain();
    assert_eq!(out.iter().map(|d| d.net_id).collect::<Vec<_>>(), vec![1, 2]);
    assert!(buf.drain().is_empty());
}
