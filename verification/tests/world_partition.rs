use shiloh::world_partition::{ChunkId, ChunkState, WorldPartition};

#[test]
fn focus_loads_and_evicts() {
    let mut wp = WorldPartition::default();
    wp.load_radius = 1;
    wp.set_focus_chunk(ChunkId { x: 0, z: 0 });
    assert_eq!(wp.resident.len(), 9);
    let (new1, evict1) = wp.tick_streaming();
    assert_eq!(new1.len(), 9);
    assert!(evict1.is_empty());
    assert!(wp.resident.iter().all(|(_, s)| *s == ChunkState::Resident));

    wp.set_focus_chunk(ChunkId { x: 10, z: 0 });
    let (_new2, evict2) = wp.tick_streaming();
    assert!(!evict2.is_empty());
    assert!(wp.resident.iter().all(|(id, _)| id.x >= 9));
}

#[test]
fn focus_keeps_resident_cells_and_marks_far_ones_evicting() {
    let mut wp = WorldPartition::default();
    wp.load_radius = 1;
    wp.set_focus_chunk(ChunkId { x: 0, z: 0 });
    wp.tick_streaming();
    wp.set_focus_chunk(ChunkId { x: 1, z: 0 });
    let resident = wp.resident.iter().filter(|(_, s)| *s == ChunkState::Resident).count();
    let loading = wp.resident.iter().filter(|(_, s)| *s == ChunkState::Loading).count();
    let evicting = wp.resident.iter().filter(|(_, s)| *s == ChunkState::Evicting).count();
    assert_eq!((resident, loading, evicting), (6, 3, 3));
    let (newly, evicted) = wp.tick_streaming();
    assert_eq!(newly.len(), 3);
    assert_eq!(evicted.len(), 3);
    assert!(evicted.iter().all(|id| id.x == -1));
    assert_eq!(wp.resident_ids().len(), 9);
}

#[test]
fn mark_resident_updates_or_appends() {
    let mut wp = WorldPartition::default();
    wp.mark_resident(ChunkId { x: 5, z: 5 });
    assert_eq!(wp.resident, vec![(ChunkId { x: 5, z: 5 }, ChunkState::Resident)]);
    wp.resident.push((ChunkId { x: 6, z: 5 }, ChunkState::Loading));
    wp.mark_resident(ChunkId { x: 6, z: 5 });
    assert_eq!(wp.resident.len(), 2);
    assert_eq!(wp.resident[1].1, ChunkState::Resident);
    assert_eq!(wp.resident_ids(), vec![ChunkId { x: 5, z: 5 }, ChunkId { x: 6, z: 5 }]);
}

#[test]
fn neighbors_ring() {
    let n = ChunkId { x: 3, z: -2 }.neighbors();
    assert_eq!(n[0], ChunkId { x: 2, z: -3 });
    assert_eq!(n[1], ChunkId { x: 3, z: -3 });
    assert_eq!(n[3], ChunkId { x: 2, z: -2 });
    assert_eq!(n[4], ChunkId { x: 4, z: -2 });
    assert_eq!(n[7], ChunkId { x: 4, z: -1 });
}
