use rustci_core::state_snapshot::{calculate_checksum, SnapshotConfig, StateSnapshotManager};

#[test]
fn test_snapshot_manager_creation() {
    let config = SnapshotConfig::default_config();
    let control_plane_id = uuid::Uuid::new_v4().as_u128();
    let snapshot_manager = StateSnapshotManager::new(config, control_plane_id);
    assert!(snapshot_manager.list_snapshots().is_empty());
    assert!(snapshot_manager.get_latest_snapshot().is_none());
}

#[test]
fn test_snapshot_creation_and_restoration() {
    let mut config = SnapshotConfig::default_config();
    config.compression_enabled = false;
    config.encryption_enabled = false;
    let control_plane_id = uuid::Uuid::new_v4().as_u128();
    let mut manager = StateSnapshotManager::new(config, control_plane_id);

    let state = br#"{"control_plane_state":{"state":"Running","current_term":1}}"#.to_vec();
    let snapshot_id = uuid::Uuid::new_v4().as_u128();
    let (metadata, stored) = manager.pack_snapshot(snapshot_id, &state, 1_700_000_000_000).unwrap();
    assert_eq!(metadata.version, "1.0");
    assert_eq!(metadata.size, state.len() as u64);
    manager.register_snapshot(metadata);

    let snapshots = manager.list_snapshots();
    assert_eq!(snapshots.len(), 1);
    assert_eq!(snapshots[0].id, snapshot_id);

    let meta = manager.snapshot_metadata(snapshot_id).unwrap();
    let restored = manager.unpack_snapshot(&meta, &stored).unwrap();
    assert_eq!(restored, state);
}

#[test]
fn tampered_snapshot_is_refused() {
    let manager = StateSnapshotManager::new(SnapshotConfig::default_config(), 1);
    let (meta, mut stored) = manager.pack_snapshot(2, &vec![1, 2, 3], 10).unwrap();
    stored[0] = 9;
    assert!(manager.unpack_snapshot(&meta, &stored).is_err());
}

#[test]
fn unknown_snapshot_is_refused() {
    let manager = StateSnapshotManager::new(SnapshotConfig::default_config(), 1);
    assert!(manager.snapshot_metadata(42).is_err());
}

#[test]
fn checksum_is_hex_and_depends_on_bytes() {
    let c = calculate_checksum(&b"abc".to_vec());
    assert_eq!(c, calculate_checksum(&b"abc".to_vec()));
    assert_ne!(c, calculate_checksum(&b"abd".to_vec()));
    assert!(c.chars().all(|ch| ch.is_ascii_hexdigit()));
}

#[test]
fn latest_and_cleanup_keep_the_newest() {
    let mut config = SnapshotConfig::default_config();
    config.max_snapshots = 2;
    let mut manager = StateSnapshotManager::new(config, 1);
    for (id, t) in [(10u128, 100u64), (11, 300), (12, 200)] {
        let (m, _) = manager.pack_snapshot(id, &vec![0u8], t).unwrap();
        manager.register_snapshot(m);
    }
    assert_eq!(manager.get_latest_snapshot().unwrap().id, 11);
    let dropped = manager.cleanup_old_snapshots();
    assert_eq!(dropped.len(), 1);
    assert_eq!(dropped[0].id, 10);
    assert_eq!(manager.list_snapshots().len(), 2);
}

#[test]
fn checksum_is_not_the_bytes() {
    let c = calculate_checksum(&b"abc".to_vec());
    assert_ne!(c, "abc");
    assert_ne!(c, "616263");
}
