//! Snapshots of the control plane's state: their settings, the registry of
//! stored snapshots with its retention rule, and the packing and checking
//! of snapshot bytes.  Encoding the state and storing bytes on disk or in
//! S3 belong to the caller.  Times are milliseconds since the epoch.

use crate::errors::AppError;
use crate::ids::{has_id, id_upserted, value_at_id, without_id, IdTable};
use std::collections::hash_map::DefaultHasher;
use std::hash::{Hash, Hasher};
use vstd::prelude::*;

verus! {

/// Where snapshots are stored.
#[derive(Debug, Clone, Copy, PartialEq, Eq, Structural)]
pub enum SnapshotStorageType {
    Disk,
    S3,
    Both,
}

/// Access to an S3 bucket.
#[derive(Debug, Clone)]
pub struct S3Config {
    pub bucket: String,
    pub region: String,
    pub access_key_id: String,
    pub secret_access_key: String,
    pub key_prefix: String,
}

/// Settings of snapshotting.
#[derive(Debug, Clone)]
pub struct SnapshotConfig {
    pub storage_type: SnapshotStorageType,
    /// Seconds between snapshots.
    pub snapshot_interval: u64,
    /// Snapshots kept at most.
    pub max_snapshots: u32,
    pub compression_enabled: bool,
    pub encryption_enabled: bool,
    /// Directory of snapshots on disk.
    pub local_path: String,
    pub s3_config: Option<S3Config>,
}

impl SnapshotConfig {
    /// On disk under "./snapshots", every five minutes, ten kept,
    /// compressed, not encrypted.
    pub fn default_config() -> (c: Self)
        ensures
            c.storage_type == SnapshotStorageType::Disk,
            c.snapshot_interval == 300,
            c.max_snapshots == 10,
            c.compression_enabled,
            !c.encryption_enabled,
            c.local_path@ == "./snapshots"@,
            c.s3_config is None,
    {
        SnapshotConfig {
            storage_type: SnapshotStorageType::Disk,
            snapshot_interval: 300,
            max_snapshots: 10,
            compression_enabled: true,
            encryption_enabled: false,
            local_path: String::from_str("./snapshots"),
            s3_config: None,
        }
    }
}

/// What is recorded of a stored snapshot.
#[derive(Debug, Clone, PartialEq, Eq)]
pub struct SnapshotMetadata {
    pub id: u128,
    pub control_plane_id: u128,
    pub timestamp: u64,
    pub version: String,
    pub size: u64,
    pub checksum: String,
    pub compressed: bool,
    pub encrypted: bool,
}

impl SnapshotMetadata {
    /// An equal copy.
    pub fn duplicate(&self) -> (m: Self)
        ensures
            m == *self,
    {
        SnapshotMetadata {
            id: self.id,
            control_plane_id: self.control_plane_id,
            timestamp: self.timestamp,
            version: self.version.clone(),
            size: self.size,
            checksum: self.checksum.clone(),
            compressed: self.compressed,
            encrypted: self.encrypted,
        }
    }
}

/// The checksum text of stored bytes.
pub uninterp spec fn checksum_text(data: Seq<u8>) -> Seq<char>;

/// Hashes bytes with `std::collections::hash_map::DefaultHasher` and
/// renders the 64-bit hash in lower-case hexadecimal.  The result depends on
/// the bytes alone; how it depends is the hasher's.
#[verifier::external_body]
pub fn calculate_checksum(data: &Vec<u8>) -> (c: String)
    ensures
        c@ == checksum_text(data@),
{
    let mut hasher = DefaultHasher::new();
    data.as_slice().hash(&mut hasher);
    format!("{:x}", hasher.finish())
}

/// Whether `stored`, described by `m`, is encoded state `encoded` as packed:
/// the bytes themselves, under their checksum.
pub open spec fn packed(m: SnapshotMetadata, stored: Seq<u8>, encoded: Seq<u8>) -> bool {
    stored == encoded && m.checksum@ == checksum_text(encoded)
}

/// The state unpacked from `stored` as described by `m`: the bytes, where
/// their checksum matches the recorded one, and nothing otherwise.
pub open spec fn unpacked(m: SnapshotMetadata, stored: Seq<u8>) -> Option<Seq<u8>> {
    if checksum_text(stored) == m.checksum@ {
        Some(stored)
    } else {
        None
    }
}

/// Unpacking a packed snapshot gives back the state that was packed.
pub proof fn lemma_unpack_restores_pack(m: SnapshotMetadata, stored: Seq<u8>, encoded: Seq<u8>)
    requires
        packed(m, stored, encoded),
    ensures
        unpacked(m, stored) == Some(encoded),
{
}

/// Copies bytes.
fn copy_bytes(data: &Vec<u8>) -> (r: Vec<u8>)
    ensures
        r@ == data@,
{
    let mut out: Vec<u8> = Vec::new();
    let mut i: usize = 0;
    while i < data.len()
        invariant
            i <= data@.len(),
            out@ == data@.take(i as int),
        decreases data@.len() - i,
    {
        out.push(data[i]);
        proof {
            assert(out@ =~= data@.take(i as int + 1));
        }
        i = i + 1;
    }
    proof {
        assert(data@.take(data@.len() as int) =~= data@);
    }
    out
}

/// Compression of snapshot bytes: no codec is applied, the bytes stay.
pub fn compress_data(data: &Vec<u8>) -> (r: Result<Vec<u8>, AppError>)
    ensures
        r matches Ok(v) && v@ == data@,
{
    Ok(copy_bytes(data))
}

/// Decompression of snapshot bytes: the bytes stay.
pub fn decompress_data(data: &Vec<u8>) -> (r: Result<Vec<u8>, AppError>)
    ensures
        r matches Ok(v) && v@ == data@,
{
    Ok(copy_bytes(data))
}

/// Encryption of snapshot bytes: no cipher is applied, the bytes stay.
pub fn encrypt_data(data: &Vec<u8>) -> (r: Result<Vec<u8>, AppError>)
    ensures
        r matches Ok(v) && v@ == data@,
{
    Ok(copy_bytes(data))
}

/// Decryption of snapshot bytes: the bytes stay.
pub fn decrypt_data(data: &Vec<u8>) -> (r: Result<Vec<u8>, AppError>)
    ensures
        r matches Ok(v) && v@ == data@,
{
    Ok(copy_bytes(data))
}

/// Snapshots known to a control plane.
pub struct StateSnapshotManager {
    config: SnapshotConfig,
    control_plane_id: u128,
    snapshots: IdTable<SnapshotMetadata>,
}

/// Whether every timestamp of `dropped` is at most every one in `kept`.
pub open spec fn no_newer(dropped: Seq<SnapshotMetadata>, kept: Seq<(u128, SnapshotMetadata)>) -> bool {
    forall|i: int, j: int| 0 <= i < dropped.len() && 0 <= j < kept.len() ==> #[trigger] dropped[i].timestamp <= #[trigger] kept[j].1.timestamp
}

impl StateSnapshotManager {
    /// The settings.
    pub closed spec fn settings(&self) -> SnapshotConfig {
        self.config
    }

    /// The owning control plane.
    pub closed spec fn owner(&self) -> u128 {
        self.control_plane_id
    }

    /// Known snapshots by identifier.
    pub closed spec fn known(&self) -> Seq<(u128, SnapshotMetadata)> {
        self.snapshots.entries()
    }

    /// One record per snapshot, each under its own identifier.
    pub closed spec fn well_formed(&self) -> bool {
        &&& self.snapshots.well_formed()
        &&& forall|j: int| 0 <= j < self.snapshots.entries().len() ==> #[trigger] self.snapshots.entries()[j].0
            == self.snapshots.entries()[j].1.id
    }

    /// Whether `m` is the record of a known snapshot.
    pub open spec fn is_known(&self, m: SnapshotMetadata) -> bool {
        exists|j: int| 0 <= j < self.known().len() && #[trigger] self.known()[j].1 == m
    }

    /// A manager that knows no snapshot.
    pub fn new(config: SnapshotConfig, control_plane_id: u128) -> (m: Self)
        ensures
            m.well_formed(),
            m.settings() == config,
            m.owner() == control_plane_id,
            m.known().len() == 0,
    {
        StateSnapshotManager { config, control_plane_id, snapshots: IdTable::new() }
    }

    /// Packs encoded state `encoded` as snapshot `snapshot_id` at `now`:
    /// compressed and encrypted as configured, checksummed, and described
    /// by version "1.0" metadata of the packed size.  Returns the metadata
    /// and the bytes to store.
    pub fn pack_snapshot(&self, snapshot_id: u128, encoded: &Vec<u8>, now: u64) -> (r: Result<
        (SnapshotMetadata, Vec<u8>),
        AppError,
    >)
        ensures
            r matches Ok(p) && {
                &&& p.1@ == encoded@
                &&& p.0.id == snapshot_id
                &&& p.0.control_plane_id == self.owner()
                &&& p.0.timestamp == now
                &&& p.0.version@ == "1.0"@
                &&& p.0.size == encoded@.len()
                &&& p.0.checksum@ == checksum_text(encoded@)
                &&& p.0.compressed == self.settings().compression_enabled
                &&& p.0.encrypted == self.settings().encryption_enabled
                &&& packed(p.0, p.1@, encoded@)
            },
    {
        let data = if self.config.compression_enabled {
            match compress_data(encoded) {
                Ok(d) => d,
                Err(e) => {
                    return Err(e);
                },
            }
        } else {
            copy_bytes(encoded)
        };
        let data = if self.config.encryption_enabled {
            match encrypt_data(&data) {
                Ok(d) => d,
                Err(e) => {
                    return Err(e);
                },
            }
        } else {
            data
        };
        let checksum = calculate_checksum(&data);
        let metadata = SnapshotMetadata {
            id: snapshot_id,
            control_plane_id: self.control_plane_id,
            timestamp: now,
            version: String::from_str("1.0"),
            size: data.len() as u64,
            checksum,
            compressed: self.config.compression_enabled,
            encrypted: self.config.encryption_enabled,
        };
        Ok((metadata, data))
    }

    /// Records a stored snapshot.
    pub fn register_snapshot(&mut self, metadata: SnapshotMetadata)
        requires
            old(self).well_formed(),
        ensures
            final(self).well_formed(),
            final(self).known() == id_upserted(old(self).known(), metadata.id, metadata),
            final(self).settings() == old(self).settings(),
            final(self).owner() == old(self).owner(),
    {
        let ghost before = self.snapshots.entries();
        self.snapshots.insert(metadata.id, metadata);
        proof {
            let after = self.snapshots.entries();
            assert forall|j: int| 0 <= j < after.len() implies #[trigger] after[j].0 == after[j].1.id by {
                if has_id(before, metadata.id) {
                    let p = crate::ids::id_position(before, metadata.id);
                    if j != p {
                        assert(after[j] == before[j]);
                    }
                } else if j < before.len() {
                    assert(after[j] == before[j]);
                }
            }
        }
    }

    /// The record of snapshot `snapshot_id`; an unknown one is refused with
    /// `ValidationError`.
    pub fn snapshot_metadata(&self, snapshot_id: u128) -> (r: Result<SnapshotMetadata, AppError>)
        requires
            self.well_formed(),
        ensures
            has_id(self.known(), snapshot_id) ==> r == Ok::<SnapshotMetadata, AppError>(
                value_at_id(self.known(), snapshot_id),
            ),
            !has_id(self.known(), snapshot_id) ==> (r matches Err(AppError::ValidationError(m)) && m@
                == "Snapshot "@ + crate::platform::uuid_hyphenated(snapshot_id) + " not found"@),
    {
        match self.snapshots.get(snapshot_id) {
            Some(m) => Ok(m.duplicate()),
            None => Err(not_found(snapshot_id)),
        }
    }

    /// Checks stored bytes against their record and unpacks them: bytes
    /// whose checksum differs are refused with `ValidationError`; others
    /// are decrypted and decompressed as recorded.
    pub fn unpack_snapshot(&self, metadata: &SnapshotMetadata, stored: &Vec<u8>) -> (r: Result<Vec<u8>, AppError>)
        ensures
            r is Ok <==> unpacked(*metadata, stored@) is Some,
            r matches Ok(v) ==> unpacked(*metadata, stored@) == Some(v@),
            checksum_text(stored@) != metadata.checksum@ ==> (r matches Err(AppError::ValidationError(m)) && m@
                == "Snapshot checksum verification failed"@),
            checksum_text(stored@) == metadata.checksum@ ==> (r matches Ok(v) && v@ == stored@),
    {
        let calculated = calculate_checksum(stored);
        if calculated != metadata.checksum {
            return Err(AppError::ValidationError(String::from_str("Snapshot checksum verification failed")));
        }
        let data = if metadata.encrypted {
            match decrypt_data(stored) {
                Ok(d) => d,
                Err(e) => {
                    return Err(e);
                },
            }
        } else {
            copy_bytes(stored)
        };
        if metadata.compressed {
            decompress_data(&data)
        } else {
            Ok(data)
        }
    }

    /// Forgets snapshot `snapshot_id` and returns its record; an unknown
    /// one is refused with `ValidationError`.
    pub fn delete_snapshot(&mut self, snapshot_id: u128) -> (r: Result<SnapshotMetadata, AppError>)
        requires
            old(self).well_formed(),
        ensures
            final(self).well_formed(),
            final(self).known() == without_id(old(self).known(), snapshot_id),
            has_id(old(self).known(), snapshot_id) ==> r == Ok::<SnapshotMetadata, AppError>(
                value_at_id(old(self).known(), snapshot_id),
            ),
            !has_id(old(self).known(), snapshot_id) ==> (r matches Err(AppError::ValidationError(_))),
            final(self).settings() == old(self).settings(),
    {
        match self.snapshots.remove(snapshot_id) {
            Some(m) => Ok(m),
            None => Err(not_found(snapshot_id)),
        }
    }

    /// The most recent snapshot: the last, in order of recording, of those
    /// with the latest timestamp; nothing when none is known.
    pub fn get_latest_snapshot(&self) -> (r: Option<SnapshotMetadata>)
        ensures
            self.known().len() == 0 <==> r is None,
            r matches Some(m) ==> exists|i: int| 0 <= i < self.known().len() && #[trigger] self.known()[i].1 == m
                && (forall|j: int| 0 <= j < self.known().len() ==> #[trigger] self.known()[j].1.timestamp <= m.timestamp)
                && (forall|j: int| i < j < self.known().len() ==> #[trigger] self.known()[j].1.timestamp < m.timestamp),
    {
        if self.snapshots.len() == 0 {
            return None;
        }
        let mut best: usize = 0;
        let mut i: usize = 1;
        while i < self.snapshots.len()
            invariant
                1 <= i <= self.known().len(),
                best < i,
                forall|j: int| 0 <= j < i ==> #[trigger] self.known()[j].1.timestamp <= self.known()[best as int].1.timestamp,
                forall|j: int| best < j < i ==> #[trigger] self.known()[j].1.timestamp < self.known()[best as int].1.timestamp,
            decreases self.known().len() - i,
        {
            if self.snapshots.entry_at(i).1.timestamp >= self.snapshots.entry_at(best).1.timestamp {
                best = i;
            }
            i = i + 1;
        }
        Some(self.snapshots.entry_at(best).1.duplicate())
    }

    /// Drops the oldest snapshots beyond the number kept.  Returns the
    /// records dropped, each no newer than any kept.
    pub fn cleanup_old_snapshots(&mut self) -> (dropped: Vec<SnapshotMetadata>)
        requires
            old(self).well_formed(),
        ensures
            final(self).well_formed(),
            old(self).known().len() <= old(self).settings().max_snapshots ==> dropped@.len() == 0 && final(self).known()
                == old(self).known(),
            old(self).known().len() > old(self).settings().max_snapshots ==> final(self).known().len()
                == old(self).settings().max_snapshots,
            dropped@.len() + final(self).known().len() == old(self).known().len(),
            no_newer(dropped@, final(self).known()),
            forall|j: int| 0 <= j < final(self).known().len() ==> #[trigger] old(self).known().contains(final(self).known()[j]),
            forall|j: int| 0 <= j < dropped@.len() ==> old(self).known().contains((dropped@[j].id, #[trigger] dropped@[j])),
            final(self).settings() == old(self).settings(),
    {
        let max = self.config.max_snapshots as usize;
        let mut dropped: Vec<SnapshotMetadata> = Vec::new();
        let ghost all = self.known();
        while self.snapshots.len() > max
            invariant
                self.well_formed(),
                max == self.settings().max_snapshots,
                dropped@.len() + self.known().len() == all.len(),
                no_newer(dropped@, self.known()),
                forall|j: int| 0 <= j < self.known().len() ==> #[trigger] all.contains(self.known()[j]),
                forall|j: int| 0 <= j < dropped@.len() ==> all.contains((dropped@[j].id, #[trigger] dropped@[j])),
                forall|j: int| 0 <= j < self.known().len() ==> #[trigger] self.known()[j].0 == self.known()[j].1.id,
                all.len() > max ==> self.known().len() >= max,
                all.len() <= max ==> self.known() == all,
                self.settings() == old(self).settings(),
            decreases self.known().len(),
        {
            let n = self.snapshots.len();
            let mut oldest: usize = 0;
            let mut i: usize = 1;
            while i < n
                invariant
                    n == self.known().len(),
                    1 <= i <= n,
                    oldest < i,
                    forall|j: int| 0 <= j < i ==> self.known()[oldest as int].1.timestamp <= #[trigger] self.known()[j].1.timestamp,
                decreases n - i,
            {
                if self.snapshots.entry_at(i).1.timestamp < self.snapshots.entry_at(oldest).1.timestamp {
                    oldest = i;
                }
                i = i + 1;
            }
            let ghost before = self.known();
            let (id, m) = self.snapshots.remove_at(oldest);
            proof {
                assert(before[oldest as int] == (id, m));
                assert(all.contains((id, m))) by {
                    assert(before[oldest as int] == (id, m));
                }
                assert(m.id == id);
                let after = self.known();
                assert forall|j: int| 0 <= j < after.len() implies #[trigger] all.contains(after[j]) by {
                    let jj = if j < oldest { j } else { j + 1 };
                    assert(after[j] == before[jj]);
                    assert(all.contains(before[jj]));
                }
                assert forall|j: int| 0 <= j < after.len() implies #[trigger] after[j].0 == after[j].1.id by {
                    let jj = if j < oldest { j } else { j + 1 };
                    assert(after[j] == before[jj]);
                }
                assert forall|a: int, b: int| 0 <= a < dropped@.len() + 1 && 0 <= b < after.len() implies #[trigger] dropped@.push(
                    m,
                )[a].timestamp <= #[trigger] after[b].1.timestamp by {
                    let bb = if b < oldest { b } else { b + 1 };
                    assert(after[b] == before[bb]);
                    if a < dropped@.len() {
                        assert(dropped@.push(m)[a] == dropped@[a]);
                    }
                }
            }
            dropped.push(m);
        }
        dropped
    }

    /// The known snapshots, newest first.
    pub fn list_snapshots(&self) -> (v: Vec<SnapshotMetadata>)
        ensures
            v@.len() == self.known().len(),
            forall|i: int, j: int| 0 <= i < j < v@.len() ==> #[trigger] v@[i].timestamp >= #[trigger] v@[j].timestamp,
            forall|i: int| 0 <= i < v@.len() ==> self.is_known(#[trigger] v@[i]),
    {
        let mut out: Vec<SnapshotMetadata> = Vec::new();
        let mut i: usize = 0;
        while i < self.snapshots.len()
            invariant
                i <= self.known().len(),
                out@.len() == i,
                forall|a: int, b: int| 0 <= a < b < out@.len() ==> #[trigger] out@[a].timestamp >= #[trigger] out@[b].timestamp,
                forall|a: int| 0 <= a < out@.len() ==> self.is_known(#[trigger] out@[a]),
            decreases self.known().len() - i,
        {
            let m = self.snapshots.entry_at(i).1.duplicate();
            let mut pos: usize = 0;
            while pos < out.len() && out[pos].timestamp >= m.timestamp
                invariant
                    pos <= out@.len(),
                    forall|a: int| 0 <= a < pos ==> #[trigger] out@[a].timestamp >= m.timestamp,
                decreases out@.len() - pos,
            {
                pos = pos + 1;
            }
            let ghost before = out@;
            proof {
                assert(self.known()[i as int].1 == m);
            }
            out.insert(pos, m);
            proof {
                assert forall|a: int, b: int| 0 <= a < b < out@.len() implies #[trigger] out@[a].timestamp >= #[trigger] out@[b].timestamp by {
                    if a < pos && b < pos {
                        assert(out@[a] == before[a] && out@[b] == before[b]);
                    } else if a < pos && b == pos {
                        assert(out@[a] == before[a]);
                    } else if a < pos {
                        assert(out@[a] == before[a] && out@[b] == before[b - 1]);
                    } else if a == pos {
                        assert(out@[b] == before[b - 1]);
                        if pos < before.len() {
                            assert(!(before[pos as int].timestamp >= m.timestamp));
                            assert(before[pos as int].timestamp >= before[b - 1].timestamp);
                        }
                    } else {
                        assert(out@[a] == before[a - 1] && out@[b] == before[b - 1]);
                    }
                }
                assert forall|a: int| 0 <= a < out@.len() implies self.is_known(#[trigger] out@[a]) by {
                    if a < pos {
                        assert(out@[a] == before[a]);
                    } else if a == pos {
                        assert(self.known()[i as int].1 == out@[a]);
                    } else {
                        assert(out@[a] == before[a - 1]);
                    }
                }
            }
            i = i + 1;
        }
        out
    }
}

/// The error for an unknown snapshot.
fn not_found(snapshot_id: u128) -> (e: AppError)
    ensures
        e matches AppError::ValidationError(m) && m@ == "Snapshot "@ + crate::platform::uuid_hyphenated(snapshot_id)
            + " not found"@,
{
    let mut m = String::from_str("Snapshot ");
    let id = crate::platform::uuid_text(snapshot_id);
    m.append(id.as_str());
    m.append(" not found");
    AppError::ValidationError(m)
}

} // verus!
