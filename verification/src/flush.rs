//! The decision core of the aggregating delivery stage's writer task.
//!
//! On each timer tick the writer swaps the live statistics map for an empty
//! one and — only when the snapshot holds anything — serializes it for a
//! write-temp-then-rename flush. The host performs the file operations; the
//! atomic-replace discipline itself is modelled and proved here: a reader of
//! the destination never observes a mix of old and new content.

use vstd::prelude::*;
use crate::codec::{encode_snapshot, snapshot_rep};
use crate::statsmap::{StatsMap, StatsSnapshot};

verus! {

/// What one flush tick asks the host to do.
pub enum FlushAction {
    /// The snapshot was empty: write nothing, leave the previous file
    /// untouched, wait for the next tick.
    Skip,
    /// Write this content to the temporary path, then rename it onto the
    /// destination.
    WriteAndRename(String),
}

/// What to do with one extracted snapshot: an empty one produces `Skip` —
/// no file operation at all, the previous file stays untouched; otherwise
/// the serialized snapshot is handed out for the write-temp-then-rename
/// sequence. The caller extracts the snapshot under the map's lock and
/// calls this outside it, so no serialization happens in the critical
/// section. Failures of the file operations are absorbed by the host
/// dropping the snapshot; the next tick starts from the already reset map.
pub fn flush_decision(snap: &StatsSnapshot) -> (action: FlushAction)
    ensures
        snap@.len() == 0 ==> action is Skip,
        snap@.len() > 0 ==> (action matches FlushAction::WriteAndRename(content)
            && content@ =~= snapshot_rep(snap@)),
{
    if snap.is_empty() {
        FlushAction::Skip
    } else {
        FlushAction::WriteAndRename(encode_snapshot(snap))
    }
}

/// One timer tick of the writer task, for a caller that owns the map
/// directly: atomically take the whole map, leaving it empty, and decide
/// what to write from the extracted snapshot.
pub fn writer_tick(map: &mut StatsMap) -> (action: FlushAction)
    requires
        old(map).wf(),
    ensures
        final(map).wf(),
        final(map)@ =~= Seq::<(Seq<char>, crate::stats::AlgorithmStats)>::empty(),
        old(map)@.len() == 0 ==> action is Skip,
        old(map)@.len() > 0 ==> (action matches FlushAction::WriteAndRename(content)
            && content@ =~= snapshot_rep(old(map)@)),
{
    let snap = map.take_snapshot();
    flush_decision(&snap)
}

/// The durable state the host's file system holds for the output: the
/// destination file's content, the temporary file's content (if either
/// exists).
pub struct FileModel {
    pub dest: Option<Seq<char>>,
    pub temp: Option<Seq<char>>,
}

impl FileModel {
    /// Writing the temporary file replaces only the temporary file.
    pub open spec fn write_temp(self, content: Seq<char>) -> FileModel {
        FileModel { dest: self.dest, temp: Some(content) }
    }

    /// The atomic rename moves the temporary file onto the destination in
    /// one step.
    pub open spec fn rename(self) -> FileModel
        recommends
            self.temp is Some,
    {
        FileModel { dest: self.temp, temp: None }
    }
}

/// Atomic-flush law: however the flush is interrupted — before the
/// temporary write, between the write and the rename, or after the rename —
/// the destination holds either the complete old content or the complete
/// new content, never a mix and never a partial write.
pub proof fn lemma_atomic_flush(f0: FileModel, content: Seq<char>)
    ensures
        f0.write_temp(content).dest == f0.dest,
        f0.write_temp(content).rename().dest == Some(content),
{
}

} // verus!
