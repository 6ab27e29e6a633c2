//! When the session snapshot is written: changes are collected until they have been quiet for a
//! while, but not for longer than a limit.
//!
//! Moments and spans are in nanoseconds of one steady clock.

use vstd::prelude::*;
use crate::snapshot::SessionSnapshot;

verus! {

/// A change is written once nothing has come for this long.
pub const QUIET: u64 = 300_000_000;

/// A change is written at the latest after this long.
pub const MAX_DEFER: u64 = 1_000_000_000;

/// What waits to be written, and since when.
#[derive(Debug, PartialEq, Eq)]
pub struct SnapshotWriter {
    pub pending: Option<SessionSnapshot>,
    pub first_dirty: Option<u64>,
}

/// What came of waiting for the next snapshot.
#[derive(Debug, PartialEq, Eq)]
pub enum WriterEvent {
    Snapshot(SessionSnapshot),
    Timeout,
    /// No further snapshot will come.
    Disconnected,
}

/// What the writer does next.
#[derive(Debug, PartialEq, Eq)]
pub struct WriterStep {
    pub write: Option<SessionSnapshot>,
    pub stop: bool,
}

impl SnapshotWriter {
    /// Something is pending exactly while a moment of the first change is noted.
    pub open spec fn wf(self) -> bool {
        self.pending is Some <==> self.first_dirty is Some
    }

    pub fn new() -> (r: SnapshotWriter)
        ensures
            r == (SnapshotWriter { pending: None, first_dirty: None }),
            r.wf(),
    {
        SnapshotWriter { pending: None, first_dirty: None }
    }

    pub open spec fn spec_timeout(self, now: u64) -> Option<u64> {
        match self.first_dirty {
            None => None,
            Some(t0) => {
                let waited = if now > t0 { now - t0 } else { 0 };
                let left = if waited < MAX_DEFER { MAX_DEFER - waited } else { 0 };
                Some(if left < QUIET { left as u64 } else { QUIET })
            },
        }
    }

    /// How long to wait for the next snapshot: without a limit while nothing is pending.
    pub fn timeout(&self, now: u64) -> (r: Option<u64>)
        ensures
            r == self.spec_timeout(now),
    {
        match self.first_dirty {
            None => None,
            Some(t0) => {
                let waited: u64 = now.saturating_sub(t0);
                let left: u64 = MAX_DEFER.saturating_sub(waited);
                if left < QUIET {
                    Some(left)
                } else {
                    Some(QUIET)
                }
            },
        }
    }

    /// The state after an event at `now`.
    pub open spec fn spec_after(self, event: WriterEvent, now: u64) -> SnapshotWriter {
        match event {
            WriterEvent::Snapshot(snap) => SnapshotWriter {
                pending: Some(snap),
                first_dirty: Some(
                    match self.first_dirty {
                        Some(t0) => t0,
                        None => now,
                    },
                ),
            },
            WriterEvent::Timeout => SnapshotWriter { pending: None, first_dirty: None },
            WriterEvent::Disconnected => SnapshotWriter {
                pending: None,
                first_dirty: self.first_dirty,
            },
        }
    }

    /// What an event makes the writer do.
    pub open spec fn spec_step(self, event: WriterEvent) -> WriterStep {
        match event {
            WriterEvent::Snapshot(_) => WriterStep { write: None, stop: false },
            WriterEvent::Timeout => WriterStep { write: self.pending, stop: false },
            WriterEvent::Disconnected => WriterStep { write: self.pending, stop: true },
        }
    }

    /// Takes in what came of waiting: a new snapshot replaces the one that waits; a timeout and
    /// the end write it.
    pub fn on_event(&mut self, event: WriterEvent, now: u64) -> (r: WriterStep)
        ensures
            *final(self) == old(self).spec_after(event, now),
            r == old(self).spec_step(event),
            old(self).wf() && !r.stop ==> final(self).wf(),
    {
        match event {
            WriterEvent::Snapshot(snap) => {
                self.pending = Some(snap);
                if self.first_dirty.is_none() {
                    self.first_dirty = Some(now);
                }
                WriterStep { write: None, stop: false }
            },
            WriterEvent::Timeout => {
                let write = self.pending.take();
                self.first_dirty = None;
                WriterStep { write, stop: false }
            },
            WriterEvent::Disconnected => {
                let write = self.pending.take();
                WriterStep { write, stop: true }
            },
        }
    }

    /// The state after a run of snapshots, each with the moment it came.
    pub open spec fn fed(self, snaps: Seq<(SessionSnapshot, u64)>) -> SnapshotWriter
        decreases snaps.len(),
    {
        if snaps.len() == 0 {
            self
        } else {
            self.fed(snaps.drop_last()).spec_after(
                WriterEvent::Snapshot(snaps.last().0),
                snaps.last().1,
            )
        }
    }
}

/// However many snapshots came, the last one is what a timeout or the end writes, and the wait
/// is counted from the first of them.
pub proof fn law_last_snapshot_is_written(w: SnapshotWriter, snaps: Seq<(SessionSnapshot, u64)>)
    requires
        w.wf(),
        snaps.len() > 0,
    ensures
        w.fed(snaps).spec_step(WriterEvent::Timeout).write == Some(snaps.last().0),
        w.fed(snaps).spec_step(WriterEvent::Disconnected).write == Some(snaps.last().0),
        w.fed(snaps).wf(),
        w.fed(snaps).first_dirty == Some(
            match w.first_dirty {
                Some(t0) => t0,
                None => snaps[0].1,
            },
        ),
    decreases snaps.len(),
{
    if snaps.len() > 1 {
        law_last_snapshot_is_written(w, snaps.drop_last());
    } else {
        assert(w.fed(snaps.drop_last()) == w);
    }
}

/// The state after a run of events, each with the moment it came.
pub open spec fn state_after(w: SnapshotWriter, events: Seq<(WriterEvent, u64)>) -> SnapshotWriter
    decreases events.len(),
{
    if events.len() == 0 {
        w
    } else {
        state_after(w, events.drop_last()).spec_after(events.last().0, events.last().1)
    }
}

/// What the file holds after a run of events that are each written as the writer says; before it
/// held `file`.
pub open spec fn file_after(
    w: SnapshotWriter,
    file: Option<SessionSnapshot>,
    events: Seq<(WriterEvent, u64)>,
) -> Option<SessionSnapshot>
    decreases events.len(),
{
    if events.len() == 0 {
        file
    } else {
        match state_after(w, events.drop_last()).spec_step(events.last().0).write {
            Some(snap) => Some(snap),
            None => file_after(w, file, events.drop_last()),
        }
    }
}

/// The last snapshot that came in a run of events; `before` where none did.
pub open spec fn last_snapshot(
    before: Option<SessionSnapshot>,
    events: Seq<(WriterEvent, u64)>,
) -> Option<SessionSnapshot>
    decreases events.len(),
{
    if events.len() == 0 {
        before
    } else {
        match events.last().0 {
            WriterEvent::Snapshot(snap) => Some(snap),
            _ => last_snapshot(before, events.drop_last()),
        }
    }
}

/// The newest snapshot of all: the one that waits, or else the one in the file.
pub open spec fn newest(w: SnapshotWriter, file: Option<SessionSnapshot>) -> Option<SessionSnapshot> {
    match w.pending {
        Some(snap) => Some(snap),
        None => file,
    }
}

/// Whatever snapshots and timeouts come, the last snapshot either waits or is in the file; a
/// timeout or the end of the run puts it there.
pub proof fn law_no_snapshot_is_lost(
    w: SnapshotWriter,
    file: Option<SessionSnapshot>,
    events: Seq<(WriterEvent, u64)>,
    now: u64,
)
    requires
        forall|i: int| 0 <= i < events.len() ==> !((#[trigger] events[i]).0 is Disconnected),
    ensures
        newest(state_after(w, events), file_after(w, file, events)) == last_snapshot(
            newest(w, file),
            events,
        ),
        file_after(w, file, events.push((WriterEvent::Timeout, now))) == last_snapshot(
            newest(w, file),
            events,
        ),
        file_after(w, file, events.push((WriterEvent::Disconnected, now))) == last_snapshot(
            newest(w, file),
            events,
        ),
    decreases events.len(),
{
    if events.len() > 0 {
        let init = events.drop_last();
        assert(forall|i: int| 0 <= i < init.len() ==> init[i] == events[i]);
        assert(!(events[events.len() - 1].0 is Disconnected));
        law_no_snapshot_is_lost(w, file, init, now);
    }
    assert(events.push((WriterEvent::Timeout, now)).drop_last() =~= events);
    assert(events.push((WriterEvent::Disconnected, now)).drop_last() =~= events);
}

/// While something is pending the writer wakes after at most the quiet time, and not later than
/// the limit after the first change; while nothing is, it never wakes by itself.
pub proof fn law_writes_are_not_put_off(w: SnapshotWriter, now: u64)
    requires
        w.wf(),
    ensures
        w.pending is Some <==> w.spec_timeout(now) is Some,
        w.pending is Some ==> w.spec_timeout(now)->0 <= QUIET,
        w.pending is Some && w.first_dirty->0 <= now ==> now + w.spec_timeout(now)->0 <= if now
            < w.first_dirty->0 + MAX_DEFER {
            w.first_dirty->0 + MAX_DEFER
        } else {
            now as int
        },
{
}

/// A snapshot waits for 300 milliseconds of quiet, but no longer than a second after the first
/// that was not written; without one there is nothing to wait for.
pub proof fn law_snapshots_wait_for_quiet(w: SnapshotWriter, t: u64, now: u64)
    requires
        t <= now,
    ensures
        w.first_dirty == Some(t) && now - t <= 700_000_000 ==> w.spec_timeout(now) == Some(
            300_000_000u64,
        ),
        w.first_dirty == Some(t) && 700_000_000 <= now - t <= 1_000_000_000 ==> w.spec_timeout(now)
            == Some((1_000_000_000 - (now - t)) as u64),
        w.first_dirty == Some(t) && now - t >= 1_000_000_000 ==> w.spec_timeout(now) == Some(0u64),
        w.first_dirty is None ==> w.spec_timeout(now) is None,
{
}

/// A snapshot replaces the one that waits and is written when it is quiet or at the end, when the
/// writer stops; what was written waits no more.
pub proof fn law_the_writer_keeps_the_last(w: SnapshotWriter, snap: SessionSnapshot, now: u64)
    ensures
        w.spec_after(WriterEvent::Snapshot(snap), now).pending == Some(snap),
        w.first_dirty is None ==> w.spec_after(WriterEvent::Snapshot(snap), now).first_dirty == Some(
            now,
        ),
        w.first_dirty is Some ==> w.spec_after(WriterEvent::Snapshot(snap), now).first_dirty
            == w.first_dirty,
        w.spec_step(WriterEvent::Snapshot(snap)).write is None,
        !w.spec_step(WriterEvent::Snapshot(snap)).stop,
        w.spec_step(WriterEvent::Timeout).write == w.pending,
        !w.spec_step(WriterEvent::Timeout).stop,
        w.spec_step(WriterEvent::Disconnected).write == w.pending,
        w.spec_step(WriterEvent::Disconnected).stop,
        w.spec_after(WriterEvent::Timeout, now).pending is None,
        w.spec_after(WriterEvent::Timeout, now).first_dirty is None,
        w.spec_after(WriterEvent::Disconnected, now).pending is None,
{
}

} // verus!
