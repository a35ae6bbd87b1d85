//! Polling of the two producer slots of the shared sensor region: new data
//! is recognised by each producer's sequence number and merged into the
//! sensor values; timestamps tell when a producer went stale (for example
//! frozen after sleep/resume). The application reads the slots and the
//! clock and logs the notices this tracker decides on.
use vstd::prelude::*;

use crate::payload::{key_value_map, parse_key_value, utf8_lossy};
use crate::sensor_values::SensorValues;
use crate::stats::{Producer, SlotSnapshot};

verus! {

/// The producers whose slots are polled, in polling order.
pub const PRODUCERS: [Producer; 2] = [Producer::HwBridge, Producer::SysInfo];

/// A producer whose timestamp is older than this many milliseconds counts
/// as stale (the largest refresh interval, 30 s, plus margin).
pub const STALE_AFTER_MS: u64 = 60_000;

/// Position of a producer in per-producer tables.
pub fn producer_index(producer: Producer) -> (i: usize)
    ensures
        i == match producer {
            Producer::HwBridge => 0usize,
            Producer::SysInfo => 1usize,
        },
{
    match producer {
        Producer::HwBridge => 0,
        Producer::SysInfo => 1,
    }
}

/// Display name of a producer for log messages.
pub fn producer_name(producer: Producer) -> (name: &'static str)
    ensures
        name@ == match producer {
            Producer::HwBridge => "HwBridge"@,
            Producer::SysInfo => "aster-sysinfo"@,
        },
{
    match producer {
        Producer::HwBridge => "HwBridge",
        Producer::SysInfo => "aster-sysinfo",
    }
}

/// What is remembered about one producer slot between polls.
#[derive(PartialEq, Eq, Structural, Clone, Copy, Debug)]
pub struct SlotWatch {
    /// Sequence of the last snapshot merged (0 before any).
    pub last_sequence: u64,
    /// A "not available / not written yet" notice was logged and not yet
    /// followed by new data.
    pub notice_logged: bool,
    /// A staleness warning was logged and the producer has not been fresh
    /// since.
    pub stale_warned: bool,
}

/// The initial watch state of a slot.
pub open spec fn fresh_watch() -> SlotWatch {
    SlotWatch { last_sequence: 0, notice_logged: false, stale_warned: false }
}

/// How the staleness of a producer changed with a poll.
#[derive(PartialEq, Eq, Structural, Clone, Copy, Debug)]
pub enum StaleChange {
    /// Stale now and not warned about before: warn.
    BecameStale,
    /// Fresh again after a warning.
    FreshAgain,
    /// No change worth a log line.
    Unchanged,
}

/// The outcome of observing one snapshot.
#[derive(PartialEq, Eq, Structural, Clone, Copy, Debug)]
pub struct SlotObservation {
    /// The snapshot carried a new sequence and its values were merged.
    pub merged: bool,
    /// Milliseconds since the snapshot's timestamp (0 if it lies ahead).
    pub age_ms: u64,
    /// Change of the staleness state.
    pub stale: StaleChange,
}

/// Age of a snapshot taken at `timestamp_ms`, seen at `now_ms`
/// (saturating at zero).
pub open spec fn snapshot_age(now_ms: u64, timestamp_ms: u64) -> u64 {
    if now_ms > timestamp_ms {
        (now_ms - timestamp_ms) as u64
    } else {
        0
    }
}

/// The watch state after observing `snap` at `now_ms`.
pub open spec fn watch_after(w: SlotWatch, snap: crate::stats::SlotModel, now_ms: u64) -> SlotWatch {
    let merged = snap.sequence != w.last_sequence;
    SlotWatch {
        last_sequence: snap.sequence,
        notice_logged: if merged {
            false
        } else {
            w.notice_logged
        },
        stale_warned: snapshot_age(now_ms, snap.timestamp_ms) > STALE_AFTER_MS,
    }
}

/// The staleness change of observing `snap` at `now_ms` in state `w`.
pub open spec fn stale_change(w: SlotWatch, snap: crate::stats::SlotModel, now_ms: u64) -> StaleChange {
    let stale = snapshot_age(now_ms, snap.timestamp_ms) > STALE_AFTER_MS;
    if stale && !w.stale_warned {
        StaleChange::BecameStale
    } else if !stale && w.stale_warned {
        StaleChange::FreshAgain
    } else {
        StaleChange::Unchanged
    }
}

/// Per-producer poll state of the shared sensor region.
pub struct ShmTracker {
    hw: SlotWatch,
    sys: SlotWatch,
}

impl ShmTracker {
    /// The remembered state of a producer's slot.
    pub closed spec fn watch(&self, producer: Producer) -> SlotWatch {
        match producer {
            Producer::HwBridge => self.hw,
            Producer::SysInfo => self.sys,
        }
    }

    /// Nothing seen yet.
    pub fn new() -> (t: Self)
        ensures
            t.watch(Producer::HwBridge) == fresh_watch(),
            t.watch(Producer::SysInfo) == fresh_watch(),
    {
        ShmTracker {
            hw: SlotWatch { last_sequence: 0, notice_logged: false, stale_warned: false },
            sys: SlotWatch { last_sequence: 0, notice_logged: false, stale_warned: false },
        }
    }

    fn get(&self, producer: Producer) -> (w: SlotWatch)
        ensures
            w == self.watch(producer),
    {
        match producer {
            Producer::HwBridge => self.hw,
            Producer::SysInfo => self.sys,
        }
    }

    fn set(&mut self, producer: Producer, w: SlotWatch)
        ensures
            final(self).watch(producer) == w,
            forall|q: Producer| q != producer ==> final(self).watch(q) == old(self).watch(q),
    {
        match producer {
            Producer::HwBridge => self.hw = w,
            Producer::SysInfo => self.sys = w,
        }
    }

    /// The region could not be opened: returns whether to log it, which is
    /// once until data arrives (the notice shares the HwBridge slot's
    /// flag).
    pub fn region_unavailable(&mut self) -> (log: bool)
        ensures
            log == !old(self).watch(Producer::HwBridge).notice_logged,
            final(self).watch(Producer::HwBridge) == (SlotWatch {
                notice_logged: true,
                ..old(self).watch(Producer::HwBridge)
            }),
            final(self).watch(Producer::SysInfo) == old(self).watch(Producer::SysInfo),
    {
        self.slot_unwritten(Producer::HwBridge)
    }

    /// A producer's slot was never written: returns whether to log it, which
    /// is once until data arrives.
    pub fn slot_unwritten(&mut self, producer: Producer) -> (log: bool)
        ensures
            log == !old(self).watch(producer).notice_logged,
            final(self).watch(producer) == (SlotWatch {
                notice_logged: true,
                ..old(self).watch(producer)
            }),
            forall|q: Producer| q != producer ==> final(self).watch(q) == old(self).watch(q),
    {
        let w = self.get(producer);
        self.set(producer, SlotWatch { notice_logged: true, ..w });
        !w.notice_logged
    }

    /// Observes a consistent snapshot of `producer`'s slot at `now_ms`
    /// (Unix epoch milliseconds). A new sequence merges the payload's
    /// values into `values` (payload values win); the snapshot's age
    /// updates the staleness state, which warns once per stale episode.
    pub fn observe(
        &mut self,
        producer: Producer,
        snapshot: &SlotSnapshot,
        now_ms: u64,
        values: &mut SensorValues,
    ) -> (r: SlotObservation)
        ensures
            r.merged == (snapshot.sequence != old(self).watch(producer).last_sequence),
            r.merged ==> final(values)@ == old(values)@.union_prefer_right(
                key_value_map(utf8_lossy(snapshot.payload@)),
            ),
            r.merged && vstd::utf8::valid_utf8(snapshot.payload@) ==> final(values)@ == old(
                values,
            )@.union_prefer_right(key_value_map(vstd::utf8::decode_utf8(snapshot.payload@))),
            !r.merged ==> final(values)@ == old(values)@,
            r.age_ms == snapshot_age(now_ms, snapshot.timestamp_ms),
            r.stale == stale_change(old(self).watch(producer), snapshot@, now_ms),
            final(self).watch(producer) == watch_after(
                old(self).watch(producer),
                snapshot@,
                now_ms,
            ),
            forall|q: Producer| q != producer ==> final(self).watch(q) == old(self).watch(q),
    {
        let w = self.get(producer);
        let merged = snapshot.sequence != w.last_sequence;
        if merged {
            let parsed = parse_key_value(snapshot.payload.as_slice());
            values.merge_from(&parsed);
        }
        let age_ms = now_ms.saturating_sub(snapshot.timestamp_ms);
        let stale_now = age_ms > STALE_AFTER_MS;
        let stale = if stale_now && !w.stale_warned {
            StaleChange::BecameStale
        } else if !stale_now && w.stale_warned {
            StaleChange::FreshAgain
        } else {
            StaleChange::Unchanged
        };
        self.set(
            producer,
            SlotWatch {
                last_sequence: snapshot.sequence,
                notice_logged: if merged {
                    false
                } else {
                    w.notice_logged
                },
                stale_warned: stale_now,
            },
        );
        SlotObservation { merged, age_ms, stale }
    }
}

/// Observing the same snapshot twice merges it at most once: after an
/// observation (at any time `t`) the slot's sequence counts as seen, so a
/// second observation of that snapshot does not merge and leaves the sensor
/// values alone.
pub proof fn lemma_second_observation_merges_nothing(
    w: SlotWatch,
    snap: crate::stats::SlotModel,
    t: u64,
)
    ensures
        watch_after(w, snap, t).last_sequence == snap.sequence,
        !(snap.sequence != watch_after(w, snap, t).last_sequence),
{
}

/// A stale producer is warned about once per stale episode: after a
/// warning, further stale observations report no change until the producer
/// is fresh again, and a fresh observation after a warning reports it.
pub proof fn lemma_stale_warning_once_per_episode(
    w: SlotWatch,
    s1: crate::stats::SlotModel,
    t1: u64,
    s2: crate::stats::SlotModel,
    t2: u64,
)
    requires
        snapshot_age(t1, s1.timestamp_ms) > STALE_AFTER_MS,
    ensures
        watch_after(w, s1, t1).stale_warned,
        snapshot_age(t2, s2.timestamp_ms) > STALE_AFTER_MS ==> stale_change(
            watch_after(w, s1, t1),
            s2,
            t2,
        ) == StaleChange::Unchanged,
        snapshot_age(t2, s2.timestamp_ms) <= STALE_AFTER_MS ==> stale_change(
            watch_after(w, s1, t1),
            s2,
            t2,
        ) == StaleChange::FreshAgain,
{
}

} // verus!
