//! The scan cycle and the shared snapshot.
//!
//! Exactly one snapshot is current at any instant. The scan task is the
//! only writer; the export endpoint and the console renderer only read.
//! Both sides go through a verified reader-writer lock: the writer holds
//! it just for the one swap that installs a fully built snapshot, and a
//! reader holds it just long enough to copy the rows out, never across
//! its own rendering. A reader therefore observes exactly the list some
//! completed cycle published — never a half-built or torn one.

use vstd::prelude::*;
use vstd::rwlock::RwLock;
use vstd::rwlock::RwLockPredicate;
use vstd::hash_map::StringHashMap;
use crate::classify::ScanConfig;
use crate::classify::config_wf;
use crate::classify::hard_filtered;
use crate::classify::reasons_spec;
use crate::db::AircraftInfo;
use crate::display::DefenseDisplay;
use crate::display::RowView;
use crate::display::clone_row;
use crate::display::lemma_join_reasons_nonempty;
use crate::display::row_view_spec;
use crate::display::row_wf;
use crate::record::Aircraft;
use crate::record::RawAircraft;
use crate::record::spec_from_fields;

verus! {

/// A snapshot is well formed when every row in it is.
pub open spec fn snapshot_wf(rows: Seq<DefenseDisplay>) -> bool {
    forall|i: int| 0 <= i < rows.len() ==> row_wf(rows[i])
}

/// What one raw feed entry contributes to a snapshot: one display row if
/// it parses, passes the hard filters and fires at least one trigger;
/// nothing otherwise.
pub open spec fn entry_views(
    r: RawAircraft,
    c: ScanConfig,
    db: Map<Seq<char>, AircraftInfo>,
) -> Seq<RowView> {
    match spec_from_fields(r) {
        Some(a) => if !hard_filtered(a, c) && reasons_spec(a, c).len() > 0 {
            seq![row_view_spec(a, reasons_spec(a, c), db)]
        } else {
            Seq::empty()
        },
        None => Seq::empty(),
    }
}

/// The rows a whole decoded batch yields, in feed order.
pub open spec fn snapshot_views(
    rs: Seq<RawAircraft>,
    c: ScanConfig,
    db: Map<Seq<char>, AircraftInfo>,
) -> Seq<RowView>
    decreases rs.len(),
{
    if rs.len() == 0 {
        Seq::empty()
    } else {
        snapshot_views(rs.drop_last(), c, db) + entry_views(rs.last(), c, db)
    }
}

/// Runs a decoded batch through record construction, classification and
/// display enrichment, in feed order: the new snapshot.
pub fn build_snapshot(
    raws: &Vec<RawAircraft>,
    cfg: &ScanConfig,
    db: &StringHashMap<AircraftInfo>,
) -> (rows: Vec<DefenseDisplay>)
    requires
        config_wf(*cfg),
    ensures
        rows@.map_values(|r: DefenseDisplay| r@) == snapshot_views(raws@, *cfg, db@),
        snapshot_wf(rows@),
{
    let mut rows: Vec<DefenseDisplay> = Vec::new();
    let mut i: usize = 0;
    while i < raws.len()
        invariant
            i <= raws@.len(),
            config_wf(*cfg),
            rows@.map_values(|r: DefenseDisplay| r@) == snapshot_views(
                raws@.take(i as int),
                *cfg,
                db@,
            ),
            snapshot_wf(rows@),
        decreases raws@.len() - i,
    {
        let ghost prev = rows@;
        match Aircraft::from_fields(&raws[i]) {
            Some(a) => {
                match a.classify(cfg) {
                    Some(reasons) => {
                        let row = DefenseDisplay::new(&a, &reasons, db);
                        proof {
                            lemma_join_reasons_nonempty(reasons@);
                        }
                        rows.push(row);
                        proof {
                            assert(rows@.map_values(|r: DefenseDisplay| r@) =~= prev.map_values(
                                |r: DefenseDisplay| r@,
                            ).push(row@));
                        }
                    },
                    None => {},
                }
            },
            None => {},
        }
        proof {
            assert(raws@.take(i + 1).drop_last() =~= raws@.take(i as int));
            assert(raws@.take(i + 1).last() == raws@[i as int]);
        }
        i = i + 1;
    }
    proof {
        assert(raws@.take(raws@.len() as int) =~= raws@);
    }
    rows
}

/// The invariant the snapshot lock maintains of every stored value.
pub struct SnapshotInv {}

impl RwLockPredicate<Vec<DefenseDisplay>> for SnapshotInv {
    open spec fn inv(self, v: Vec<DefenseDisplay>) -> bool {
        snapshot_wf(v@)
    }
}

/// The one current snapshot, shared between the scan task (the only
/// writer) and any number of concurrent readers. Replacement is a single
/// swap under the write lock; reads copy the whole list out under the
/// read lock. No reader can ever observe a list that is not exactly one
/// published snapshot in full.
pub struct SnapshotStore {
    lock: RwLock<Vec<DefenseDisplay>, SnapshotInv>,
}

impl SnapshotStore {
    /// A store holding the empty snapshot: what readers see before the
    /// first completed cycle.
    pub fn new() -> (s: Self) {
        SnapshotStore { lock: RwLock::new(Vec::new(), Ghost(SnapshotInv {  })) }
    }

    /// Atomically replaces the published snapshot. The lock is held only
    /// for the swap itself, never across a fetch or classification.
    pub fn publish(&self, rows: Vec<DefenseDisplay>)
        requires
            snapshot_wf(rows@),
    {
        let (_stale, handle) = self.lock.acquire_write();
        handle.release_write(rows);
    }

    /// Copies the current snapshot out. The read lock is held only for
    /// the copy, never across the caller's rendering.
    pub fn read(&self) -> (rows: Vec<DefenseDisplay>)
        ensures
            snapshot_wf(rows@),
    {
        let handle = self.lock.acquire_read();
        let borrowed = handle.borrow();
        let mut rows: Vec<DefenseDisplay> = Vec::new();
        let mut i: usize = 0;
        while i < borrowed.len()
            invariant
                i <= borrowed@.len(),
                rows@ =~= borrowed@.take(i as int),
                snapshot_wf(borrowed@),
            decreases borrowed@.len() - i,
        {
            let c = clone_row(&borrowed[i]);
            rows.push(c);
            i = i + 1;
        }
        proof {
            assert(borrowed@.take(borrowed@.len() as int) =~= borrowed@);
        }
        handle.release_read();
        rows
    }
}

/// What one cycle's fetch came back with: a transport or decode failure,
/// or a decoded batch (an absent aircraft list decodes to an empty
/// batch, which is not a failure).
pub enum FetchOutcome {
    Failed,
    Decoded(Vec<RawAircraft>),
}

/// One scan cycle's decision, taken after the fetch has completed and
/// been decoded outside this crate. A failure leaves the published
/// snapshot untouched — stale but valid data beats a blank display — and
/// yields nothing; a decoded batch is classified, published atomically,
/// and handed back for rendering.
pub fn scan_cycle(
    store: &SnapshotStore,
    outcome: FetchOutcome,
    cfg: &ScanConfig,
    db: &StringHashMap<AircraftInfo>,
) -> (published: Option<Vec<DefenseDisplay>>)
    requires
        config_wf(*cfg),
    ensures
        match published {
            Some(rows) => outcome is Decoded && rows@.map_values(|r: DefenseDisplay| r@)
                == snapshot_views(outcome->Decoded_0@, *cfg, db@) && snapshot_wf(rows@),
            None => outcome is Failed,
        },
{
    match outcome {
        FetchOutcome::Failed => None,
        FetchOutcome::Decoded(raws) => {
            let rows = build_snapshot(&raws, cfg, db);
            let copy = {
                let mut c: Vec<DefenseDisplay> = Vec::new();
                let mut i: usize = 0;
                while i < rows.len()
                    invariant
                        i <= rows@.len(),
                        c@ =~= rows@.take(i as int),
                    decreases rows@.len() - i,
                {
                    let r = clone_row(&rows[i]);
                    c.push(r);
                    i = i + 1;
                }
                proof {
                    assert(rows@.take(rows@.len() as int) =~= rows@);
                }
                c
            };
            store.publish(copy);
            Some(rows)
        },
    }
}


/// Law: an aircraft the hard altitude filters exclude — or one that
/// does not even parse — contributes no row to the snapshot at all, not
/// an empty-but-present entry.
pub proof fn lemma_hard_filter_excludes(
    r: RawAircraft,
    c: ScanConfig,
    db: Map<Seq<char>, AircraftInfo>,
)
    requires
        match spec_from_fields(r) {
            Some(a) => hard_filtered(a, c),
            None => true,
        },
    ensures
        entry_views(r, c, db) =~= Seq::<RowView>::empty(),
{
}

} // verus!
