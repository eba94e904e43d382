//! The campaign log: live counters and the set of coverage signatures under
//! which a crash has already been recorded.

use crate::platform::{clone_signatures, wall_clock_now};
use std::collections::HashSet;
use std::time::SystemTime;
use vstd::prelude::*;

verus! {

broadcast use vstd::std_specs::hash::group_hash_axioms;

/// Counters and crash signatures of one campaign.
pub struct Log {
    pub seed_count: u32,
    pub crash_count: u32,
    pub uniq_crash_count: u32,
    pub crash_paths: HashSet<u64>,
    pub start_time: SystemTime,
    pub exec_count: u64,
    pub total_node: u32,
}

/// What a [`Log`] stands for: its counters as natural numbers and its
/// signatures as a mathematical set.
pub struct LogView {
    pub seed_count: nat,
    pub crash_count: nat,
    pub uniq_crash_count: nat,
    pub crash_paths: Set<u64>,
    pub start_time: SystemTime,
    pub exec_count: nat,
    pub total_node: nat,
}

impl LogView {
    /// Every recorded signature was counted once as a unique crash, and
    /// every unique crash was counted as a crash.
    pub open spec fn wf(self) -> bool {
        &&& self.crash_paths.finite()
        &&& self.crash_paths.len() == self.uniq_crash_count
        &&& self.uniq_crash_count <= self.crash_count
    }

    /// The ordinal that a crash with signature `sig` is given in this state:
    /// none when the signature is known, else the next unique-crash number.
    pub open spec fn ordinal(self, sig: u64) -> Option<nat> {
        if self.crash_paths.contains(sig) {
            None
        } else {
            Some(self.uniq_crash_count + 1)
        }
    }

    /// The state after a crash with signature `sig` was reported.
    pub open spec fn report(self, sig: u64) -> LogView {
        LogView {
            crash_count: self.crash_count + 1,
            uniq_crash_count: if self.crash_paths.contains(sig) {
                self.uniq_crash_count
            } else {
                self.uniq_crash_count + 1
            },
            crash_paths: self.crash_paths.insert(sig),
            ..self
        }
    }

    /// The state after the crashes with the signatures `reports` were
    /// reported one after the other.
    pub open spec fn replay(self, reports: Seq<u64>) -> LogView
        decreases reports.len(),
    {
        if reports.len() == 0 {
            self
        } else {
            self.replay(reports.drop_last()).report(reports.last())
        }
    }

    /// The ordinals handed out while `reports` were reported, in the order
    /// in which they were handed out.
    pub open spec fn issued(self, reports: Seq<u64>) -> Seq<nat>
        decreases reports.len(),
    {
        if reports.len() == 0 {
            Seq::empty()
        } else {
            let earlier = self.issued(reports.drop_last());
            match self.replay(reports.drop_last()).ordinal(reports.last()) {
                Some(n) => earlier.push(n),
                None => earlier,
            }
        }
    }

    /// The signatures known once `reports` were reported.
    pub open spec fn known_after(self, reports: Seq<u64>) -> Set<u64> {
        self.crash_paths.union(reports.to_set())
    }
}

/// Reporting crashes keeps the log's invariant and moves only the two
/// crash counters and the signature set: the crash count grows by the number
/// of reports, duplicates included; the signatures are those known before
/// together with those reported; and the unique-crash count is the number of
/// distinct signatures known.
pub proof fn lemma_replay_tally(start: LogView, reports: Seq<u64>)
    requires
        start.wf(),
    ensures
        start.replay(reports).wf(),
        start.replay(reports).crash_count == start.crash_count + reports.len(),
        start.replay(reports).crash_paths == start.known_after(reports),
        start.replay(reports).uniq_crash_count == start.known_after(reports).len(),
        start.replay(reports).seed_count == start.seed_count,
        start.replay(reports).exec_count == start.exec_count,
        start.replay(reports).total_node == start.total_node,
        start.replay(reports).start_time == start.start_time,
    decreases reports.len(),
{
    broadcast use vstd::set::group_set_axioms, vstd::seq_lib::seq_to_set_is_finite;

    if reports.len() == 0 {
        assert(start.known_after(reports) =~= start.crash_paths);
    } else {
        let earlier = reports.drop_last();
        let sig = reports.last();
        lemma_replay_tally(start, earlier);
        earlier.lemma_push_to_set_commute(sig);
        assert(reports =~= earlier.push(sig));
        assert(start.known_after(reports) =~= start.known_after(earlier).insert(sig));
    }
}

/// Starting from an empty log, the unique-crash count is the number of
/// distinct signatures among the reports, and the crash count is the number
/// of reports.
pub proof fn lemma_replay_from_empty(start: LogView, reports: Seq<u64>)
    requires
        start.crash_count == 0,
        start.uniq_crash_count == 0,
        start.crash_paths == Set::<u64>::empty(),
    ensures
        start.replay(reports).uniq_crash_count == reports.to_set().len(),
        start.replay(reports).crash_paths == reports.to_set(),
        start.replay(reports).crash_count == reports.len(),
        start.issued(reports).len() == reports.to_set().len(),
{
    broadcast use vstd::set::group_set_axioms;

    lemma_replay_tally(start, reports);
    lemma_issued_is_consecutive(start, reports);
    assert(start.known_after(reports) =~= reports.to_set());
}

/// The ordinals handed out during a run of reports continue the count
/// without a gap and without a repeat: the first new signature gets the
/// number after the unique crashes known at the start, each further new
/// signature the next number, and the last one handed out is the
/// unique-crash count at the end.
pub proof fn lemma_issued_is_consecutive(start: LogView, reports: Seq<u64>)
    requires
        start.wf(),
    ensures
        start.issued(reports).len() == start.replay(reports).uniq_crash_count
            - start.uniq_crash_count,
        forall|j: int|
            0 <= j < start.issued(reports).len() ==> #[trigger] start.issued(reports)[j]
                == start.uniq_crash_count + j + 1,
    decreases reports.len(),
{
    if reports.len() > 0 {
        lemma_issued_is_consecutive(start, reports.drop_last());
        lemma_replay_tally(start, reports.drop_last());
    }
}

/// A report is given an ordinal exactly when its signature was neither
/// known at the start nor reported earlier in the run, and the ordinal is
/// then one more than the number of distinct signatures known before it: the
/// ordinals follow the order in which signatures first occur.
pub proof fn lemma_ordinal_follows_first_occurrence(start: LogView, reports: Seq<u64>, i: int)
    requires
        start.wf(),
        0 <= i < reports.len(),
    ensures
        start.replay(reports.take(i)).ordinal(reports[i]) == if start.known_after(
            reports.take(i),
        ).contains(reports[i]) {
            None
        } else {
            Some(start.known_after(reports.take(i)).len() + 1)
        },
{
    lemma_replay_tally(start, reports.take(i));
}

/// Of two reports that are both given an ordinal, the later one gets the
/// larger.
pub proof fn lemma_ordinals_increase(start: LogView, reports: Seq<u64>, i: int, j: int)
    requires
        start.wf(),
        0 <= i < j < reports.len(),
        start.replay(reports.take(i)).ordinal(reports[i]) is Some,
        start.replay(reports.take(j)).ordinal(reports[j]) is Some,
    ensures
        start.replay(reports.take(i)).ordinal(reports[i])->0 < start.replay(
            reports.take(j),
        ).ordinal(reports[j])->0,
    decreases j - i,
{
    let next = start.replay(reports.take(i + 1));
    assert(reports.take(i + 1).drop_last() =~= reports.take(i));
    assert(reports.take(i + 1).last() == reports[i]);
    assert(next == start.replay(reports.take(i)).report(reports[i]));
    lemma_replay_grows(start, reports, i + 1, j);
}

/// The unique-crash count never falls as more of a run is reported.
pub proof fn lemma_replay_grows(start: LogView, reports: Seq<u64>, i: int, j: int)
    requires
        0 <= i <= j <= reports.len(),
    ensures
        start.replay(reports.take(i)).uniq_crash_count <= start.replay(
            reports.take(j),
        ).uniq_crash_count,
        start.replay(reports.take(i)).crash_count <= start.replay(reports.take(j)).crash_count,
    decreases j - i,
{
    if i < j {
        lemma_replay_grows(start, reports, i, j - 1);
        assert(reports.take(j).drop_last() =~= reports.take(j - 1));
    }
}

impl View for Log {
    type V = LogView;

    open spec fn view(&self) -> LogView {
        LogView {
            seed_count: self.seed_count as nat,
            crash_count: self.crash_count as nat,
            uniq_crash_count: self.uniq_crash_count as nat,
            crash_paths: self.crash_paths@,
            start_time: self.start_time,
            exec_count: self.exec_count as nat,
            total_node: self.total_node as nat,
        }
    }
}

impl Log {
    /// The log's invariant, over its view.
    pub open spec fn wf(&self) -> bool {
        self@.wf()
    }

    /// A log with every counter at zero and no signature, stamped with the
    /// current time.
    pub fn new() -> (log: Self)
        ensures
            log.wf(),
            log@.seed_count == 0,
            log@.crash_count == 0,
            log@.uniq_crash_count == 0,
            log@.crash_paths == Set::<u64>::empty(),
            log@.exec_count == 0,
            log@.total_node == 0,
    {
        Log {
            seed_count: 0,
            crash_count: 0,
            uniq_crash_count: 0,
            crash_paths: HashSet::new(),
            start_time: wall_clock_now(),
            exec_count: 0,
            total_node: 0,
        }
    }

    /// Counts one crash and, when its signature `subpath` is new, records
    /// the signature and returns the crash's ordinal: the number of unique
    /// crashes so far, this one included. A known signature changes nothing
    /// but the crash count and yields `None`.
    pub fn record_crash(&mut self, subpath: u64) -> (ordinal: Option<u32>)
        requires
            old(self).wf(),
            old(self).crash_count < u32::MAX,
        ensures
            final(self).wf(),
            final(self)@ == old(self)@.report(subpath),
            match ordinal {
                Some(n) => old(self)@.ordinal(subpath) == Some(n as nat),
                None => old(self)@.ordinal(subpath) is None,
            },
            old(self)@.crash_paths.contains(subpath) ==> {
                &&& ordinal is None
                &&& final(self)@.uniq_crash_count == old(self)@.uniq_crash_count
                &&& final(self)@.crash_paths == old(self)@.crash_paths
            },
    {
        self.crash_count += 1;
        if self.crash_paths.insert(subpath) {
            self.uniq_crash_count += 1;
            Some(self.uniq_crash_count)
        } else {
            assert(self.crash_paths@ =~= old(self).crash_paths@);
            None
        }
    }
}

impl Clone for Log {
    /// A snapshot with the same counters, signatures and start time.
    fn clone(&self) -> (copy: Self)
        ensures
            copy@ == self@,
    {
        Log {
            seed_count: self.seed_count,
            crash_count: self.crash_count,
            uniq_crash_count: self.uniq_crash_count,
            crash_paths: clone_signatures(&self.crash_paths),
            start_time: self.start_time,
            exec_count: self.exec_count,
            total_node: self.total_node,
        }
    }
}

} // verus!
