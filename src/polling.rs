use vstd::prelude::*;
use crate::snapshot::contains_pid;

verus! {

/// The identifiers evaluated in a tick whose snapshot is `current`, when
/// `processed` holds what earlier ticks have already evaluated.
pub open spec fn newly_seen(processed: Set<u32>, current: Set<u32>) -> Set<u32> {
    current.difference(processed)
}

/// The processed set after a tick: that tick's snapshot, replacing the old one.
pub open spec fn next_processed(processed: Set<u32>, current: Set<u32>) -> Set<u32> {
    current
}

/// The processed set before tick `k` (counting from 0) of the run whose
/// snapshots are `snaps`, starting from the empty set.
pub open spec fn processed_before(snaps: Seq<Set<u32>>, k: nat) -> Set<u32>
    decreases k,
{
    if k == 0 {
        Set::empty()
    } else {
        next_processed(processed_before(snaps, (k - 1) as nat), snaps[k - 1])
    }
}

/// The identifiers evaluated against the rules in tick `k` of that run.
pub open spec fn evaluated_in(snaps: Seq<Set<u32>>, k: nat) -> Set<u32> {
    newly_seen(processed_before(snaps, k), snaps[k as int])
}

/// The snapshot before tick `k`, the empty set before the first.
pub open spec fn previous_snapshot(snaps: Seq<Set<u32>>, k: nat) -> Set<u32> {
    if k == 0 {
        Set::empty()
    } else {
        snaps[k - 1]
    }
}

/// The identifiers of `current` that `processed` does not hold, each once.
pub fn new_pids(current: &Vec<u32>, processed: &Vec<u32>) -> (r: Vec<u32>)
    ensures
        r@.to_set() == newly_seen(processed@.to_set(), current@.to_set()),
        current@.no_duplicates() ==> r@.no_duplicates(),
{
    let mut r: Vec<u32> = Vec::new();
    let mut i: usize = 0;
    while i < current.len()
        invariant
            i <= current@.len(),
            forall|q: u32|
                r@.contains(q) <==> (current@.subrange(0, i as int).contains(q)
                    && !processed@.contains(q)),
            current@.no_duplicates() ==> r@.no_duplicates(),
        decreases current.len() - i,
    {
        let ghost before = r@;
        let pid = current[i];
        let seen = contains_pid(processed, pid);
        if !seen {
            proof {
                if current@.no_duplicates() {
                    assert(!current@.subrange(0, i as int).contains(pid));
                }
            }
            r.push(pid);
        }
        assert forall|q: u32|
            r@.contains(q) <==> (current@.subrange(0, i + 1).contains(q)
                && !processed@.contains(q)) by {
            let pre = current@.subrange(0, i as int);
            let next = current@.subrange(0, i + 1);
            assert(next =~= pre.push(pid));
            if before.contains(q) {
                let k = before.index_of(q);
                assert(r@[k] == q);
            }
            if r@.contains(q) && !before.contains(q) {
                let k = r@.index_of(q);
                assert(k == before.len());
                assert(q == pid && !seen);
                assert(next[i as int] == q);
            }
            if before.contains(q) {
                assert(pre.contains(q) && !processed@.contains(q));
            }
            if pre.contains(q) {
                let k = pre.index_of(q);
                assert(next[k] == q);
            }
            if next.contains(q) && !pre.contains(q) {
                let k = next.index_of(q);
                assert(k == pre.len());
            }
            if q == pid && !seen {
                assert(r@[r@.len() - 1] == q);
            }
        }
        i = i + 1;
    }
    assert(current@.subrange(0, current@.len() as int) =~= current@);
    assert(r@.to_set() =~= newly_seen(processed@.to_set(), current@.to_set()));
    r
}

/// The daemon's loop state: the identifiers of the most recent snapshot.
pub struct PollState {
    processed: Vec<u32>,
}

impl View for PollState {
    type V = Set<u32>;

    closed spec fn view(&self) -> Set<u32> {
        self.processed@.to_set()
    }
}

impl PollState {
    /// The state before the first tick: nothing processed.
    pub fn new() -> (r: PollState)
        ensures
            r@ == Set::<u32>::empty(),
    {
        let r = PollState { processed: Vec::new() };
        assert(r@ =~= Set::<u32>::empty());
        r
    }

    /// Whether `pid` has been processed.
    pub fn is_processed(&self, pid: u32) -> (r: bool)
        ensures
            r == self@.contains(pid),
    {
        contains_pid(&self.processed, pid)
    }

    /// Runs the bookkeeping of one tick on `snapshot`: returns the
    /// identifiers to evaluate against the rules, and replaces the processed
    /// set with the snapshot.
    pub fn tick(&mut self, snapshot: Vec<u32>) -> (r: Vec<u32>)
        ensures
            r@.to_set() == newly_seen(old(self)@, snapshot@.to_set()),
            snapshot@.no_duplicates() ==> r@.no_duplicates(),
            final(self)@ == next_processed(old(self)@, snapshot@.to_set()),
    {
        let r = new_pids(&snapshot, &self.processed);
        self.processed = snapshot;
        r
    }
}

/// In every tick the identifiers evaluated are exactly those of its snapshot
/// that were not in the snapshot before it (nothing before the first).
pub proof fn lemma_evaluated_is_difference(snaps: Seq<Set<u32>>, k: nat)
    requires
        k < snaps.len(),
    ensures
        evaluated_in(snaps, k) == snaps[k as int].difference(previous_snapshot(snaps, k)),
{
}

/// An identifier present in every snapshot from tick `i` to tick `k`, with
/// `i < k`, is not evaluated in tick `k`: while it stays, it is evaluated
/// at most once.
pub proof fn lemma_present_not_reevaluated(snaps: Seq<Set<u32>>, i: nat, k: nat, pid: u32)
    requires
        i < k < snaps.len(),
        forall|m: int| i <= m <= k ==> #[trigger] snaps[m].contains(pid),
    ensures
        !evaluated_in(snaps, k).contains(pid),
{
    assert(snaps[k - 1].contains(pid));
}

/// An identifier that is in the snapshot of tick `k` and was not in the
/// snapshot before it is evaluated in tick `k`, whatever earlier snapshots held.
pub proof fn lemma_reappearing_evaluated(snaps: Seq<Set<u32>>, k: nat, pid: u32)
    requires
        k < snaps.len(),
        snaps[k as int].contains(pid),
        !previous_snapshot(snaps, k).contains(pid),
    ensures
        evaluated_in(snaps, k).contains(pid),
{
}

/// An identifier that no snapshot holds, such as the daemon's own, is never
/// evaluated.
pub proof fn lemma_absent_never_evaluated(snaps: Seq<Set<u32>>, pid: u32)
    requires
        forall|m: int| 0 <= m < snaps.len() ==> !(#[trigger] snaps[m]).contains(pid),
    ensures
        forall|k: nat| k < snaps.len() ==> !(#[trigger] evaluated_in(snaps, k)).contains(pid),
{
}

} // verus!
