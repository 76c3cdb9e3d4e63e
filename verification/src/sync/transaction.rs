use vstd::prelude::*;
use std::collections::{HashMap, HashSet};
use std::time::{Duration, Instant};

use vstd::std_specs::iter::IteratorSpec;

use crate::state::window::WindowId;

verus! {

broadcast use vstd::std_specs::hash::group_hash_axioms;

/// Fail-safe timeout, in milliseconds, after which a pending transaction is dropped.
pub const TRANSACTION_TIMEOUT_MS: u64 = 300;

#[verifier::external_type_specification]
#[verifier::external_body]
pub struct ExInstant(Instant);

/// `Instant::now`: a reading of the monotonic clock. Nothing is stated of its value.
#[verifier::external_body]
fn clock_now() -> Instant {
    Instant::now()
}

/// `Instant::elapsed`: the time that passed since `start`, by the clock. Nothing is stated
/// of it.
#[verifier::external_body]
fn clock_elapsed(start: &Instant) -> Duration {
    start.elapsed()
}

/// `Duration::as_millis`: the whole milliseconds of `d`. The duration is opaque, so nothing
/// is stated of the number.
#[verifier::external_body]
fn duration_millis(d: &Duration) -> u128 {
    d.as_millis()
}

/// The window numbers of `windows`, as a set.
pub open spec fn window_numbers(windows: Seq<WindowId>) -> Set<u64> {
    Set::new(|k: u64| exists|i: int| 0 <= i < windows.len() && #[trigger] windows[i].0 == k)
}

/// What the transaction logic reads of a transaction: its id and the windows (by number)
/// that still owe a commit and that already committed.
pub struct TransactionView {
    pub id: u64,
    /// The fail-safe deadline, in milliseconds after the transaction started.
    pub deadline_ms: u64,
    pub pending: Set<u64>,
    pub committed: Set<u64>,
}

/// `t` after window `w` committed: a pending window moves to the committed ones.
pub open spec fn after_commit(t: TransactionView, w: u64) -> TransactionView {
    if t.pending.contains(w) {
        TransactionView {
            id: t.id,
            deadline_ms: t.deadline_ms,
            pending: t.pending.remove(w),
            committed: t.committed.insert(w),
        }
    } else {
        t
    }
}

/// A synchronized multi-window resize transaction: presentation waits until every resized
/// window committed a new framebuffer, so that the layout does not tear.
#[derive(Debug)]
pub struct Transaction {
    pub id: u64,
    /// When the transaction started.
    pub started: Instant,
    /// The fail-safe deadline, in milliseconds after `started`.
    pub deadline_ms: u64,
    /// Numbers of the windows that have not committed yet.
    pub pending_windows: HashSet<u64>,
    /// Numbers of the windows that already committed.
    pub committed_windows: HashSet<u64>,
}

impl View for Transaction {
    type V = TransactionView;

    open spec fn view(&self) -> TransactionView {
        TransactionView {
            id: self.id,
            deadline_ms: self.deadline_ms,
            pending: self.pending_windows@,
            committed: self.committed_windows@,
        }
    }
}

impl Transaction {
    /// A transaction waiting for each of `windows`, starting now and due
    /// `TRANSACTION_TIMEOUT_MS` after that.
    pub fn new(id: u64, windows: &[WindowId]) -> (t: Transaction)
        ensures
            t@ == (TransactionView {
                id,
                deadline_ms: TRANSACTION_TIMEOUT_MS,
                pending: window_numbers(windows@),
                committed: Set::empty(),
            }),
    {
        let mut pending_windows: HashSet<u64> = HashSet::new();
        let mut i: usize = 0;
        while i < windows.len()
            invariant
                i <= windows@.len(),
                pending_windows@ == window_numbers(windows@.take(i as int)),
            decreases windows@.len() - i,
        {
            pending_windows.insert(windows[i].0);
            proof {
                let s = windows@.take(i + 1);
                assert(s.drop_last() =~= windows@.take(i as int));
                assert forall|k: u64| #[trigger] window_numbers(s).contains(k) == pending_windows@.contains(k) by {
                    if window_numbers(s).contains(k) {
                        let j = choose|j: int| 0 <= j < s.len() && #[trigger] s[j].0 == k;
                        if j < i {
                            assert(windows@.take(i as int)[j].0 == k);
                        }
                    }
                    if pending_windows@.contains(k) && k != windows@[i as int].0 {
                        let j = choose|j: int| 0 <= j < i && #[trigger] windows@.take(i as int)[j].0 == k;
                        assert(s[j].0 == k);
                    }
                    if k == windows@[i as int].0 {
                        assert(s[i as int].0 == k);
                    }
                }
                assert(window_numbers(s) =~= pending_windows@);
            }
            i = i + 1;
        }
        proof {
            assert(windows@.take(windows@.len() as int) =~= windows@);
        }
        Transaction {
            id,
            started: clock_now(),
            deadline_ms: TRANSACTION_TIMEOUT_MS,
            pending_windows,
            committed_windows: HashSet::new(),
        }
    }

    /// Marks `window_id` as committed; returns whether every window has committed now.
    pub fn on_commit(&mut self, window_id: WindowId) -> (complete: bool)
        ensures
            final(self)@ == after_commit(old(self)@, window_id.0),
            final(self).started == old(self).started,
            complete == final(self)@.pending.is_empty(),
    {
        if self.pending_windows.remove(&window_id.0) {
            self.committed_windows.insert(window_id.0);
        }
        proof {
            assert(self.pending_windows@ =~= after_commit(old(self)@, window_id.0).pending);
            assert(self.committed_windows@ =~= after_commit(old(self)@, window_id.0).committed);
        }
        self.is_complete()
    }

    /// Whether every window has committed its new size.
    pub fn is_complete(&self) -> (r: bool)
        ensures
            r == self@.pending.is_empty(),
    {
        self.pending_windows.is_empty()
    }

    /// Whether the fail-safe deadline has passed once `elapsed_ms` milliseconds went by since
    /// the transaction started.
    pub fn is_expired_at(&self, elapsed_ms: u64) -> (r: bool)
        ensures
            r == (elapsed_ms >= self@.deadline_ms),
    {
        elapsed_ms >= self.deadline_ms
    }

    /// The whole milliseconds that passed since the transaction started, by the clock, at
    /// most `u64::MAX`.
    pub fn elapsed_ms(&self) -> u64 {
        let ms = duration_millis(&clock_elapsed(&self.started));
        if ms > u64::MAX as u128 {
            u64::MAX
        } else {
            ms as u64
        }
    }

    /// Whether the fail-safe deadline has passed, by the clock: `is_expired_at` on
    /// `elapsed_ms()`. The time that passed is the clock's, so the answer is not stated here;
    /// `is_expired_at` states it for each reading.
    pub fn is_expired(&self) -> bool {
        let elapsed = self.elapsed_ms();
        self.is_expired_at(elapsed)
    }
}

/// Tracks the multi-window resize transactions in flight.
#[derive(Debug)]
pub struct TransactionManager {
    next_id: u64,
    pub active_transactions: HashMap<u64, Transaction>,
}

/// The transactions `m` keeps after window `w` committed and the transactions listed in
/// `expired` timed out: those still waiting for a window, each with `w` committed.
pub open spec fn kept_after_commit(m: Map<u64, Transaction>, w: u64, expired: Seq<u64>, k: u64) -> bool {
    &&& m.contains_key(k)
    &&& !after_commit(m[k]@, w).pending.is_empty()
    &&& !expired.contains(k)
}

impl TransactionManager {
    /// The id the next transaction gets.
    pub closed spec fn next_tx_id(&self) -> u64 {
        self.next_id
    }

    /// The transactions in flight, by id.
    pub closed spec fn transactions(&self) -> Map<u64, Transaction> {
        self.active_transactions@
    }

    /// The id the next transaction gets.
    pub fn next_id(&self) -> (r: u64)
        ensures
            r == self.next_tx_id(),
    {
        self.next_id
    }

    pub fn new() -> (m: TransactionManager)
        ensures
            m.next_tx_id() == 1,
            m.transactions() == Map::<u64, Transaction>::empty(),
    {
        TransactionManager { next_id: 1, active_transactions: HashMap::new() }
    }

    /// Starts a transaction waiting for `windows` and returns its id; a transaction with no
    /// window to wait for is complete at once and is not kept.
    pub fn create_transaction(&mut self, windows: &[WindowId]) -> (id: u64)
        requires
            old(self).next_tx_id() < u64::MAX,
        ensures
            id == old(self).next_tx_id(),
            final(self).next_tx_id() == id + 1,
            window_numbers(windows@).is_empty() ==> final(self).transactions()
                == old(self).transactions(),
            !window_numbers(windows@).is_empty() ==> {
                &&& final(self).transactions() == old(self).transactions().insert(
                    id,
                    final(self).transactions()[id],
                )
                &&& final(self).transactions()[id]@ == (TransactionView {
                    id,
                    deadline_ms: TRANSACTION_TIMEOUT_MS,
                    pending: window_numbers(windows@),
                    committed: Set::empty(),
                })
            },
    {
        let id = self.next_id;
        self.next_id = self.next_id + 1;
        let tx = Transaction::new(id, windows);
        if !tx.is_complete() {
            self.active_transactions.insert(id, tx);
        }
        id
    }

    /// The ids of the transactions in flight, each once.
    fn transaction_ids(&self) -> (ids: Vec<u64>)
        ensures
            ids@.no_duplicates(),
            forall|k: u64| ids@.contains(k) <==> self.transactions().contains_key(k),
    {
        let mut v: Vec<u64> = Vec::new();
        let ghost s = vstd::std_specs::hash::spec_keys_iter(&self.active_transactions).remaining();
        for k in it: self.active_transactions.keys()
            invariant
                it.seq() == s,
                v@ == s.take(it.index()).map_values(|x: &u64| *x),
        {
            v.push(*k);
        }
        proof {
            assert(v@ =~= s.map_values(|x: &u64| *x));
            assert(s.unref().to_set() == self.active_transactions@.dom());
            assert forall|a: int, b: int| 0 <= a < b < v@.len() implies v@[a] != v@[b] by {
                assert(s[a] != s[b]);
            }
            assert forall|k: u64| v@.contains(k) <==> self.active_transactions@.contains_key(k) by {
                if v@.contains(k) {
                    let i = choose|i: int| 0 <= i < v@.len() && v@[i] == k;
                    assert(s.unref()[i] == k);
                    assert(s.unref().to_set().contains(k));
                }
                if self.active_transactions@.contains_key(k) {
                    assert(s.unref().to_set().contains(k));
                    let i = choose|i: int| 0 <= i < s.unref().len() && s.unref()[i] == k;
                    assert(v@[i] == k);
                }
            }
        }
        v
    }

    /// The ids of the transactions whose deadline has passed, by the clock: transactions in
    /// flight, each listed once. Which of them have expired depends on the clock.
    fn expired_ids(&self) -> (ids: Vec<u64>)
        ensures
            ids@.no_duplicates(),
            forall|k: u64| ids@.contains(k) ==> self.transactions().contains_key(k),
    {
        let keys = self.transaction_ids();
        let mut ids: Vec<u64> = Vec::new();
        let mut i: usize = 0;
        while i < keys.len()
            invariant
                i <= keys@.len(),
                keys@.no_duplicates(),
                forall|k: u64| keys@.contains(k) ==> self.transactions().contains_key(k),
                ids@.no_duplicates(),
                forall|k: u64| ids@.contains(k) ==> keys@.take(i as int).contains(k),
            decreases keys@.len() - i,
        {
            let k = keys[i];
            assert(keys@.contains(k));
            let tx = self.active_transactions.get(&k).unwrap();
            proof {
                assert forall|x: u64| keys@.take(i as int).contains(x) implies keys@.take(i + 1).contains(x) by {
                    let j = choose|j: int| 0 <= j < i && keys@.take(i as int)[j] == x;
                    assert(keys@.take(i + 1)[j] == x);
                }
                assert(keys@.take(i + 1)[i as int] == k);
                if keys@.take(i as int).contains(k) {
                    let j = choose|j: int| 0 <= j < i && keys@.take(i as int)[j] == k;
                    assert(keys@[j] == keys@[i as int]);
                }
            }
            let ghost before = ids@;
            if tx.is_expired() {
                ids.push(k);
                proof {
                    assert(!before.contains(k));
                    assert forall|x: u64| ids@.contains(x) implies keys@.take(i + 1).contains(x) by {
                        let j = choose|j: int| 0 <= j < ids@.len() && ids@[j] == x;
                        if j < before.len() {
                            assert(before[j] == x);
                            assert(before.contains(x));
                        }
                    }
                    assert forall|a: int, b: int| 0 <= a < ids@.len() && 0 <= b < ids@.len() && a != b implies ids@[a] != ids@[b] by {
                        if a < before.len() && b < before.len() {
                            assert(before[a] != before[b]);
                        } else if a < before.len() {
                            assert(before.contains(before[a]));
                        } else if b < before.len() {
                            assert(before.contains(before[b]));
                        }
                    }
                }
            }
            i = i + 1;
        }
        proof {
            assert(keys@.take(keys@.len() as int) =~= keys@);
        }
        ids
    }

    /// Records that window `window_id` committed a new surface, and drops the transactions
    /// that are complete now or expired. Which transactions expired depends on the clock:
    /// those that became complete are dropped in any case, and the others are kept or
    /// dropped whole.
    pub fn on_surface_commit(&mut self, window_id: WindowId)
        ensures
            final(self).next_tx_id() == old(self).next_tx_id(),
            forall|k: u64| #[trigger] final(self).transactions().contains_key(k) ==> {
                &&& old(self).transactions().contains_key(k)
                &&& final(self).transactions()[k]@ == after_commit(old(self).transactions()[k]@, window_id.0)
                &&& final(self).transactions()[k].started == old(self).transactions()[k].started
                &&& !final(self).transactions()[k]@.pending.is_empty()
            },
    {
        let expired = self.expired_ids();
        self.apply_commit(window_id, &expired);
    }

    /// Records that window `window_id` committed a new surface, and drops the transactions
    /// that are complete now or listed in `expired`.
    pub fn apply_commit(&mut self, window_id: WindowId, expired: &[u64])
        ensures
            final(self).next_tx_id() == old(self).next_tx_id(),
            forall|k: u64| #[trigger] final(self).transactions().contains_key(k) <==> kept_after_commit(
                old(self).transactions(),
                window_id.0,
                expired@,
                k,
            ),
            forall|k: u64| #[trigger] final(self).transactions().contains_key(k) ==> {
                &&& final(self).transactions()[k]@ == after_commit(old(self).transactions()[k]@, window_id.0)
                &&& final(self).transactions()[k].started == old(self).transactions()[k].started
            },
    {
        let ghost m0 = self.active_transactions@;
        let keys = self.transaction_ids();
        proof {
            assert forall|j: int| 0 <= j < keys@.len() implies m0.contains_key(#[trigger] keys@[j]) by {
                assert(keys@.contains(keys@[j]));
            }
        }
        let mut i: usize = 0;
        while i < keys.len()
            invariant
                i <= keys@.len(),
                keys@.no_duplicates(),
                forall|k: u64| keys@.contains(k) <==> m0.contains_key(k),
                self.next_id == old(self).next_id,
                m0 == old(self).active_transactions@,
                forall|k: u64| #[trigger] self.active_transactions@.contains_key(k) ==> m0.contains_key(k),
                forall|j: int| 0 <= j < i ==> {
                    let k = #[trigger] keys@[j];
                    &&& self.active_transactions@.contains_key(k) == kept_after_commit(m0, window_id.0, expired@, k)
                    &&& self.active_transactions@.contains_key(k) ==> {
                        &&& self.active_transactions@[k]@ == after_commit(m0[k]@, window_id.0)
                        &&& self.active_transactions@[k].started == m0[k].started
                    }
                },
                forall|j: int| i <= j < keys@.len() ==> {
                    let k = #[trigger] keys@[j];
                    self.active_transactions@.contains_key(k) && self.active_transactions@[k] == m0[k]
                },
            decreases keys@.len() - i,
        {
            let k = keys[i];
            let mut tx = self.active_transactions.remove(&k).unwrap();
            let complete = tx.on_commit(window_id);
            let listed = contains_id(expired, k);
            if !complete && !listed {
                self.active_transactions.insert(k, tx);
            }
            proof {
                assert forall|j: int| 0 <= j < i + 1 implies {
                    let k2 = #[trigger] keys@[j];
                    &&& self.active_transactions@.contains_key(k2) == kept_after_commit(m0, window_id.0, expired@, k2)
                    &&& self.active_transactions@.contains_key(k2) ==> {
                        &&& self.active_transactions@[k2]@ == after_commit(m0[k2]@, window_id.0)
                        &&& self.active_transactions@[k2].started == m0[k2].started
                    }
                } by {
                    if j < i {
                        assert(keys@[j] != k);
                    }
                }
                assert forall|j: int| i + 1 <= j < keys@.len() implies {
                    let k2 = #[trigger] keys@[j];
                    self.active_transactions@.contains_key(k2) && self.active_transactions@[k2] == m0[k2]
                } by {
                    assert(keys@[j] != k);
                }
            }
            i = i + 1;
        }
        proof {
            assert forall|k: u64| #[trigger] self.active_transactions@.contains_key(k) <==> kept_after_commit(
                m0,
                window_id.0,
                expired@,
                k,
            ) by {
                if m0.contains_key(k) || self.active_transactions@.contains_key(k) {
                    assert(keys@.contains(k));
                    let j = choose|j: int| 0 <= j < keys@.len() && keys@[j] == k;
                    assert(keys@[j] == k);
                }
            }
        }
    }

    /// Drops the transactions whose deadline passed or that are complete. Which ones expired
    /// depends on the clock: complete ones are dropped in any case, and the others are kept
    /// unchanged or dropped.
    pub fn prune_expired(&mut self)
        ensures
            final(self).next_tx_id() == old(self).next_tx_id(),
            forall|k: u64| #[trigger] final(self).transactions().contains_key(k) ==> {
                &&& old(self).transactions().contains_key(k)
                &&& final(self).transactions()[k] == old(self).transactions()[k]
                &&& !final(self).transactions()[k]@.pending.is_empty()
            },
    {
        let expired = self.expired_ids();
        self.retain_live(&expired);
    }

    /// Drops the transactions that are complete or listed in `expired`; the others stay as
    /// they are.
    pub fn retain_live(&mut self, expired: &[u64])
        ensures
            final(self).next_tx_id() == old(self).next_tx_id(),
            forall|k: u64| #[trigger] final(self).transactions().contains_key(k) <==> {
                &&& old(self).transactions().contains_key(k)
                &&& !old(self).transactions()[k]@.pending.is_empty()
                &&& !expired@.contains(k)
            },
            forall|k: u64| #[trigger] final(self).transactions().contains_key(k)
                ==> final(self).transactions()[k] == old(self).transactions()[k],
    {
        let ghost m0 = self.active_transactions@;
        let keys = self.transaction_ids();
        proof {
            assert forall|j: int| 0 <= j < keys@.len() implies m0.contains_key(#[trigger] keys@[j]) by {
                assert(keys@.contains(keys@[j]));
            }
        }
        let mut i: usize = 0;
        while i < keys.len()
            invariant
                i <= keys@.len(),
                keys@.no_duplicates(),
                forall|k: u64| keys@.contains(k) <==> m0.contains_key(k),
                self.next_id == old(self).next_id,
                m0 == old(self).active_transactions@,
                forall|k: u64| #[trigger] self.active_transactions@.contains_key(k) ==> m0.contains_key(k)
                    && self.active_transactions@[k] == m0[k],
                forall|j: int| 0 <= j < i ==> {
                    let k = #[trigger] keys@[j];
                    self.active_transactions@.contains_key(k) == (!m0[k]@.pending.is_empty() && !expired@.contains(k))
                },
                forall|j: int| i <= j < keys@.len() ==> #[trigger] self.active_transactions@.contains_key(keys@[j]),
            decreases keys@.len() - i,
        {
            let k = keys[i];
            let drop = {
                let tx = self.active_transactions.get(&k).unwrap();
                tx.is_complete()
            } || contains_id(expired, k);
            if drop {
                self.active_transactions.remove(&k);
            }
            proof {
                assert forall|j: int| 0 <= j < i + 1 implies {
                    let k2 = #[trigger] keys@[j];
                    self.active_transactions@.contains_key(k2) == (!m0[k2]@.pending.is_empty() && !expired@.contains(k2))
                } by {
                    if j < i {
                        assert(keys@[j] != k);
                    }
                }
                assert forall|j: int| i + 1 <= j < keys@.len() implies #[trigger] self.active_transactions@.contains_key(keys@[j]) by {
                    assert(keys@[j] != k);
                }
            }
            i = i + 1;
        }
        proof {
            assert forall|k: u64| #[trigger] self.active_transactions@.contains_key(k) <==> {
                &&& m0.contains_key(k)
                &&& !m0[k]@.pending.is_empty()
                &&& !expired@.contains(k)
            } by {
                if m0.contains_key(k) {
                    assert(keys@.contains(k));
                    let j = choose|j: int| 0 <= j < keys@.len() && keys@[j] == k;
                    assert(keys@[j] == k);
                }
            }
        }
    }

    /// Whether `window_id` already committed in a transaction that still waits for other
    /// windows.
    pub fn is_blocked(&self, window_id: WindowId) -> (r: bool)
        ensures
            r == exists|k: u64| #[trigger] self.transactions().contains_key(k)
                && self.transactions()[k]@.committed.contains(window_id.0)
                && !self.transactions()[k]@.pending.is_empty(),
    {
        let keys = self.transaction_ids();
        let mut i: usize = 0;
        while i < keys.len()
            invariant
                i <= keys@.len(),
                forall|k: u64| keys@.contains(k) <==> self.transactions().contains_key(k),
                forall|j: int| 0 <= j < i ==> {
                    let k = #[trigger] keys@[j];
                    !(self.transactions()[k]@.committed.contains(window_id.0)
                        && !self.transactions()[k]@.pending.is_empty())
                },
            decreases keys@.len() - i,
        {
            let k = keys[i];
            assert(keys@.contains(k));
            let tx = self.active_transactions.get(&k).unwrap();
            if tx.committed_windows.contains(&window_id.0) && !tx.is_complete() {
                return true;
            }
            i = i + 1;
        }
        proof {
            assert forall|k: u64| #[trigger] self.transactions().contains_key(k) implies !(
                self.transactions()[k]@.committed.contains(window_id.0)
                && !self.transactions()[k]@.pending.is_empty()) by {
                assert(keys@.contains(k));
                let j = choose|j: int| 0 <= j < keys@.len() && keys@[j] == k;
                assert(keys@[j] == k);
            }
        }
        false
    }

    /// Whether any synchronized-resize transaction is in flight; render loops withhold
    /// presentation while one is.
    pub fn has_active_transactions(&self) -> (r: bool)
        ensures
            r == !self.transactions().is_empty(),
    {
        !self.active_transactions.is_empty()
    }

    /// Drops every transaction in flight (a resize drag ended: what the clients committed is
    /// presented at once).
    pub fn force_complete_all(&mut self)
        ensures
            final(self).transactions() == Map::<u64, Transaction>::empty(),
            final(self).next_tx_id() == old(self).next_tx_id(),
    {
        self.active_transactions.clear();
    }
}

/// Whether `k` is listed in `ids`.
fn contains_id(ids: &[u64], k: u64) -> (r: bool)
    ensures
        r == ids@.contains(k),
{
    let mut i: usize = 0;
    while i < ids.len()
        invariant
            i <= ids@.len(),
            forall|j: int| 0 <= j < i ==> ids@[j] != k,
        decreases ids@.len() - i,
    {
        if ids[i] == k {
            return true;
        }
        i = i + 1;
    }
    false
}

impl Default for TransactionManager {
    /// An empty manager whose first transaction gets id 0.
    fn default() -> (m: TransactionManager)
        ensures
            m.next_tx_id() == 0,
            m.transactions() == Map::<u64, Transaction>::empty(),
    {
        TransactionManager { next_id: 0, active_transactions: HashMap::new() }
    }
}

} // verus!
