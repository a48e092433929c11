//! In-process registry of run-level cancellation flags, so the orchestrator
//! does not have to poll the database to learn that a run was cancelled.
//!
//! A run is "cancelled" once its flag becomes `true`. `register` hands out a
//! shared `Arc<AtomicBool>` that background work can poll; the registry is the
//! only writer of those flags, and it keeps its own record of each flag's
//! value so that its answers can be stated exactly.

use std::sync::atomic::AtomicBool;
use std::sync::Arc;
use vstd::prelude::*;

use crate::text::{owned, str_eq};

verus! {

struct RegistryEntry {
    run_id: String,
    cancelled: bool,
    flag: Arc<AtomicBool>,
}

/// Cancellation flags keyed by run id.
pub struct CancellationRegistry {
    entries: Vec<RegistryEntry>,
}

/// State after registering `run_id`: a fresh, not-cancelled flag.
pub open spec fn registry_register(m: Map<Seq<char>, bool>, run_id: Seq<char>) -> Map<
    Seq<char>,
    bool,
> {
    m.insert(run_id, false)
}

/// State after cancelling `run_id`: its flag is raised if it is registered.
pub open spec fn registry_cancel(m: Map<Seq<char>, bool>, run_id: Seq<char>) -> Map<
    Seq<char>,
    bool,
> {
    if m.contains_key(run_id) {
        m.insert(run_id, true)
    } else {
        m
    }
}

/// State after clearing `run_id`: its flag is forgotten.
pub open spec fn registry_clear(m: Map<Seq<char>, bool>, run_id: Seq<char>) -> Map<
    Seq<char>,
    bool,
> {
    m.remove(run_id)
}

/// Whether `run_id` is registered and its flag is raised.
pub open spec fn registry_is_cancelled(m: Map<Seq<char>, bool>, run_id: Seq<char>) -> bool {
    m.contains_key(run_id) && m[run_id]
}

/// `Arc::clone`: std documents that the clone points to the same
/// allocation, so it holds the same value as the original.
#[verifier::external_body]
fn share_flag(flag: &Arc<AtomicBool>) -> (res: Arc<AtomicBool>)
    ensures
        res == *flag,
{
    Arc::clone(flag)
}

/// Raises the flag of `entry` and records it as cancelled: the store and
/// the record always concern the same entry.
fn raise(entry: &mut RegistryEntry)
    ensures
        final(entry).cancelled,
        final(entry).run_id == old(entry).run_id,
        final(entry).flag == old(entry).flag,
{
    entry.flag.store(true, std::sync::atomic::Ordering::Relaxed);
    entry.cancelled = true;
}

impl CancellationRegistry {
    spec fn entries_map(entries: Seq<RegistryEntry>) -> Map<Seq<char>, bool>
        decreases entries.len(),
    {
        if entries.len() == 0 {
            Map::empty()
        } else {
            Self::entries_map(entries.drop_last()).insert(
                entries.last().run_id@,
                entries.last().cancelled,
            )
        }
    }

    /// The registered runs and whether each one has been cancelled.
    pub closed spec fn view(&self) -> Map<Seq<char>, bool> {
        Self::entries_map(self.entries@)
    }

    spec fn holds_flag(entries: Seq<RegistryEntry>, run_id: Seq<char>, flag: Arc<AtomicBool>) -> bool {
        exists|i: int|
            0 <= i < entries.len() && #[trigger] entries[i].run_id@ == run_id && entries[i].flag
                == flag
    }

    /// The registry keeps `flag` as the flag of `run_id`: the one `cancel`
    /// raises for that run.
    pub closed spec fn hands_out(&self, run_id: Seq<char>, flag: Arc<AtomicBool>) -> bool {
        Self::holds_flag(self.entries@, run_id, flag)
    }

    #[verifier::type_invariant]
    spec fn unique_ids(&self) -> bool {
        forall|i: int, j: int|
            0 <= i < j < self.entries@.len() ==> #[trigger] self.entries@[i].run_id@
                != #[trigger] self.entries@[j].run_id@
    }

    proof fn lemma_entries_map(entries: Seq<RegistryEntry>)
        requires
            forall|i: int, j: int|
                0 <= i < j < entries.len() ==> #[trigger] entries[i].run_id@
                    != #[trigger] entries[j].run_id@,
        ensures
            forall|k: Seq<char>|
                #![trigger Self::entries_map(entries).contains_key(k)]
                Self::entries_map(entries).contains_key(k) <==> exists|i: int|
                    0 <= i < entries.len() && #[trigger] entries[i].run_id@ == k,
            forall|i: int|
                #![trigger entries[i]]
                0 <= i < entries.len() ==> Self::entries_map(entries)[entries[i].run_id@]
                    == entries[i].cancelled,
        decreases entries.len(),
    {
        if entries.len() > 0 {
            let prefix = entries.drop_last();
            Self::lemma_entries_map(prefix);
            let m = Self::entries_map(entries);
            assert forall|k: Seq<char>| #[trigger] m.contains_key(k) implies exists|i: int|
                0 <= i < entries.len() && #[trigger] entries[i].run_id@ == k by {
                if k != entries.last().run_id@ {
                    assert(Self::entries_map(prefix).contains_key(k));
                    let i = choose|i: int| 0 <= i < prefix.len() && #[trigger] prefix[i].run_id@ == k;
                    assert(entries[i] == prefix[i]);
                } else {
                    let i = entries.len() - 1;
                    assert(entries[i].run_id@ == k);
                }
            }
            assert forall|k: Seq<char>|
                (exists|i: int| 0 <= i < entries.len() && #[trigger] entries[i].run_id@ == k)
                implies #[trigger] m.contains_key(k) by {
                let i = choose|i: int| 0 <= i < entries.len() && #[trigger] entries[i].run_id@ == k;
                if i < prefix.len() {
                    assert(prefix[i] == entries[i]);
                }
            }
            assert forall|i: int| #![trigger entries[i]] 0 <= i < entries.len() implies m[entries[
                i
            ].run_id@] == entries[i].cancelled by {
                if i < prefix.len() {
                    assert(prefix[i] == entries[i]);
                    assert(entries[i].run_id@ != entries.last().run_id@);
                }
            }
        }
    }

    /// Position of `run_id` among the entries, if it is registered.
    fn find(&self, run_id: &str) -> (res: Option<usize>)
        ensures
            res matches Some(i) ==> i < self.entries@.len() && self.entries@[i as int].run_id@
                == run_id@,
            res is None ==> forall|i: int|
                0 <= i < self.entries@.len() ==> #[trigger] self.entries@[i].run_id@ != run_id@,
    {
        let mut i: usize = 0;
        while i < self.entries.len()
            invariant
                0 <= i <= self.entries@.len(),
                forall|k: int| 0 <= k < i ==> #[trigger] self.entries@[k].run_id@ != run_id@,
            decreases self.entries@.len() - i,
        {
            if str_eq(self.entries[i].run_id.as_str(), run_id) {
                return Some(i);
            }
            i = i + 1;
        }
        None
    }

    pub fn new() -> (res: Self)
        ensures
            res.view() == Map::<Seq<char>, bool>::empty(),
    {
        CancellationRegistry { entries: Vec::new() }
    }

    /// Registers `run_id` with a fresh, not-cancelled flag (replacing any
    /// earlier flag of that run) and returns the flag for background work.
    pub fn register(&mut self, run_id: &str) -> (flag: Arc<AtomicBool>)
        ensures
            final(self).view() == registry_register(old(self).view(), run_id@),
    {
        proof {
            use_type_invariant(&*self);
            Self::lemma_entries_map(self.entries@);
        }
        let flag = Arc::new(AtomicBool::new(false));
        let found = self.find(run_id);
        match found {
            Some(i) => {
                let entry = RegistryEntry { run_id: owned(run_id), cancelled: false, flag: share_flag(&flag) };
                let ghost old_entries = self.entries@;
                let mut entries: Vec<RegistryEntry> = Vec::new();
                std::mem::swap(&mut entries, &mut self.entries);
                entries.set(i, entry);
                self.entries = entries;
                proof {
                    assert forall|a: int, b: int|
                        0 <= a < b < self.entries@.len() implies #[trigger] self.entries@[a].run_id@
                        != #[trigger] self.entries@[b].run_id@ by {
                        assert(old_entries[a].run_id@ != old_entries[b].run_id@);
                    }
                    Self::lemma_entries_map(self.entries@);
                    assert(self.entries@[i as int].run_id@ == run_id@);
                    assert(Self::holds_flag(self.entries@, run_id@, flag));
                    assert forall|k: Seq<char>, f: Arc<AtomicBool>| k != run_id@ implies (
                    #[trigger] Self::holds_flag(self.entries@, k, f) <==> Self::holds_flag(
                        old_entries,
                        k,
                        f,
                    )) by {
                        if Self::holds_flag(self.entries@, k, f) {
                            let j = choose|j: int|
                                0 <= j < self.entries@.len() && #[trigger] self.entries@[j].run_id@
                                    == k && self.entries@[j].flag == f;
                            assert(j != i);
                            assert(old_entries[j] == self.entries@[j]);
                        }
                        if Self::holds_flag(old_entries, k, f) {
                            let j = choose|j: int|
                                0 <= j < old_entries.len() && #[trigger] old_entries[j].run_id@ == k
                                    && old_entries[j].flag == f;
                            assert(j != i);
                            assert(old_entries[j] == self.entries@[j]);
                        }
                    }
                    assert(self.view() =~= old(self).view().insert(run_id@, false)) by {
                        assert forall|k: Seq<char>| #[trigger] self.view().contains_key(k) <==> old(
                            self,
                        ).view().insert(run_id@, false).contains_key(k) by {
                            if self.view().contains_key(k) {
                                let j = choose|j: int| 0 <= j < self.entries@.len() && #[trigger] self.entries@[j].run_id@ == k;
                                if j != i {
                                    assert(old_entries[j] == self.entries@[j]);
                                }
                            }
                            if old(self).view().contains_key(k) {
                                let j = choose|j: int| 0 <= j < old_entries.len() && #[trigger] old_entries[j].run_id@ == k;
                                if j != i {
                                    assert(old_entries[j] == self.entries@[j]);
                                } else {
                                    assert(self.entries@[j].run_id@ == k);
                                }
                            }
                        }
                        assert forall|k: Seq<char>| #[trigger] self.view().contains_key(k) implies self.view()[k]
                            == old(self).view().insert(run_id@, false)[k] by {
                            let j = choose|j: int| 0 <= j < self.entries@.len() && #[trigger] self.entries@[j].run_id@ == k;
                            if j != i {
                                assert(old_entries[j] == self.entries@[j]);
                            }
                        }
                    }
                }
            },
            None => {
                let entry = RegistryEntry { run_id: owned(run_id), cancelled: false, flag: share_flag(&flag) };
                let ghost old_entries = self.entries@;
                let mut entries: Vec<RegistryEntry> = Vec::new();
                std::mem::swap(&mut entries, &mut self.entries);
                entries.push(entry);
                self.entries = entries;
                proof {
                    assert(self.entries@.drop_last() =~= old_entries);
                    let n = old_entries.len() as int;
                    assert(self.entries@[n].run_id@ == run_id@);
                    assert(Self::holds_flag(self.entries@, run_id@, flag));
                    assert forall|k: Seq<char>, f: Arc<AtomicBool>| k != run_id@ implies (
                    #[trigger] Self::holds_flag(self.entries@, k, f) <==> Self::holds_flag(
                        old_entries,
                        k,
                        f,
                    )) by {
                        if Self::holds_flag(self.entries@, k, f) {
                            let j = choose|j: int|
                                0 <= j < self.entries@.len() && #[trigger] self.entries@[j].run_id@
                                    == k && self.entries@[j].flag == f;
                            assert(j != n);
                            assert(old_entries[j] == self.entries@[j]);
                        }
                        if Self::holds_flag(old_entries, k, f) {
                            let j = choose|j: int|
                                0 <= j < old_entries.len() && #[trigger] old_entries[j].run_id@ == k
                                    && old_entries[j].flag == f;
                            assert(old_entries[j] == self.entries@[j]);
                        }
                    }
                    assert forall|a: int, b: int|
                        0 <= a < b < self.entries@.len() implies #[trigger] self.entries@[a].run_id@
                        != #[trigger] self.entries@[b].run_id@ by {
                        if b < old_entries.len() {
                            assert(old_entries[a].run_id@ != old_entries[b].run_id@);
                        } else {
                            assert(self.entries@[a] == old_entries[a]);
                        }
                    }
                }
            },
        }
        flag
    }

    /// Raises the flag of `run_id`. Returns `true` when the run is registered.
    pub fn cancel(&mut self, run_id: &str) -> (found: bool)
        ensures
            found == old(self).view().contains_key(run_id@),
            final(self).view() == registry_cancel(old(self).view(), run_id@),
    {
        proof {
            use_type_invariant(&*self);
            Self::lemma_entries_map(self.entries@);
        }
        match self.find(run_id) {
            Some(i) => {
                let ghost old_entries = self.entries@;
                let mut entries: Vec<RegistryEntry> = Vec::new();
                std::mem::swap(&mut entries, &mut self.entries);
                let mut entry = entries.remove(i);
                raise(&mut entry);
                entries.insert(i, entry);
                self.entries = entries;
                proof {
                    assert forall|a: int| 0 <= a < self.entries@.len() implies #[trigger] self.entries@[a].run_id@
                        == old_entries[a].run_id@ && self.entries@[a].flag == old_entries[a].flag by {
                        if a != i {
                            assert(self.entries@[a] == old_entries[a]);
                        }
                    }
                    assert forall|k: Seq<char>, f: Arc<AtomicBool>| #[trigger] Self::holds_flag(
                        self.entries@,
                        k,
                        f,
                    ) <==> Self::holds_flag(old_entries, k, f) by {
                        if Self::holds_flag(self.entries@, k, f) {
                            let j = choose|j: int|
                                0 <= j < self.entries@.len() && #[trigger] self.entries@[j].run_id@
                                    == k && self.entries@[j].flag == f;
                            assert(old_entries[j].run_id@ == k);
                        }
                        if Self::holds_flag(old_entries, k, f) {
                            let j = choose|j: int|
                                0 <= j < old_entries.len() && #[trigger] old_entries[j].run_id@ == k
                                    && old_entries[j].flag == f;
                            assert(self.entries@[j].run_id@ == k);
                        }
                    }
                    assert forall|a: int, b: int|
                        0 <= a < b < self.entries@.len() implies #[trigger] self.entries@[a].run_id@
                        != #[trigger] self.entries@[b].run_id@ by {
                        assert(old_entries[a].run_id@ != old_entries[b].run_id@);
                    }
                    Self::lemma_entries_map(self.entries@);
                    assert(self.view() =~= old(self).view().insert(run_id@, true)) by {
                        assert forall|k: Seq<char>| #[trigger] self.view().contains_key(k) <==> old(
                            self,
                        ).view().insert(run_id@, true).contains_key(k) by {
                            if self.view().contains_key(k) {
                                let j = choose|j: int| 0 <= j < self.entries@.len() && #[trigger] self.entries@[j].run_id@ == k;
                                assert(old_entries[j].run_id@ == k);
                            }
                            if old(self).view().contains_key(k) {
                                let j = choose|j: int| 0 <= j < old_entries.len() && #[trigger] old_entries[j].run_id@ == k;
                                assert(self.entries@[j].run_id@ == k);
                            }
                        }
                        assert forall|k: Seq<char>| #[trigger] self.view().contains_key(k) implies self.view()[k]
                            == old(self).view().insert(run_id@, true)[k] by {
                            let j = choose|j: int| 0 <= j < self.entries@.len() && #[trigger] self.entries@[j].run_id@ == k;
                            if j != i {
                                assert(old_entries[j] == self.entries@[j]);
                            }
                        }
                    }
                }
                true
            },
            None => false,
        }
    }

    /// Forgets the flag of `run_id` (for example after the run finished).
    pub fn clear(&mut self, run_id: &str)
        ensures
            final(self).view() == registry_clear(old(self).view(), run_id@),
    {
        proof {
            use_type_invariant(&*self);
            Self::lemma_entries_map(self.entries@);
        }
        match self.find(run_id) {
            Some(i) => {
                let ghost old_entries = self.entries@;
                let mut entries: Vec<RegistryEntry> = Vec::new();
                std::mem::swap(&mut entries, &mut self.entries);
                let _removed = entries.remove(i);
                self.entries = entries;
                proof {
                    assert(self.entries@ =~= old_entries.remove(i as int));
                    assert forall|a: int, b: int|
                        0 <= a < b < self.entries@.len() implies #[trigger] self.entries@[a].run_id@
                        != #[trigger] self.entries@[b].run_id@ by {
                        let oa = if a < i { a } else { a + 1 };
                        let ob = if b < i { b } else { b + 1 };
                        assert(self.entries@[a] == old_entries[oa]);
                        assert(self.entries@[b] == old_entries[ob]);
                        assert(old_entries[oa].run_id@ != old_entries[ob].run_id@);
                    }
                    Self::lemma_entries_map(self.entries@);
                    assert forall|f: Arc<AtomicBool>| !#[trigger] Self::holds_flag(
                        self.entries@,
                        run_id@,
                        f,
                    ) by {
                        if Self::holds_flag(self.entries@, run_id@, f) {
                            let j = choose|j: int|
                                0 <= j < self.entries@.len() && #[trigger] self.entries@[j].run_id@
                                    == run_id@ && self.entries@[j].flag == f;
                            let oj = if j < i { j } else { j + 1 };
                            assert(self.entries@[j] == old_entries[oj]);
                            assert(old_entries[oj].run_id@ != old_entries[i as int].run_id@);
                        }
                    }
                    assert forall|k: Seq<char>, f: Arc<AtomicBool>| k != run_id@ implies (
                    #[trigger] Self::holds_flag(self.entries@, k, f) <==> Self::holds_flag(
                        old_entries,
                        k,
                        f,
                    )) by {
                        if Self::holds_flag(self.entries@, k, f) {
                            let j = choose|j: int|
                                0 <= j < self.entries@.len() && #[trigger] self.entries@[j].run_id@
                                    == k && self.entries@[j].flag == f;
                            let oj = if j < i { j } else { j + 1 };
                            assert(self.entries@[j] == old_entries[oj]);
                        }
                        if Self::holds_flag(old_entries, k, f) {
                            let j = choose|j: int|
                                0 <= j < old_entries.len() && #[trigger] old_entries[j].run_id@ == k
                                    && old_entries[j].flag == f;
                            assert(j != i);
                            let nj = if j < i { j } else { j - 1 };
                            assert(self.entries@[nj] == old_entries[j]);
                        }
                    }
                    assert(self.view() =~= old(self).view().remove(run_id@)) by {
                        assert forall|k: Seq<char>| #[trigger] self.view().contains_key(k) <==> old(
                            self,
                        ).view().remove(run_id@).contains_key(k) by {
                            if self.view().contains_key(k) {
                                let j = choose|j: int| 0 <= j < self.entries@.len() && #[trigger] self.entries@[j].run_id@ == k;
                                let oj = if j < i { j } else { j + 1 };
                                assert(self.entries@[j] == old_entries[oj]);
                                assert(old_entries[oj].run_id@ != old_entries[i as int].run_id@);
                            }
                            if old(self).view().remove(run_id@).contains_key(k) {
                                let j = choose|j: int| 0 <= j < old_entries.len() && #[trigger] old_entries[j].run_id@ == k;
                                assert(j != i);
                                let nj = if j < i { j } else { j - 1 };
                                assert(self.entries@[nj] == old_entries[j]);
                            }
                        }
                        assert forall|k: Seq<char>| #[trigger] self.view().contains_key(k) implies self.view()[k]
                            == old(self).view().remove(run_id@)[k] by {
                            let j = choose|j: int| 0 <= j < self.entries@.len() && #[trigger] self.entries@[j].run_id@ == k;
                            let oj = if j < i { j } else { j + 1 };
                            assert(self.entries@[j] == old_entries[oj]);
                            assert(old_entries[oj].run_id@ != old_entries[i as int].run_id@);
                        }
                    }
                }
            },
            None => {
                assert(self.view() =~= old(self).view().remove(run_id@));
                assert forall|f: Arc<AtomicBool>| !#[trigger] Self::holds_flag(
                    self.entries@,
                    run_id@,
                    f,
                ) by {
                    if Self::holds_flag(self.entries@, run_id@, f) {
                        let j = choose|j: int|
                            0 <= j < self.entries@.len() && #[trigger] self.entries@[j].run_id@
                                == run_id@ && self.entries@[j].flag == f;
                    }
                }
            },
        }
    }

    /// Whether `run_id` is registered and has been cancelled, as the
    /// registry's own record says. The record is raised together with the
    /// run's flag by `cancel`; a store into a handed-out flag by its holder
    /// is not seen here (the original read the flag itself).
    pub fn is_cancelled(&self, run_id: &str) -> (res: bool)
        ensures
            res == registry_is_cancelled(self.view(), run_id@),
    {
        proof {
            use_type_invariant(self);
            Self::lemma_entries_map(self.entries@);
        }
        match self.find(run_id) {
            Some(i) => self.entries[i].cancelled,
            None => false,
        }
    }
}

/// A freshly registered run is not cancelled.
pub proof fn law_registered_run_starts_uncancelled(m: Map<Seq<char>, bool>, run_id: Seq<char>)
    ensures
        !registry_is_cancelled(registry_register(m, run_id), run_id),
{
}

/// Cancelling a registered run finds it, and afterwards it reads as cancelled.
pub proof fn law_cancel_is_observed(m: Map<Seq<char>, bool>, run_id: Seq<char>)
    requires
        m.contains_key(run_id),
    ensures
        registry_is_cancelled(registry_cancel(m, run_id), run_id),
{
}

/// Cancelling twice leaves the same state as cancelling once.
pub proof fn law_cancel_idempotent(m: Map<Seq<char>, bool>, run_id: Seq<char>)
    ensures
        registry_cancel(registry_cancel(m, run_id), run_id) == registry_cancel(m, run_id),
{
    assert(registry_cancel(registry_cancel(m, run_id), run_id) =~= registry_cancel(m, run_id));
}

/// After clearing a run it is neither cancelled nor found by `cancel`.
pub proof fn law_cleared_run_is_forgotten(m: Map<Seq<char>, bool>, run_id: Seq<char>)
    ensures
        !registry_is_cancelled(registry_clear(m, run_id), run_id),
        !registry_clear(m, run_id).contains_key(run_id),
        registry_cancel(registry_clear(m, run_id), run_id) == registry_clear(m, run_id),
{
}

/// Registering, cancelling or clearing one run leaves every other run's
/// answer unchanged.
pub proof fn law_runs_are_independent(
    m: Map<Seq<char>, bool>,
    run_id: Seq<char>,
    other: Seq<char>,
)
    requires
        run_id != other,
    ensures
        registry_is_cancelled(registry_register(m, run_id), other) == registry_is_cancelled(
            m,
            other,
        ),
        registry_is_cancelled(registry_cancel(m, run_id), other) == registry_is_cancelled(
            m,
            other,
        ),
        registry_is_cancelled(registry_clear(m, run_id), other) == registry_is_cancelled(
            m,
            other,
        ),
{
}

} // verus!
