//! The bookkeeping of schema upgrades.
//!
//! Every upgrade script carries a version marker. The store keeps the markers
//! of the scripts that were applied, in the order in which they were applied,
//! and a script whose marker is on record is never applied again.

use vstd::prelude::*;

verus! {

/// The record after the script marked `version` was offered: it is applied
/// and recorded unless it is on record already.
pub open spec fn record_one(applied: Seq<i64>, version: i64) -> Seq<i64> {
    if applied.contains(version) {
        applied
    } else {
        applied.push(version)
    }
}

/// The record after the scripts marked `migrations` were offered one after
/// the other, in their order.
pub open spec fn record_all(applied: Seq<i64>, migrations: Seq<i64>) -> Seq<i64>
    decreases migrations.len(),
{
    if migrations.len() == 0 {
        applied
    } else {
        record_all(record_one(applied, migrations.first()), migrations.drop_first())
    }
}

/// Offering scripts only ever adds to the end of the record, every marker
/// offered is on record afterwards, and nothing is on record that was neither
/// there before nor offered.
pub proof fn lemma_record_all_members(applied: Seq<i64>, migrations: Seq<i64>)
    ensures
        applied.is_prefix_of(record_all(applied, migrations)),
        forall|v: i64|
            record_all(applied, migrations).contains(v) <==> applied.contains(v)
                || migrations.contains(v),
    decreases migrations.len(),
{
    if migrations.len() > 0 {
        let head = migrations.first();
        let rest = migrations.drop_first();
        lemma_record_all_members(record_one(applied, head), rest);
        assert forall|v: i64|
            record_all(applied, migrations).contains(v) <==> applied.contains(v)
                || migrations.contains(v) by {
            lemma_record_one_members(applied, head, v);
            if migrations.contains(v) && v != head {
                let i = choose|i: int| 0 <= i < migrations.len() && migrations[i] == v;
                assert(rest[i - 1] == v);
            }
        }
    }
}

/// What is on record after one script was offered: what was there before,
/// and the marker of the script.
proof fn lemma_record_one_members(applied: Seq<i64>, version: i64, v: i64)
    ensures
        record_one(applied, version).contains(v) <==> applied.contains(v) || v == version,
{
    let next = record_one(applied, version);
    if !applied.contains(version) {
        assert(next[applied.len() as int] == version);
        if applied.contains(v) {
            let i = choose|i: int| 0 <= i < applied.len() && applied[i] == v;
            assert(next[i] == v);
        }
    }
}

/// A record in which no marker stands twice stays so.
pub proof fn lemma_record_all_no_duplicates(applied: Seq<i64>, migrations: Seq<i64>)
    requires
        applied.no_duplicates(),
    ensures
        record_all(applied, migrations).no_duplicates(),
    decreases migrations.len(),
{
    if migrations.len() > 0 {
        lemma_record_all_no_duplicates(
            record_one(applied, migrations.first()),
            migrations.drop_first(),
        );
    }
}

/// Scripts whose markers are all on record change nothing.
pub proof fn lemma_record_all_known(applied: Seq<i64>, migrations: Seq<i64>)
    requires
        forall|i: int| 0 <= i < migrations.len() ==> applied.contains(migrations[i]),
    ensures
        record_all(applied, migrations) == applied,
    decreases migrations.len(),
{
    if migrations.len() > 0 {
        lemma_record_all_known(applied, migrations.drop_first());
    }
}

/// Offering the same scripts a second time changes nothing.
pub proof fn lemma_record_all_idempotent(applied: Seq<i64>, migrations: Seq<i64>)
    ensures
        record_all(record_all(applied, migrations), migrations) == record_all(
            applied,
            migrations,
        ),
{
    let once = record_all(applied, migrations);
    lemma_record_all_members(applied, migrations);
    assert forall|i: int| 0 <= i < migrations.len() implies once.contains(migrations[i]) by {
        assert(migrations.contains(migrations[i]));
    }
    lemma_record_all_known(once, migrations);
}

/// Tells whether the marker `version` is on record.
pub fn is_applied(applied: &Vec<i64>, version: i64) -> (found: bool)
    ensures
        found == applied@.contains(version),
{
    let mut i: usize = 0;
    while i < applied.len()
        invariant
            i <= applied.len(),
            forall|j: int| 0 <= j < i ==> applied@[j] != version,
        decreases applied.len() - i,
    {
        if applied[i] == version {
            return true;
        }
        i += 1;
    }
    false
}

/// The markers of the scripts that are still to be applied, in the order in
/// which to apply them: those of `migrations` that are not on record, each
/// once.
pub fn pending_migrations(applied: &Vec<i64>, migrations: &Vec<i64>) -> (pending: Vec<i64>)
    ensures
        applied@ + pending@ == record_all(applied@, migrations@),
{
    let mut pending: Vec<i64> = Vec::new();
    let mut i: usize = 0;
    assert(migrations@.subrange(0, migrations@.len() as int) == migrations@);
    while i < migrations.len()
        invariant
            i <= migrations.len(),
            record_all(applied@ + pending@, migrations@.subrange(i as int, migrations@.len() as int))
                == record_all(applied@, migrations@),
        decreases migrations.len() - i,
    {
        let version = migrations[i];
        let known = is_applied(applied, version) || is_applied(&pending, version);
        proof {
            let rest = migrations@.subrange(i as int, migrations@.len() as int);
            assert(rest.drop_first() == migrations@.subrange(i + 1, migrations@.len() as int));
            lemma_contains_concat(applied@, pending@, version);
        }
        if !known {
            pending.push(version);
        }
        i += 1;
    }
    pending
}

/// The record of the schema upgrades applied to a store.
#[derive(Debug)]
pub(crate) struct MigrationLog {
    /// The markers of the upgrades applied, oldest first, each once.
    applied: Vec<i64>,
}

impl View for MigrationLog {
    type V = Seq<i64>;

    closed spec fn view(&self) -> Seq<i64> {
        self.applied@
    }
}

impl MigrationLog {
    #[verifier::type_invariant]
    spec fn well_formed(self) -> bool {
        self.applied@.no_duplicates()
    }

    /// The record of a store to which nothing has been applied.
    pub(crate) fn new() -> (log: MigrationLog)
        ensures
            log@ == Seq::<i64>::empty(),
    {
        MigrationLog { applied: Vec::new() }
    }

    /// Offers the scripts marked `migrations`, in their order: those not on
    /// record are applied and recorded.
    pub(crate) fn record(&mut self, migrations: &Vec<i64>)
        ensures
            final(self)@ == record_all(old(self)@, migrations@),
            final(self)@.no_duplicates(),
    {
        proof {
            use_type_invariant(&*self);
        }
        let mut pending = pending_migrations(&self.applied, migrations);
        let mut applied: Vec<i64> = Vec::new();
        std::mem::swap(&mut applied, &mut self.applied);
        proof {
            lemma_record_all_no_duplicates(applied@, migrations@);
        }
        applied.append(&mut pending);
        self.applied = applied;
    }

    /// The markers on record, oldest first.
    pub(crate) fn versions(&self) -> (applied: Vec<i64>)
        ensures
            applied@ == self@,
            applied@.no_duplicates(),
    {
        proof {
            use_type_invariant(self);
        }
        self.applied.clone()
    }
}

/// What two sequences hold together is what one or the other holds.
proof fn lemma_contains_concat(a: Seq<i64>, b: Seq<i64>, v: i64)
    ensures
        (a + b).contains(v) <==> a.contains(v) || b.contains(v),
{
    if a.contains(v) {
        let i = choose|i: int| 0 <= i < a.len() && a[i] == v;
        assert((a + b)[i] == v);
    }
    if b.contains(v) {
        let i = choose|i: int| 0 <= i < b.len() && b[i] == v;
        assert((a + b)[a.len() + i] == v);
    }
}

} // verus!
