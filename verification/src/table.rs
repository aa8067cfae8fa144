//! The counters of a store, kept in order.
//!
//! A [`Table`] holds one row for each counter, strictly ascending by id, so
//! that a counter is found by bisection and a listing needs no sorting. Seen
//! from outside it is a map from ids to counters.

use vstd::prelude::*;
use crate::counter::{CounterModel, CounterStats};
use crate::ids::{
    id_before, id_equal, id_less, lemma_id_before_irreflexive, lemma_id_before_total,
    lemma_id_before_transitive,
};
use crate::model::is_listing_of;

verus! {

/// One counter with its id.
#[derive(Debug)]
struct Row {
    id: String,
    stats: CounterStats,
}

/// The counters of a store.
#[derive(Debug)]
pub(crate) struct Table {
    /// The counters, strictly ascending by id.
    rows: Vec<Row>,
}

/// The rows stand in strictly ascending order of their ids.
spec fn ascending(rows: Seq<Row>) -> bool {
    forall|i: int, j: int| 0 <= i < j < rows.len() ==> id_before(rows[i].id@, rows[j].id@)
}

/// Some row carries `id`.
spec fn holds(rows: Seq<Row>, id: Seq<char>) -> bool {
    exists|i: int| 0 <= i < rows.len() && rows[i].id@ == id
}

/// The position of a row that carries `id`.
spec fn place(rows: Seq<Row>, id: Seq<char>) -> int {
    choose|i: int| 0 <= i < rows.len() && rows[i].id@ == id
}

/// The rows as a map from id to counter.
spec fn table(rows: Seq<Row>) -> Map<Seq<char>, CounterModel> {
    Map::new(|id: Seq<char>| holds(rows, id), |id: Seq<char>| rows[place(rows, id)].stats@)
}

/// No row carries `id`, and a row that does belongs at position `i`.
spec fn gap_at(rows: Seq<Row>, id: Seq<char>, i: int) -> bool {
    &&& 0 <= i <= rows.len()
    &&& forall|j: int| 0 <= j < i ==> id_before(#[trigger] rows[j].id@, id)
    &&& forall|j: int| i <= j < rows.len() ==> id_before(id, #[trigger] rows[j].id@)
}

/// In ascending rows the row at `i` is the one that carries its id.
proof fn lemma_row_in_table(rows: Seq<Row>, i: int)
    requires
        ascending(rows),
        0 <= i < rows.len(),
    ensures
        holds(rows, rows[i].id@),
        place(rows, rows[i].id@) == i,
        table(rows).contains_key(rows[i].id@),
        table(rows)[rows[i].id@] == rows[i].stats@,
{
    // A second row with the same id would come before or after itself.
    lemma_id_before_irreflexive(rows[i].id@);
}

/// A map that holds every row under its id, and nothing else, is the map of
/// the rows.
proof fn lemma_table_is(rows: Seq<Row>, want: Map<Seq<char>, CounterModel>)
    requires
        forall|i: int|
            0 <= i < rows.len() ==> want.contains_key((#[trigger] rows[i]).id@)
                && want[rows[i].id@] == rows[i].stats@,
        forall|k: Seq<char>| want.contains_key(k) ==> holds(rows, k),
    ensures
        table(rows) == want,
{
    assert(table(rows) =~= want);
}

/// Where the rows leave a gap for `id`, none of them carries it.
proof fn lemma_gap_absent(rows: Seq<Row>, id: Seq<char>, i: int)
    requires
        gap_at(rows, id, i),
    ensures
        !holds(rows, id),
{
    lemma_id_before_irreflexive(id);
}

/// A row put into its gap keeps the rows ascending and adds its counter to
/// the map.
proof fn lemma_insert(rows: Seq<Row>, i: int, row: Row)
    requires
        ascending(rows),
        gap_at(rows, row.id@, i),
    ensures
        ascending(rows.insert(i, row)),
        table(rows.insert(i, row)) == table(rows).insert(row.id@, row.stats@),
{
    let after = rows.insert(i, row);
    let want = table(rows).insert(row.id@, row.stats@);
    lemma_gap_absent(rows, row.id@, i);
    assert forall|j: int| 0 <= j < after.len() implies want.contains_key(
        (#[trigger] after[j]).id@,
    ) && want[after[j].id@] == after[j].stats@ by {
        if j != i {
            lemma_row_in_table(rows, if j < i { j } else { j - 1 });
        }
    }
    assert forall|k: Seq<char>| want.contains_key(k) implies holds(after, k) by {
        let p = if k == row.id@ {
            i
        } else if place(rows, k) < i {
            place(rows, k)
        } else {
            place(rows, k) + 1
        };
        assert(after[p].id@ == k);
    }
    lemma_table_is(after, want);
}

/// A row replaced by one of the same id keeps the rows ascending and
/// replaces its counter in the map.
proof fn lemma_update(rows: Seq<Row>, i: int, row: Row)
    requires
        ascending(rows),
        0 <= i < rows.len(),
        row.id@ == rows[i].id@,
    ensures
        ascending(rows.update(i, row)),
        table(rows.update(i, row)) == table(rows).insert(row.id@, row.stats@),
{
    let after = rows.update(i, row);
    let want = table(rows).insert(row.id@, row.stats@);
    lemma_row_in_table(rows, i);
    assert forall|j: int| 0 <= j < after.len() implies want.contains_key(
        (#[trigger] after[j]).id@,
    ) && want[after[j].id@] == after[j].stats@ by {
        lemma_row_in_table(rows, j);
    }
    assert forall|k: Seq<char>| want.contains_key(k) implies holds(after, k) by {
        let p = if k == row.id@ {
            i
        } else {
            place(rows, k)
        };
        assert(after[p].id@ == k);
    }
    lemma_table_is(after, want);
}

/// A row taken out keeps the rows ascending and takes its counter out of the
/// map.
proof fn lemma_remove(rows: Seq<Row>, i: int)
    requires
        ascending(rows),
        0 <= i < rows.len(),
    ensures
        ascending(rows.remove(i)),
        table(rows.remove(i)) == table(rows).remove(rows[i].id@),
{
    let after = rows.remove(i);
    let want = table(rows).remove(rows[i].id@);
    lemma_row_in_table(rows, i);
    assert forall|j: int| 0 <= j < after.len() implies want.contains_key(
        (#[trigger] after[j]).id@,
    ) && want[after[j].id@] == after[j].stats@ by {
        lemma_row_in_table(rows, if j < i { j } else { j + 1 });
    }
    assert forall|k: Seq<char>| want.contains_key(k) implies holds(after, k) by {
        let p = place(rows, k);
        assert(after[if p < i { p } else { p - 1 }].id@ == k);
    }
    lemma_table_is(after, want);
}

/// The position of the first row whose id does not come before `id`.
fn lower_bound(rows: &Vec<Row>, id: &str) -> (i: usize)
    requires
        ascending(rows@),
    ensures
        i <= rows.len(),
        forall|j: int| 0 <= j < i ==> id_before(#[trigger] rows@[j].id@, id@),
        forall|j: int| i <= j < rows.len() ==> !id_before(#[trigger] rows@[j].id@, id@),
{
    let mut lo: usize = 0;
    let mut hi: usize = rows.len();
    while lo < hi
        invariant
            ascending(rows@),
            lo <= hi <= rows.len(),
            forall|j: int| 0 <= j < lo ==> id_before(#[trigger] rows@[j].id@, id@),
            forall|j: int| hi <= j < rows.len() ==> !id_before(#[trigger] rows@[j].id@, id@),
        decreases hi - lo,
    {
        let mid: usize = lo + (hi - lo) / 2;
        if id_less(rows[mid].id.as_str(), id) {
            proof {
                assert forall|j: int| 0 <= j < mid + 1 implies id_before(
                    #[trigger] rows@[j].id@,
                    id@,
                ) by {
                    if j < mid {
                        lemma_id_before_transitive(rows@[j].id@, rows@[mid as int].id@, id@);
                    }
                }
            }
            lo = mid + 1;
        } else {
            proof {
                assert forall|j: int| mid <= j < rows.len() implies !id_before(
                    #[trigger] rows@[j].id@,
                    id@,
                ) by {
                    if j > mid && id_before(rows@[j].id@, id@) {
                        lemma_id_before_transitive(rows@[mid as int].id@, rows@[j].id@, id@);
                    }
                }
            }
            hi = mid;
        }
    }
    lo
}

/// Looks `id` up: the position of its row and `true`, or the position at
/// which its row belongs and `false`.
fn find(rows: &Vec<Row>, id: &str) -> (r: (usize, bool))
    requires
        ascending(rows@),
    ensures
        r.1 == holds(rows@, id@),
        r.1 ==> r.0 < rows.len() && rows@[r.0 as int].id@ == id@,
        !r.1 ==> gap_at(rows@, id@, r.0 as int),
{
    let i = lower_bound(rows, id);
    let found = i < rows.len() && id_equal(rows[i].id.as_str(), id);
    proof {
        if !found {
            assert forall|j: int| i <= j < rows.len() implies id_before(
                id@,
                #[trigger] rows@[j].id@,
            ) by {
                lemma_id_before_total(rows@[i as int].id@, id@);
                if j > i {
                    lemma_id_before_transitive(id@, rows@[i as int].id@, rows@[j].id@);
                }
            }
            lemma_gap_absent(rows@, id@, i as int);
        }
    }
    (i, found)
}

impl View for Table {
    type V = Map<Seq<char>, CounterModel>;

    closed spec fn view(&self) -> Map<Seq<char>, CounterModel> {
        table(self.rows@)
    }
}

impl Table {
    #[verifier::type_invariant]
    spec fn well_formed(self) -> bool {
        ascending(self.rows@)
    }

    /// A table without counters.
    pub(crate) fn new() -> (empty: Table)
        ensures
            empty@ == Map::<Seq<char>, CounterModel>::empty(),
    {
        Table { rows: Vec::new() }
    }

    /// The counter `id`, if the table holds it.
    pub(crate) fn get(&self, id: &str) -> (found: Option<CounterStats>)
        ensures
            match found {
                Some(held) => self@.contains_key(id@) && self@[id@] == held@,
                None => !self@.contains_key(id@),
            },
    {
        proof {
            use_type_invariant(self);
        }
        let at = find(&self.rows, id);
        if at.1 {
            proof {
                lemma_row_in_table(self.rows@, at.0 as int);
            }
            Some(self.rows[at.0].stats)
        } else {
            None
        }
    }

    /// Puts `stats` under `id`, in place of what was there.
    pub(crate) fn put(&mut self, id: &str, stats: CounterStats)
        ensures
            final(self)@ == old(self)@.insert(id@, stats@),
    {
        proof {
            use_type_invariant(&*self);
        }
        let at = find(&self.rows, id);
        let mut rows: Vec<Row> = Vec::new();
        std::mem::swap(&mut rows, &mut self.rows);
        let ghost before = rows@;
        if at.1 {
            rows[at.0].stats = stats;
            proof {
                lemma_update(before, at.0 as int, rows@[at.0 as int]);
            }
        } else {
            let row = Row { id: id.to_owned(), stats };
            proof {
                lemma_insert(before, at.0 as int, row);
            }
            rows.insert(at.0, row);
        }
        self.rows = rows;
    }

    /// Takes the counter `id` out and tells whether the table held it.
    pub(crate) fn remove(&mut self, id: &str) -> (existed: bool)
        ensures
            existed == old(self)@.contains_key(id@),
            final(self)@ == old(self)@.remove(id@),
    {
        proof {
            use_type_invariant(&*self);
        }
        let at = find(&self.rows, id);
        if at.1 {
            let mut rows: Vec<Row> = Vec::new();
            std::mem::swap(&mut rows, &mut self.rows);
            proof {
                lemma_remove(rows@, at.0 as int);
            }
            let _ = rows.remove(at.0);
            self.rows = rows;
        }
        at.1
    }

    /// All counters as pairs of id and value, ascending by id.
    pub(crate) fn listing(&self) -> (listing: Vec<(String, i32)>)
        ensures
            is_listing_of(self@, listing.deep_view()),
    {
        proof {
            use_type_invariant(self);
        }
        let mut listing: Vec<(String, i32)> = Vec::new();
        let mut i: usize = 0;
        while i < self.rows.len()
            invariant
                i <= self.rows.len(),
                listing.len() == i,
                forall|j: int|
                    0 <= j < i ==> (#[trigger] listing@[j]).0@ == self.rows@[j].id@
                        && listing@[j].1 == self.rows@[j].stats.value,
            decreases self.rows.len() - i,
        {
            listing.push((self.rows[i].id.clone(), self.rows[i].stats.value));
            i += 1;
        }
        proof {
            // Entry `j` of the listing shows row `j`.
            let shown = listing.deep_view();
            assert forall|j: int| 0 <= j < shown.len() implies self@.contains_key(
                (#[trigger] shown[j]).0,
            ) && self@[shown[j].0].value == shown[j].1 by {
                lemma_row_in_table(self.rows@, j);
            }
            assert forall|id: Seq<char>| self@.contains_key(id) implies exists|j: int|
                0 <= j < shown.len() && (#[trigger] shown[j]).0 == id by {
                let p = place(self.rows@, id);
                assert(shown[p].0 == id);
            }
        }
        listing
    }
}

} // verus!
