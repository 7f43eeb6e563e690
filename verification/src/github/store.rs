//! What storage holds, as the rules of a pass see it.
//!
//! Storage is a map from natural keys to rows.  A write is accepted only
//! if every row that the written row refers to is stored already, and an
//! insert only if no row has that key yet.  Storage gives each issue an
//! identifier when the issue is first inserted and never changes it.

use crate::github::record::{lemma_row_record, KeyView, RecordView, RowView};
use crate::github::reconcile::StatementView;
use vstd::prelude::*;

verus! {

/// What storage holds.
pub ghost struct StoreView {
    /// The stored rows, each without its storage identifier.
    pub rows: Map<KeyView, RecordView>,
    /// The identifier that storage gave each issue.
    pub ids: Map<KeyView, i32>,
    /// The identifier that the next new issue gets.
    pub next_id: i32,
}

impl StoreView {
    /// Storage without rows.
    pub open spec fn empty() -> StoreView {
        StoreView { rows: Map::empty(), ids: Map::empty(), next_id: 1 }
    }

    /// Whether a row with this key is stored.
    pub open spec fn holds(self, key: KeyView) -> bool {
        self.rows.contains_key(key)
    }

    /// Whether every row that `record` refers to is stored.
    pub open spec fn resolves(self, record: RecordView) -> bool {
        forall|j: int|
            0 <= j < record.references().len() ==> self.holds(#[trigger] record.references()[j])
    }

    /// The identifier under which the row with this key is found: for an
    /// issue the one that storage gave it, otherwise the one in the key.
    pub open spec fn id_of(self, key: KeyView) -> i32 {
        match key {
            KeyView::Issue(_, _) => self.ids[key],
            KeyView::User(id) => id,
            KeyView::Milestone(id) => id,
            KeyView::Comment(id) => id,
            KeyView::PullRequest(_, number) => number,
        }
    }

    /// The stored row with this key.
    pub open spec fn row(self, key: KeyView) -> RowView {
        self.rows[key].row(self.id_of(key))
    }

    /// The answer to a lookup: the identifier of the row, if it is stored.
    pub open spec fn lookup(self, key: KeyView) -> Option<i32> {
        if self.holds(key) {
            Some(self.id_of(key))
        } else {
            None
        }
    }

    /// Storage after inserting `record`, or `None` if the insert is
    /// rejected: the key is taken, a referred row is missing, or no
    /// identifier is left for a new issue.
    pub open spec fn insert(self, record: RecordView) -> Option<StoreView> {
        let key = record.key();
        if self.holds(key) || !self.resolves(record) {
            None
        } else if record is Issue {
            if self.next_id < i32::MAX {
                Some(
                    StoreView {
                        rows: self.rows.insert(key, record),
                        ids: self.ids.insert(key, self.next_id),
                        next_id: (self.next_id + 1) as i32,
                    },
                )
            } else {
                None
            }
        } else {
            Some(StoreView { rows: self.rows.insert(key, record), ..self })
        }
    }

    /// Storage after updating every mutable field of the row that has the
    /// key of `row`, or `None` if a referred row is missing.  The storage
    /// identifier stays; an update of a row that is not stored changes
    /// nothing.
    pub open spec fn update(self, row: RowView) -> Option<StoreView> {
        if !self.resolves(row.record()) {
            None
        } else if !self.holds(row.key()) {
            Some(self)
        } else {
            Some(StoreView { rows: self.rows.insert(row.key(), row.record()), ..self })
        }
    }

    /// Storage after a statement, or `None` if the statement is rejected.
    pub open spec fn apply(self, statement: StatementView) -> Option<StoreView> {
        match statement {
            StatementView::Insert(record) => self.insert(record),
            StatementView::Update(row) => self.update(row),
        }
    }

    /// The statement that reconciles `record`: an update under the
    /// identifier found if its natural key is stored, otherwise an insert.
    pub open spec fn statement_for(self, record: RecordView) -> StatementView {
        match self.lookup(record.key()) {
            Some(id) => StatementView::Update(record.row(id)),
            None => StatementView::Insert(record),
        }
    }

    /// Storage after `record` is reconciled: looked up by its natural key,
    /// then updated under the identifier found, or inserted.
    pub open spec fn upsert(self, record: RecordView) -> Option<StoreView> {
        self.apply(self.statement_for(record))
    }

    /// The message with which a statement is rejected.
    pub open spec fn refusal(self, statement: StatementView) -> Seq<char> {
        match statement {
            StatementView::Insert(record) => if self.holds(record.key()) {
                "duplicate key"@
            } else if !self.resolves(record) {
                "foreign key violation"@
            } else {
                "identifiers exhausted"@
            },
            StatementView::Update(_) => "foreign key violation"@,
        }
    }
}

/// How reconciling a list of records ends.
pub ghost struct Outcome {
    /// Storage at the end.
    pub store: StoreView,
    /// Number of records written.
    pub written: nat,
    /// The record whose write was rejected, if one was.
    pub rejected: Option<RecordView>,
}

/// Reconciles `records` one after the other and stops at the first that
/// storage rejects.  What was written before stays written.
pub open spec fn run(store: StoreView, records: Seq<RecordView>) -> Outcome
    decreases records.len(),
{
    if records.len() == 0 {
        Outcome { store, written: 0, rejected: None }
    } else {
        match store.upsert(records[0]) {
            None => Outcome { store, written: 0, rejected: Some(records[0]) },
            Some(next) => {
                let rest = run(next, records.drop_first());
                Outcome { store: rest.store, written: rest.written + 1, rejected: rest.rejected }
            },
        }
    }
}

/// The last record of `records` that has the key `key`.
pub open spec fn latest(records: Seq<RecordView>, key: KeyView) -> Option<RecordView>
    decreases records.len(),
{
    if records.len() == 0 {
        None
    } else {
        match latest(records.drop_first(), key) {
            Some(r) => Some(r),
            None => if records[0].key() == key {
                Some(records[0])
            } else {
                None
            },
        }
    }
}

/// Whether storage holds the row of every record of `records` and every
/// row that one of them refers to.
pub open spec fn settled(store: StoreView, records: Seq<RecordView>) -> bool {
    forall|i: int|
        0 <= i < records.len() ==> store.holds((#[trigger] records[i]).key()) && store.resolves(
            records[i],
        )
}

/// A record that refers to a row which is not stored is rejected, whether
/// its own row is stored or not.
pub proof fn lemma_missing_reference_rejects(store: StoreView, record: RecordView, j: int)
    requires
        0 <= j < record.references().len(),
        !store.holds(record.references()[j]),
    ensures
        store.upsert(record) is None,
{
    lemma_row_record(record, store.id_of(record.key()));
}

/// What an accepted reconciliation of one record changes: the row of the
/// record's key is the record; every other row, every identifier of a row
/// that was stored, and every stored key stay.
pub proof fn lemma_upsert_effect(store: StoreView, record: RecordView)
    requires
        store.upsert(record) is Some,
    ensures
        store.resolves(record),
        store.upsert(record)->0.rows == store.rows.insert(record.key(), record),
        store.holds(record.key()) ==> store.upsert(record)->0.ids == store.ids
            && store.upsert(record)->0.next_id == store.next_id,
        forall|k: KeyView| store.holds(k) ==> store.upsert(record)->0.id_of(k) == store.id_of(k),
{
    let key = record.key();
    lemma_row_record(record, store.id_of(key));
    let next = store.upsert(record)->0;
    assert forall|k: KeyView| store.holds(k) implies next.id_of(k) == store.id_of(k) by {
        if k != key {
            assert(next.rows[k] == store.rows[k]);
        }
    }
}

/// Reconciling a record whose natural key is stored already replaces that
/// row and adds none: the stored keys and the row's identifier stay, and
/// the row holds the new content.
pub proof fn lemma_same_key_replaces(store: StoreView, first: RecordView, second: RecordView)
    requires
        first.key() == second.key(),
        store.upsert(first) is Some,
        store.upsert(first)->0.resolves(second),
    ensures
        store.upsert(first)->0.upsert(second) is Some,
        store.upsert(first)->0.upsert(second)->0.rows.dom() == store.upsert(first)->0.rows.dom(),
        store.upsert(first)->0.upsert(second)->0.rows[second.key()] == second,
        store.upsert(first)->0.upsert(second)->0.id_of(second.key()) == store.upsert(
            first,
        )->0.id_of(first.key()),
        store.upsert(first)->0.upsert(second)->0.next_id == store.upsert(first)->0.next_id,
{
    let mid = store.upsert(first)->0;
    lemma_upsert_effect(store, first);
    assert(mid.holds(second.key()));
    lemma_row_record(second, mid.id_of(second.key()));
    let end = mid.upsert(second)->0;
    lemma_upsert_effect(mid, second);
    assert(end.rows.dom() =~= mid.rows.dom());
}

/// Rows with other keys than those of `records` are as they were after a
/// run, and no stored key is lost.
proof fn lemma_run_frame(store: StoreView, records: Seq<RecordView>, key: KeyView)
    requires
        store.holds(key),
    ensures
        run(store, records).store.holds(key),
        run(store, records).store.id_of(key) == store.id_of(key),
        latest(records.take(run(store, records).written as int), key) is None ==> run(
            store,
            records,
        ).store.rows[key] == store.rows[key],
    decreases records.len(),
{
    if records.len() > 0 {
        match store.upsert(records[0]) {
            None => {
                assert(records.take(0).len() == 0);
            },
            Some(next) => {
                lemma_upsert_effect(store, records[0]);
                lemma_run_frame(next, records.drop_first(), key);
                let n = run(store, records).written as int;
                lemma_written_bound(next, records.drop_first());
                assert(records.take(n).drop_first() == records.drop_first().take(n - 1));
                assert(records.take(n)[0] == records[0]);
            },
        }
    } else {
        assert(records.take(0).len() == 0);
    }
}

/// A run writes a prefix of its records: no more than there are, all of
/// them unless one is rejected, and the rejected record is the one after
/// the prefix.
pub proof fn lemma_written_bound(store: StoreView, records: Seq<RecordView>)
    ensures
        run(store, records).written <= records.len(),
        run(store, records).rejected is None ==> run(store, records).written == records.len(),
        run(store, records).rejected matches Some(r) ==> run(store, records).written
            < records.len() && r == records[run(store, records).written as int] && run(
            store,
            records,
        ).store.upsert(r) is None,
    decreases records.len(),
{
    if records.len() > 0 {
        match store.upsert(records[0]) {
            None => {},
            Some(next) => {
                lemma_written_bound(next, records.drop_first());
            },
        }
    }
}

/// A run over the records it wrote ends in the same storage, with nothing
/// rejected.
proof fn lemma_written_prefix(store: StoreView, records: Seq<RecordView>)
    ensures
        run(store, records.take(run(store, records).written as int)) == (Outcome {
            store: run(store, records).store,
            written: run(store, records).written,
            rejected: None,
        }),
    decreases records.len(),
{
    let n = run(store, records).written as int;
    if records.len() > 0 {
        match store.upsert(records[0]) {
            None => {
                assert(records.take(0).len() == 0);
            },
            Some(next) => {
                lemma_written_prefix(next, records.drop_first());
                lemma_written_bound(next, records.drop_first());
                assert(records.take(n).drop_first() == records.drop_first().take(n - 1));
                assert(records.take(n)[0] == records[0]);
            },
        }
    } else {
        assert(records.take(0).len() == 0);
    }
}

/// A run can be cut after any number of records that are all accepted.
proof fn lemma_run_split(store: StoreView, records: Seq<RecordView>, n: int)
    requires
        0 <= n <= records.len(),
        run(store, records.take(n)).rejected is None,
    ensures
        run(store, records) == ({
            let tail = run(run(store, records.take(n)).store, records.skip(n));
            Outcome { store: tail.store, written: n as nat + tail.written, rejected: tail.rejected }
        }),
    decreases n,
{
    if n == 0 {
        assert(records.take(0).len() == 0);
        assert(records.skip(0) == records);
    } else {
        assert(records.take(n)[0] == records[0]);
        assert(records.take(n).drop_first() == records.drop_first().take(n - 1));
        assert(records.drop_first().skip(n - 1) == records.skip(n));
        match store.upsert(records[0]) {
            None => {},
            Some(next) => {
                lemma_written_bound(next, records.drop_first().take(n - 1));
                lemma_run_split(next, records.drop_first(), n - 1);
            },
        }
    }
}

/// After a run that rejects nothing, storage is settled for the records
/// and holds, for each of their keys, the last record with that key.
proof fn lemma_run_settles(store: StoreView, records: Seq<RecordView>)
    requires
        run(store, records).rejected is None,
    ensures
        settled(run(store, records).store, records),
        forall|k: KeyView| #[trigger]
            latest(records, k) is Some ==> run(store, records).store.holds(k) && run(
                store,
                records,
            ).store.rows[k] == latest(records, k)->0,
    decreases records.len(),
{
    if records.len() > 0 {
        let first = records[0];
        let rest = records.drop_first();
        let next = store.upsert(first)->0;
        let end = run(store, records).store;
        lemma_upsert_effect(store, first);
        lemma_run_settles(next, rest);
        lemma_written_bound(next, rest);
        assert(rest.take(rest.len() as int) == rest);
        lemma_run_frame(next, rest, first.key());
        assert forall|i: int| 0 <= i < records.len() implies end.holds(
            (#[trigger] records[i]).key(),
        ) && end.resolves(records[i]) by {
            if i > 0 {
                assert(records[i] == rest[i - 1]);
            } else {
                assert forall|j: int| 0 <= j < first.references().len() implies end.holds(
                    #[trigger] first.references()[j],
                ) by {
                    assert(store.holds(first.references()[j]));
                    lemma_run_frame(next, rest, first.references()[j]);
                }
            }
        }
        assert forall|k: KeyView| #[trigger] latest(records, k) is Some implies end.holds(k)
            && end.rows[k] == latest(records, k)->0 by {
            if latest(rest, k) is None {
                assert(k == first.key());
            }
        }
    }
}

/// A run over records for which storage is settled writes them all and
/// changes nothing but the rows of their keys, each of which ends as the
/// last record with that key.
proof fn lemma_settled_run(store: StoreView, records: Seq<RecordView>)
    requires
        settled(store, records),
    ensures
        run(store, records).rejected is None,
        run(store, records).written == records.len(),
        run(store, records).store.ids == store.ids,
        run(store, records).store.next_id == store.next_id,
        run(store, records).store.rows.dom() == store.rows.dom(),
        forall|k: KeyView|
            store.holds(k) ==> #[trigger] run(store, records).store.rows[k] == (match latest(
                records,
                k,
            ) {
                Some(r) => r,
                None => store.rows[k],
            }),
    decreases records.len(),
{
    if records.len() > 0 {
        let first = records[0];
        let rest = records.drop_first();
        assert(store.holds(first.key()) && store.resolves(first));
        lemma_row_record(first, store.id_of(first.key()));
        let next = store.upsert(first)->0;
        lemma_upsert_effect(store, first);
        assert(next.rows.dom() =~= store.rows.dom());
        assert forall|i: int| 0 <= i < rest.len() implies next.holds((#[trigger] rest[i]).key())
            && next.resolves(rest[i]) by {
            assert(rest[i] == records[i + 1]);
            assert(store.resolves(records[i + 1]));
            assert forall|j: int| 0 <= j < rest[i].references().len() implies next.holds(
                #[trigger] rest[i].references()[j],
            ) by {
                assert(store.holds(rest[i].references()[j]));
            }
        }
        lemma_settled_run(next, rest);
    }
}

/// Reconciling the same records a second time changes nothing: storage
/// after the second run is storage after the first, and the second run
/// writes as many records and is rejected at the same record, if at all.
pub proof fn lemma_reconcile_idempotent(store: StoreView, records: Seq<RecordView>)
    ensures
        run(run(store, records).store, records) == run(store, records),
{
    let once = run(store, records);
    let n = once.written as int;
    let done = records.take(n);
    lemma_written_bound(store, records);
    lemma_written_prefix(store, records);
    lemma_run_settles(store, done);
    lemma_settled_run(once.store, done);
    let again = run(once.store, done);
    assert(again.store.rows =~= once.store.rows) by {
        assert forall|k: KeyView| once.store.holds(k) implies #[trigger] again.store.rows[k]
            == once.store.rows[k] by {
            if latest(done, k) is Some {
            }
        }
    }
    assert(again.store == once.store);
    lemma_run_split(once.store, records, n);
    if n < records.len() {
        assert(records.skip(n)[0] == records[n]);
    } else {
        assert(records.skip(n).len() == 0);
    }
}

/// Whether every row that a record refers to is stored or is the row of an
/// earlier record of the list.
pub open spec fn closed(store: StoreView, records: Seq<RecordView>) -> bool {
    forall|i: int, j: int|
        0 <= i < records.len() && 0 <= j < records[i].references().len() ==> store.holds(
            #[trigger] records[i].references()[j],
        ) || exists|h: int| 0 <= h < i && (#[trigger] records[h]).key() == records[i].references()[j]
}

/// Whether every row that a record refers to is stored or is the row of
/// some record of the list, wherever that record stands.
pub open spec fn self_contained(store: StoreView, records: Seq<RecordView>) -> bool {
    forall|i: int, j: int|
        0 <= i < records.len() && 0 <= j < records[i].references().len() ==> store.holds(
            #[trigger] records[i].references()[j],
        ) || exists|h: int|
            0 <= h < records.len() && (#[trigger] records[h]).key() == records[i].references()[j]
}

/// Whether the records stand in the order of their phases.
pub open spec fn in_phase_order(records: Seq<RecordView>) -> bool {
    forall|i: int, j: int|
        0 <= i < j < records.len() ==> (#[trigger] records[i]).phase().rank() <= (
        #[trigger] records[j]).phase().rank()
}

/// In phase order, a list that contains the rows it refers to has each of
/// them before the record that refers to it, whatever the order of the
/// records within a phase.
pub proof fn lemma_phase_order_closes(store: StoreView, records: Seq<RecordView>)
    requires
        in_phase_order(records),
        self_contained(store, records),
    ensures
        closed(store, records),
{
    assert forall|i: int, j: int|
        0 <= i < records.len() && 0 <= j < records[i].references().len() implies store.holds(
        #[trigger] records[i].references()[j],
    ) || exists|h: int|
        0 <= h < i && (#[trigger] records[h]).key() == records[i].references()[j] by {
        let wanted = records[i].references()[j];
        if !store.holds(wanted) {
            let h = choose|h: int| 0 <= h < records.len() && (#[trigger] records[h]).key() == wanted;
            crate::github::record::lemma_references_are_earlier(records[i], j);
            assert(records[h].phase().rank() < records[i].phase().rank());
            if h >= i {
                if h > i {
                    assert(records[i].phase().rank() <= records[h].phase().rank());
                }
            }
            assert(h < i);
        }
    }
}

/// When every reference of a list resolves to storage or to an earlier
/// record, and storage has identifiers left for as many issues as the list
/// is long, every record of the list is written.
pub proof fn lemma_closed_run_writes_all(store: StoreView, records: Seq<RecordView>)
    requires
        closed(store, records),
        store.next_id + records.len() <= i32::MAX,
    ensures
        run(store, records).rejected is None,
        run(store, records).written == records.len(),
    decreases records.len(),
{
    if records.len() > 0 {
        let first = records[0];
        let rest = records.drop_first();
        assert forall|j: int| 0 <= j < first.references().len() implies store.holds(
            #[trigger] first.references()[j],
        ) by {
            assert(store.holds(records[0].references()[j]) || exists|h: int|
                0 <= h < 0 && (#[trigger] records[h]).key() == records[0].references()[j]);
        }
        lemma_row_record(first, store.id_of(first.key()));
        let next = store.upsert(first)->0;
        lemma_upsert_effect(store, first);
        assert forall|i: int, j: int|
            0 <= i < rest.len() && 0 <= j < rest[i].references().len() implies next.holds(
            #[trigger] rest[i].references()[j],
        ) || exists|h: int|
            0 <= h < i && (#[trigger] rest[h]).key() == rest[i].references()[j] by {
            let wanted = rest[i].references()[j];
            assert(rest[i] == records[i + 1]);
            assert(store.holds(records[i + 1].references()[j]) || exists|h: int|
                0 <= h < i + 1 && (#[trigger] records[h]).key() == records[i + 1].references()[j]);
            if !store.holds(wanted) {
                let h = choose|h: int|
                    0 <= h < i + 1 && (#[trigger] records[h]).key() == wanted;
                if h > 0 {
                    assert(rest[h - 1] == records[h]);
                }
            }
        }
        lemma_closed_run_writes_all(next, rest);
    }
}

} // verus!
