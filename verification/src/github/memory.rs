//! Storage held in memory.
//!
//! It answers lookups and statements exactly as the storage rules say, so
//! a pass can be run and inspected without a database.

use crate::error::{DashError, DashErrorView, FailureKind};
use crate::github::reconcile::{
    begin, Batch, LookupResult, Report, Statement, StatementView, Step, StepView, WriteResult,
};
use crate::github::record::{lemma_row_record, Key, KeyView, Record, RecordView};
use crate::github::store::{run, Outcome, StoreView};
use vstd::prelude::*;
use vstd::string::StringExecFns;

verus! {

/// A stored row: its content and, for an issue, its storage identifier.
#[derive(Debug)]
struct Entry {
    record: Record,
    id: i32,
}

/// The natural key of the entry at position `i`.
spec fn key_at(entries: Seq<Entry>, i: int) -> KeyView {
    entries[i].record@.key()
}

/// Whether some entry has the key `key`.
spec fn present(entries: Seq<Entry>, key: KeyView) -> bool {
    exists|i: int| 0 <= i < entries.len() && key_at(entries, i) == key
}

/// The position of an entry with the key `key`.
spec fn position(entries: Seq<Entry>, key: KeyView) -> int {
    choose|i: int| 0 <= i < entries.len() && key_at(entries, i) == key
}

/// Whether no two entries have the same key.
spec fn distinct(entries: Seq<Entry>) -> bool {
    forall|i: int, j: int|
        0 <= i < j < entries.len() ==> key_at(entries, i) != key_at(entries, j)
}

/// The rows that the entries hold, by key.
spec fn rows_of(entries: Seq<Entry>) -> Map<KeyView, RecordView> {
    Map::new(|k: KeyView| present(entries, k), |k: KeyView| entries[position(entries, k)].record@)
}

/// The storage identifiers of the issues among the entries, by key.
spec fn ids_of(entries: Seq<Entry>) -> Map<KeyView, i32> {
    Map::new(
        |k: KeyView| k is Issue && present(entries, k),
        |k: KeyView| entries[position(entries, k)].id,
    )
}

proof fn lemma_position(entries: Seq<Entry>, i: int)
    requires
        distinct(entries),
        0 <= i < entries.len(),
    ensures
        present(entries, key_at(entries, i)),
        position(entries, key_at(entries, i)) == i,
{
    let k = key_at(entries, i);
    let p = position(entries, k);
    assert(0 <= p < entries.len() && key_at(entries, p) == k);
    if p < i {
        assert(key_at(entries, p) != key_at(entries, i));
    } else if i < p {
        assert(key_at(entries, i) != key_at(entries, p));
    }
}

proof fn lemma_pushed(entries: Seq<Entry>, entry: Entry)
    requires
        distinct(entries),
        !present(entries, entry.record@.key()),
    ensures
        distinct(entries.push(entry)),
        rows_of(entries.push(entry)) == rows_of(entries).insert(entry.record@.key(), entry.record@),
        entry.record@ is Issue ==> ids_of(entries.push(entry)) == ids_of(entries).insert(
            entry.record@.key(),
            entry.id,
        ),
        !(entry.record@ is Issue) ==> ids_of(entries.push(entry)) == ids_of(entries),
{
    let after = entries.push(entry);
    let key = entry.record@.key();
    let n = entries.len() as int;
    assert forall|i: int, j: int| 0 <= i < j < after.len() implies key_at(after, i) != key_at(
        after,
        j,
    ) by {
        assert(key_at(after, i) == key_at(entries, i));
        if j < n {
            assert(key_at(after, j) == key_at(entries, j));
        }
    }
    assert(key_at(after, n) == key);
    assert forall|k: KeyView| present(after, k) == (k == key || present(entries, k)) by {
        if present(after, k) {
            let i = position(after, k);
            if i < n {
                assert(key_at(entries, i) == k);
            }
        }
        if present(entries, k) {
            let i = position(entries, k);
            assert(key_at(after, i) == k);
        }
    }
    assert forall|k: KeyView| present(entries, k) implies position(after, k) == position(
        entries,
        k,
    ) by {
        let i = position(entries, k);
        assert(key_at(after, i) == k);
        lemma_position(after, i);
    }
    lemma_position(after, n);
    assert(rows_of(after) =~= rows_of(entries).insert(key, entry.record@));
    if entry.record@ is Issue {
        assert(ids_of(after) =~= ids_of(entries).insert(key, entry.id));
    } else {
        assert(ids_of(after) =~= ids_of(entries));
    }
}

proof fn lemma_replaced(entries: Seq<Entry>, i: int, entry: Entry)
    requires
        distinct(entries),
        0 <= i < entries.len(),
        entry.record@.key() == key_at(entries, i),
        entry.id == entries[i].id,
    ensures
        distinct(entries.update(i, entry)),
        rows_of(entries.update(i, entry)) == rows_of(entries).insert(
            entry.record@.key(),
            entry.record@,
        ),
        ids_of(entries.update(i, entry)) == ids_of(entries),
{
    let after = entries.update(i, entry);
    let key = entry.record@.key();
    assert forall|j: int| 0 <= j < after.len() implies key_at(after, j) == key_at(entries, j) by {}
    assert forall|a: int, b: int| 0 <= a < b < after.len() implies key_at(after, a) != key_at(
        after,
        b,
    ) by {
        assert(key_at(entries, a) != key_at(entries, b));
    }
    assert forall|k: KeyView| present(after, k) == present(entries, k) by {
        if present(after, k) {
            let j = position(after, k);
            assert(key_at(entries, j) == k);
        }
        if present(entries, k) {
            let j = position(entries, k);
            assert(key_at(after, j) == k);
        }
    }
    assert forall|k: KeyView| present(entries, k) implies position(after, k) == position(
        entries,
        k,
    ) by {
        let j = position(entries, k);
        assert(key_at(after, j) == k);
        lemma_position(after, j);
    }
    lemma_position(entries, i);
    assert(rows_of(after) =~= rows_of(entries).insert(key, entry.record@));
    assert(ids_of(after) =~= ids_of(entries));
}

proof fn lemma_row_count(entries: Seq<Entry>)
    requires
        distinct(entries),
    ensures
        rows_of(entries).dom().finite(),
        rows_of(entries).dom().len() == entries.len(),
    decreases entries.len(),
{
    if entries.len() == 0 {
        assert(rows_of(entries).dom() =~= Set::empty());
    } else {
        let head = entries.drop_last();
        let last = entries.last();
        assert(entries == head.push(last));
        assert forall|i: int, j: int| 0 <= i < j < head.len() implies key_at(head, i) != key_at(
            head,
            j,
        ) by {
            assert(key_at(entries, i) != key_at(entries, j));
        }
        assert(!present(head, last.record@.key())) by {
            if present(head, last.record@.key()) {
                let i = position(head, last.record@.key());
                assert(key_at(entries, i) != key_at(entries, entries.len() - 1));
            }
        }
        lemma_row_count(head);
        lemma_pushed(head, last);
        assert(rows_of(entries).dom() =~= rows_of(head).dom().insert(last.record@.key()));
    }
}

/// Storage in memory.
#[derive(Debug)]
pub struct MemoryStore {
    entries: Vec<Entry>,
    next_id: i32,
}

impl View for MemoryStore {
    type V = StoreView;

    closed spec fn view(&self) -> StoreView {
        StoreView {
            rows: rows_of(self.entries@),
            ids: ids_of(self.entries@),
            next_id: self.next_id,
        }
    }
}

impl MemoryStore {
    #[verifier::type_invariant]
    spec fn inv(&self) -> bool {
        distinct(self.entries@)
    }

    /// Storage without rows.
    pub fn new() -> (store: MemoryStore)
        ensures
            store@ == StoreView::empty(),
    {
        let store = MemoryStore { entries: Vec::new(), next_id: 1 };
        assert(rows_of(store.entries@) =~= Map::empty());
        assert(ids_of(store.entries@) =~= Map::empty());
        store
    }

    fn find(&self, key: &Key) -> (r: Option<usize>)
        ensures
            match r {
                Some(i) => i < self.entries@.len() && key_at(self.entries@, i as int) == key@,
                None => !present(self.entries@, key@),
            },
    {
        let mut i: usize = 0;
        while i < self.entries.len()
            invariant
                i <= self.entries@.len(),
                forall|j: int| 0 <= j < i ==> key_at(self.entries@, j) != key@,
            decreases self.entries@.len() - i,
        {
            if self.entries[i].record.has_key(key) {
                return Some(i);
            }
            i = i + 1;
        }
        None
    }

    /// Number of rows.
    pub fn len(&self) -> (n: usize)
        ensures
            self@.rows.dom().finite(),
            n == self@.rows.dom().len(),
    {
        proof {
            use_type_invariant(self);
            lemma_row_count(self.entries@);
        }
        self.entries.len()
    }

    /// Whether a row with this key is stored.
    pub fn holds(&self, key: &Key) -> (b: bool)
        ensures
            b == self@.holds(key@),
    {
        self.find(key).is_some()
    }

    /// The stored content of the row with this key, if there is one.
    pub fn record(&self, key: &Key) -> (r: Option<&Record>)
        ensures
            r is Some == self@.holds(key@),
            r matches Some(record) ==> record@ == self@.rows[key@],
    {
        proof {
            use_type_invariant(self);
        }
        match self.find(key) {
            Some(i) => {
                proof {
                    lemma_position(self.entries@, i as int);
                }
                Some(&self.entries[i].record)
            },
            None => None,
        }
    }

    /// Answers a lookup.  The lookup itself never fails.
    pub fn lookup(&self, key: &Key) -> (r: LookupResult)
        ensures
            r == (match self@.lookup(key@) {
                Some(id) => LookupResult::Found { id },
                None => LookupResult::Missing,
            }),
    {
        proof {
            use_type_invariant(self);
        }
        match self.find(key) {
            Some(i) => {
                proof {
                    lemma_position(self.entries@, i as int);
                }
                let id = match key {
                    Key::Issue { .. } => self.entries[i].id,
                    Key::User(id) => *id,
                    Key::Milestone(id) => *id,
                    Key::Comment(id) => *id,
                    Key::PullRequest { number, .. } => *number,
                };
                LookupResult::Found { id }
            },
            None => LookupResult::Missing,
        }
    }

    fn take_entries(&mut self) -> (entries: Vec<Entry>)
        ensures
            entries@ == old(self).entries@,
            final(self).entries@.len() == 0,
            final(self).next_id == old(self).next_id,
    {
        let mut entries: Vec<Entry> = Vec::new();
        std::mem::swap(&mut self.entries, &mut entries);
        entries
    }

    fn resolves(&self, record: &Record) -> (b: bool)
        ensures
            b == self@.resolves(record@),
    {
        let wanted = record.references();
        let mut j: usize = 0;
        while j < wanted.len()
            invariant
                j <= wanted@.len(),
                wanted.deep_view() == record@.references(),
                forall|h: int| 0 <= h < j ==> self@.holds(#[trigger] record@.references()[h]),
            decreases wanted@.len() - j,
        {
            assert(wanted.deep_view()[j as int] == wanted@[j as int]@);
            if self.find(&wanted[j]).is_none() {
                return false;
            }
            j = j + 1;
        }
        true
    }

    /// Performs a statement.  A rejected statement changes nothing and is
    /// answered with the reason as a storage error.
    pub fn execute(&mut self, statement: Statement) -> (r: WriteResult)
        ensures
            match old(self)@.apply(statement@) {
                Some(next) => r is Written && final(self)@ == next,
                None => {
                    &&& final(self)@ == old(self)@
                    &&& r matches WriteResult::Failed(e)
                    &&& e@ == DashErrorView::DieselError(old(self)@.refusal(statement@))
                },
            },
    {
        proof {
            use_type_invariant(&*self);
        }
        match statement {
            Statement::Insert(record) => {
                let key = record.key();
                if self.find(&key).is_some() {
                    return WriteResult::Failed(
                        DashError::DieselError(String::from_str("duplicate key")),
                    );
                }
                if !self.resolves(&record) {
                    return WriteResult::Failed(
                        DashError::DieselError(String::from_str("foreign key violation")),
                    );
                }
                let is_issue = match &record {
                    Record::Issue(_) => true,
                    _ => false,
                };
                if is_issue {
                    if self.next_id == i32::MAX {
                        return WriteResult::Failed(
                            DashError::DieselError(String::from_str("identifiers exhausted")),
                        );
                    }
                    let entry = Entry { record, id: self.next_id };
                    proof {
                        lemma_pushed(self.entries@, entry);
                    }
                    let mut entries = self.take_entries();
                    entries.push(entry);
                    self.entries = entries;
                    self.next_id = self.next_id + 1;
                } else {
                    let entry = Entry { record, id: 0 };
                    proof {
                        lemma_pushed(self.entries@, entry);
                    }
                    let mut entries = self.take_entries();
                    entries.push(entry);
                    self.entries = entries;
                }
                WriteResult::Written
            },
            Statement::Update(row) => {
                let (record, _) = row.into_record();
                if !self.resolves(&record) {
                    return WriteResult::Failed(
                        DashError::DieselError(String::from_str("foreign key violation")),
                    );
                }
                let key = record.key();
                match self.find(&key) {
                    None => {},
                    Some(i) => {
                        let entry = Entry { record, id: self.entries[i].id };
                        proof {
                            lemma_replaced(self.entries@, i as int, entry);
                        }
                        let mut entries = self.take_entries();
                        entries[i] = entry;
                        self.entries = entries;
                    },
                }
                WriteResult::Written
            },
        }
    }
}

/// The outcome `outcome` of the records that were left after `written`
/// writes, counted from the start of the pass.
pub open spec fn after(written: nat, outcome: Outcome) -> Outcome {
    Outcome { store: outcome.store, written: written + outcome.written, rejected: outcome.rejected }
}

/// Whether a report tells the outcome of a pass: the number of records
/// written and, where a record was rejected, its phase and key as a
/// failure to persist, with the reason of the rejection.
pub open spec fn reports(report: Report, outcome: Outcome) -> bool {
    &&& report.written == outcome.written
    &&& match outcome.rejected {
        Some(record) => report.failure matches Some(f) && f.kind == FailureKind::PersistFailure
            && f.phase == record.phase() && f.key@ == record.key() && f.cause@
            == DashErrorView::DieselError(
            outcome.store.refusal(outcome.store.statement_for(record)),
        ),
        None => report.failure is None,
    }
}

/// The record that a statement writes.
pub open spec fn statement_record(statement: StatementView) -> RecordView {
    match statement {
        StatementView::Insert(record) => record,
        StatementView::Update(row) => row.record(),
    }
}

/// What is left of a pass at a step.
pub open spec fn steps_left(step: StepView) -> nat {
    match step {
        StepView::Lookup(l) => 2 * l.rest.len() + 2,
        StepView::Write(_, w) => 2 * w.rest.len() + 1,
        StepView::Finished(_) => 0,
    }
}

/// Runs a pass over `batch` against storage in memory.
pub fn reconcile(batch: Batch, store: &mut MemoryStore) -> (report: Report)
    ensures
        final(store)@ == run(old(store)@, batch.ordered()).store,
        reports(report, run(old(store)@, batch.ordered())),
{
    let ghost total = run(store@, batch.ordered());
    let ghost all = batch.ordered();
    let mut step = begin(batch);
    proof {
        if all.len() > 0 {
            assert(all == seq![all[0]] + all.drop_first());
        }
    }
    loop
        invariant
            total == run(old(store)@, batch.ordered()),
            step@ matches StepView::Lookup(l) ==> total == after(
                l.written,
                run(store@, seq![l.record] + l.rest),
            ),
            step@ matches StepView::Write(s, w) ==> {
                &&& w.key == statement_record(s).key()
                &&& s == store@.statement_for(statement_record(s))
                &&& total == after(w.written, run(store@, seq![statement_record(s)] + w.rest))
            },
            step matches Step::Finished(r) ==> store@ == total.store && reports(r, total),
        decreases steps_left(step@),
    {
        match step {
            Step::Finished(report) => {
                return report;
            },
            Step::Lookup(lookup) => {
                let key = lookup.key();
                let found = store.lookup(&key);
                proof {
                    lemma_row_record(lookup@.record, store@.id_of(key@));
                }
                step = lookup.answer(found);
            },
            Step::Write(statement, pending) => {
                let ghost record = statement_record(statement@);
                let ghost records = seq![record] + pending@.rest;
                let ghost before = store@;
                assert(records[0] == record);
                assert(records.drop_first() == pending@.rest);
                let written = store.execute(statement);
                step = pending.answer(written);
                proof {
                    match before.upsert(record) {
                        Some(next) => {
                            assert(run(before, records) == after(1, run(next, pending@.rest)));
                            if pending@.rest.len() > 0 {
                                assert(pending@.rest == seq![pending@.rest[0]]
                                    + pending@.rest.drop_first());
                            }
                        },
                        None => {
                            assert(run(before, records).rejected == Some(record));
                        },
                    }
                }
            },
        }
    }
}

} // verus!
