//! The export of one mapping: a scan of its key range, page by page, that
//! resumes where it stood when the store expires a transaction.
//!
//! The driver decides; the caller acts. The caller opens a transaction over
//! [`ExportDriver::range`], reads a page, and hands what happened to
//! [`ExportDriver::step`] as a [`ScanEvent`]. The answer is the
//! [`ScanAction`] to perform before the next event.
use crate::clickhouse_message_binding::{MessageBinding, prepared_row};
use crate::clickhouse_table::{
    RowDiscard,
    RowView,
    batch_statement,
    discarded_rows,
    rows_view,
    surviving_rows,
};
use crate::config::Mapping;
use crate::error::{Error, ErrorView};
use crate::protobuf::{MessageValue, Schema};
use std::collections::BTreeMap;
use vstd::prelude::*;
use vstd::string::*;

verus! {

/// Where the scan stands.
#[derive(Debug)]
pub struct Cursor {
    /// The first key of what is left to scan.
    pub from: Vec<u8>,
    /// The next entry read is the one at `from`, which was exported before
    /// the transaction expired: it is to be passed over, once.
    pub skip_first: bool,
}

/// One entry of a page: a key and the decoded message of its value.
#[derive(Debug)]
pub struct PageEntry {
    pub key: Vec<u8>,
    pub message: MessageValue,
}

/// What happened to the scan.
#[derive(Debug)]
pub enum ScanEvent {
    /// The store handed over a page of entries, in the order of their keys.
    Page(Vec<PageEntry>),
    /// The store reported that the transaction is too old to read from.
    Stale,
    /// The store has no more entries in the range.
    End,
}

/// What the caller is to do next.
#[derive(Debug)]
pub enum ScanAction {
    /// Execute the statement, once; then read the next page. A statement
    /// that fails ends the export of this mapping.
    Write(String),
    /// Read the next page; there is nothing to write.
    Next,
    /// Drop the transaction, open a new one over the range, and read its
    /// first page.
    Reopen { from: Vec<u8>, to: Vec<u8> },
    /// The export is done; this many rows were written.
    Finished(u64),
}

/// An entry that gave no row.
#[derive(Debug)]
pub struct RowFailure {
    /// The entry's place in its page.
    pub index: usize,
    /// Why it gave no row.
    pub error: Error,
}

/// The answer to an event: what to do next, and for the log the entries of
/// the page that gave no row and the rows that were left out of the statement
/// (each by its place among the page's rows).
#[derive(Debug)]
pub struct StepOutcome {
    pub action: ScanAction,
    pub failures: Vec<RowFailure>,
    pub discarded: Vec<RowDiscard>,
}

/// The export of one mapping.
#[derive(Debug)]
pub struct ExportDriver {
    /// Where the scan stands.
    pub cursor: Cursor,
    /// The key that ends the range.
    pub to: Vec<u8>,
    /// The rows written so far.
    pub messages_written: u64,
    /// The store has been read to the end of the range.
    pub done: bool,
}

/// What a page comes to: the rows of its entries, the key of the last entry
/// that gave a row, and the entries that gave none.
pub struct PageModel {
    pub rows: Seq<RowView>,
    pub last_key: Option<Seq<u8>>,
    pub failures: Seq<(int, ErrorView)>,
}

/// What the entries `start..end` of a page come to, taken in order. An entry
/// that gives no row is noted and changes nothing else.
pub open spec fn page_between(
    schema: Schema,
    binding: MessageBinding,
    entries: Seq<PageEntry>,
    start: int,
    end: int,
) -> PageModel
    decreases end - start,
{
    if end <= start {
        PageModel { rows: Seq::empty(), last_key: None, failures: Seq::empty() }
    } else {
        let before = page_between(schema, binding, entries, start, end - 1);
        let entry = entries[end - 1];
        match prepared_row(schema, binding, entry.message) {
            Ok(row) => PageModel {
                rows: before.rows.push(row),
                last_key: Some(entry.key@),
                failures: before.failures,
            },
            Err(e) => PageModel {
                rows: before.rows,
                last_key: before.last_key,
                failures: before.failures.push((end - 1, e)),
            },
        }
    }
}

/// The first entry of a page that is looked at: the second one where the
/// first is to be passed over.
pub open spec fn first_taken(skip_first: bool, len: nat) -> int {
    if skip_first && len > 0 {
        1
    } else {
        0
    }
}

/// What a page comes to.
pub open spec fn page_model(
    schema: Schema,
    binding: MessageBinding,
    skip_first: bool,
    entries: Seq<PageEntry>,
) -> PageModel {
    page_between(
        schema,
        binding,
        entries,
        first_taken(skip_first, entries.len()),
        entries.len() as int,
    )
}

/// The cursor after a page: the key of the last entry that gave a row, or
/// the cursor as it was where none did.
pub open spec fn cursor_after(cursor: Seq<u8>, page: PageModel) -> Seq<u8> {
    match page.last_key {
        Some(key) => key,
        None => cursor,
    }
}

/// The entries that gave no row, as the model has them.
pub open spec fn failures_view(failures: Seq<RowFailure>) -> Seq<(int, ErrorView)> {
    Seq::new(failures.len(), |i: int| (failures[i].index as int, failures[i].error@))
}

/// `a` does not come after `b` when byte strings are ordered as the store
/// orders keys: byte by byte, a beginning before what continues it.
pub open spec fn key_le(a: Seq<u8>, b: Seq<u8>) -> bool
    decreases a.len(),
{
    if a.len() == 0 {
        true
    } else if b.len() == 0 {
        false
    } else if a[0] != b[0] {
        a[0] < b[0]
    } else {
        key_le(a.skip(1), b.skip(1))
    }
}

/// Every key of the page is at the cursor or behind it, as the keys of a scan
/// that was opened at the cursor are.
pub open spec fn keys_from(entries: Seq<PageEntry>, cursor: Seq<u8>) -> bool {
    forall|i: int| 0 <= i < entries.len() ==> key_le(cursor, (#[trigger] entries[i]).key@)
}

/// No key comes after itself.
pub proof fn lemma_key_le_reflexive(a: Seq<u8>)
    ensures
        key_le(a, a),
    decreases a.len(),
{
    if a.len() > 0 {
        lemma_key_le_reflexive(a.skip(1));
    }
}

/// The key that a page leaves the cursor at is the key of one of its
/// entries.
pub proof fn lemma_last_key_is_of_page(
    schema: Schema,
    binding: MessageBinding,
    entries: Seq<PageEntry>,
    start: int,
    end: int,
)
    requires
        0 <= start,
        end <= entries.len(),
    ensures
        page_between(schema, binding, entries, start, end).last_key matches Some(key) ==> exists|
            i: int,
        |
            start <= i < end && (#[trigger] entries[i]).key@ == key,
        page_between(schema, binding, entries, start, end).rows.len() + page_between(
            schema,
            binding,
            entries,
            start,
            end,
        ).failures.len() == if end <= start {
            0
        } else {
            end - start
        },
    decreases end - start,
{
    if end > start {
        lemma_last_key_is_of_page(schema, binding, entries, start, end - 1);
        let page = page_between(schema, binding, entries, start, end);
        let before = page_between(schema, binding, entries, start, end - 1);
        if prepared_row(schema, binding, entries[end - 1].message) is Ok {
            assert(entries[end - 1].key@ == page.last_key->0);
        } else if before.last_key is Some {
            let i = choose|i: int|
                start <= i < end - 1 && (#[trigger] entries[i]).key@ == before.last_key->0;
            assert(entries[i].key@ == page.last_key->0);
        }
    }
}

/// The cursor never moves back: after a page whose keys are all at the cursor
/// or behind it, the cursor is where it was or further on. So the range that
/// a transaction is reopened over begins no earlier than the one before.
pub proof fn lemma_cursor_never_moves_back(
    schema: Schema,
    binding: MessageBinding,
    skip_first: bool,
    entries: Seq<PageEntry>,
    cursor: Seq<u8>,
)
    requires
        keys_from(entries, cursor),
    ensures
        key_le(cursor, cursor_after(cursor, page_model(schema, binding, skip_first, entries))),
{
    lemma_key_le_reflexive(cursor);
    lemma_last_key_is_of_page(
        schema,
        binding,
        entries,
        first_taken(skip_first, entries.len()),
        entries.len() as int,
    );
}

/// What stands between `start` and `end` in a page decides alone what those
/// entries come to.
pub proof fn lemma_page_between_depends_on_range(
    schema: Schema,
    binding: MessageBinding,
    a: Seq<PageEntry>,
    b: Seq<PageEntry>,
    start: int,
    end: int,
)
    requires
        0 <= start,
        end <= a.len(),
        end <= b.len(),
        forall|i: int| start <= i < end ==> a[i] == b[i],
    ensures
        page_between(schema, binding, a, start, end) == page_between(schema, binding, b, start, end),
    decreases end - start,
{
    if end > start {
        lemma_page_between_depends_on_range(schema, binding, a, b, start, end - 1);
    }
}

/// The entry at the cursor is not exported twice: on the first page after a
/// transaction was reopened, the first entry gives no row, sets no cursor and
/// is noted nowhere, whatever it holds.
pub proof fn lemma_entry_at_cursor_is_passed_over(
    schema: Schema,
    binding: MessageBinding,
    a: Seq<PageEntry>,
    b: Seq<PageEntry>,
)
    requires
        a.len() == b.len(),
        forall|i: int| 1 <= i < a.len() ==> a[i] == b[i],
    ensures
        page_model(schema, binding, true, a) == page_model(schema, binding, true, b),
{
    if a.len() > 0 {
        lemma_page_between_depends_on_range(schema, binding, a, b, 1, a.len() as int);
    }
}

/// The content of a key that may be absent.
pub open spec fn key_view(key: Option<Vec<u8>>) -> Option<Seq<u8>> {
    match key {
        Some(k) => Some(k@),
        None => None,
    }
}

/// What [`ExportDriver::step`] does: how the driver `after` the event and the
/// answer `outcome` follow from the driver `before` it.
///
/// Once the export is done, nothing changes any more. The end of the range
/// makes it done. A stale transaction is reopened at the cursor, and the
/// entry at the cursor is to be passed over. A page moves the cursor to the
/// last entry that gave a row, counts the rows that reach the statement, and
/// asks for that statement to be written where there is one.
pub open spec fn step_holds(
    before: ExportDriver,
    binding: MessageBinding,
    schema: Schema,
    event: ScanEvent,
    after: ExportDriver,
    outcome: StepOutcome,
) -> bool {
    &&& after.to == before.to
    &&& if before.done {
        &&& after == before
        &&& outcome.action == ScanAction::Finished(before.messages_written)
        &&& outcome.failures@.len() == 0
        &&& outcome.discarded@.len() == 0
    } else {
        match event {
            ScanEvent::End => {
                &&& after.done
                &&& after.cursor == before.cursor
                &&& after.messages_written == before.messages_written
                &&& outcome.action == ScanAction::Finished(before.messages_written)
                &&& outcome.failures@.len() == 0
                &&& outcome.discarded@.len() == 0
            },
            ScanEvent::Stale => {
                &&& !after.done
                &&& after.cursor.skip_first
                &&& after.cursor.from == before.cursor.from
                &&& after.messages_written == before.messages_written
                &&& outcome.action matches ScanAction::Reopen { from, to }
                &&& from@ == before.cursor.from@
                &&& to@ == before.to@
                &&& outcome.failures@.len() == 0
                &&& outcome.discarded@.len() == 0
            },
            ScanEvent::Page(entries) => {
                let page = page_model(schema, binding, before.cursor.skip_first, entries@);
                &&& !after.done
                &&& after.cursor.skip_first == (before.cursor.skip_first && entries@.len() == 0)
                &&& after.cursor.from@ == cursor_after(before.cursor.from@, page)
                &&& after.messages_written == before.messages_written + surviving_rows(
                    binding.table@.columns,
                    page.rows,
                ).len()
                &&& match batch_statement(binding.table@, page.rows) {
                    Some(statement) => outcome.action matches ScanAction::Write(text) && text@
                        == statement,
                    None => outcome.action is Next,
                }
                &&& failures_view(outcome.failures@) == page.failures
                &&& outcome.discarded@ == discarded_rows(binding.table@.columns, page.rows)
            },
        }
    }
}

/// The number of entries that an event brings.
pub open spec fn entries_of(event: ScanEvent) -> nat {
    match event {
        ScanEvent::Page(entries) => entries@.len(),
        _ => 0,
    }
}

fn transform_page(
    binding: &MessageBinding,
    ctx: &Schema,
    entries: &Vec<PageEntry>,
    start: usize,
) -> (r: (Vec<BTreeMap<usize, String>>, Option<Vec<u8>>, Vec<RowFailure>))
    requires
        start <= entries@.len(),
        binding.wf(),
    ensures
        rows_view(r.0@) == page_between(
            *ctx,
            *binding,
            entries@,
            start as int,
            entries@.len() as int,
        ).rows,
        key_view(r.1) == page_between(
            *ctx,
            *binding,
            entries@,
            start as int,
            entries@.len() as int,
        ).last_key,
        failures_view(r.2@) == page_between(
            *ctx,
            *binding,
            entries@,
            start as int,
            entries@.len() as int,
        ).failures,
        r.0@.len() <= entries@.len(),
{
    let mut batch: Vec<BTreeMap<usize, String>> = Vec::new();
    let mut last_key: Option<Vec<u8>> = None;
    let mut failures: Vec<RowFailure> = Vec::new();
    let mut i: usize = start;
    assert(rows_view(batch@) =~= Seq::empty());
    assert(failures_view(failures@) =~= Seq::empty());
    while i < entries.len()
        invariant
            start <= i <= entries@.len(),
            binding.wf(),
            batch@.len() <= i,
            rows_view(batch@) == page_between(*ctx, *binding, entries@, start as int, i as int).rows,
            key_view(last_key) == page_between(
                *ctx,
                *binding,
                entries@,
                start as int,
                i as int,
            ).last_key,
            failures_view(failures@) == page_between(
                *ctx,
                *binding,
                entries@,
                start as int,
                i as int,
            ).failures,
        decreases entries.len() - i,
    {
        let ghost rows_before = rows_view(batch@);
        let ghost failures_before = failures_view(failures@);
        let entry = &entries[i];
        match binding.prepare(ctx, &entry.message) {
            Ok(row) => {
                last_key = Some(entry.key.clone());
                batch.push(row);
                assert(rows_view(batch@) =~= rows_before.push(row_view_of(row)));
            },
            Err(error) => {
                failures.push(RowFailure { index: i, error });
                assert(failures_view(failures@) =~= failures_before.push((i as int, error@)));
            },
        }
        i = i + 1;
    }
    (batch, last_key, failures)
}

/// The content of a row.
pub open spec fn row_view_of(row: BTreeMap<usize, String>) -> RowView {
    crate::clickhouse_table::row_view(row@)
}

impl ExportDriver {
    /// The export of the range from `from` up to `to` (which is not
    /// exported), before anything was read.
    pub fn new(from: Vec<u8>, to: Vec<u8>) -> (driver: ExportDriver)
        ensures
            driver.cursor.from == from,
            !driver.cursor.skip_first,
            driver.to == to,
            driver.messages_written == 0,
            !driver.done,
    {
        ExportDriver {
            cursor: Cursor { from, skip_first: false },
            to,
            messages_written: 0,
            done: false,
        }
    }

    /// The export of the range of `mapping`: its keys are the bytes of the
    /// mapping's two texts.
    pub fn for_mapping(mapping: &Mapping) -> (driver: ExportDriver)
        ensures
            driver.cursor.from@ == vstd::utf8::encode_utf8(mapping.from@),
            !driver.cursor.skip_first,
            driver.to@ == vstd::utf8::encode_utf8(mapping.to@),
            driver.messages_written == 0,
            !driver.done,
    {
        ExportDriver::new(
            mapping.from.as_str().as_bytes_vec(),
            mapping.to.as_str().as_bytes_vec(),
        )
    }

    /// The range that a transaction is to be opened over: from the cursor,
    /// which is read again, up to the end of the mapping's range.
    pub fn range(&self) -> (r: (Vec<u8>, Vec<u8>))
        ensures
            r.0@ == self.cursor.from@,
            r.1@ == self.to@,
    {
        (self.cursor.from.clone(), self.to.clone())
    }

    /// Takes in what happened to the scan and says what to do next, as
    /// [`step_holds`] defines it. The binding must be well formed, and the
    /// rows written must stay countable.
    pub fn step(&mut self, binding: &MessageBinding, ctx: &Schema, event: ScanEvent) -> (outcome:
        StepOutcome)
        requires
            binding.wf(),
            old(self).messages_written + entries_of(event) <= u64::MAX,
        ensures
            step_holds(*old(self), *binding, *ctx, event, *final(self), outcome),
    {
        if self.done {
            return StepOutcome {
                action: ScanAction::Finished(self.messages_written),
                failures: Vec::new(),
                discarded: Vec::new(),
            };
        }
        match event {
            ScanEvent::End => {
                self.done = true;
                StepOutcome {
                    action: ScanAction::Finished(self.messages_written),
                    failures: Vec::new(),
                    discarded: Vec::new(),
                }
            },
            ScanEvent::Stale => {
                self.cursor.skip_first = true;
                StepOutcome {
                    action: ScanAction::Reopen {
                        from: self.cursor.from.clone(),
                        to: self.to.clone(),
                    },
                    failures: Vec::new(),
                    discarded: Vec::new(),
                }
            },
            ScanEvent::Page(entries) => {
                let start: usize = if self.cursor.skip_first && entries.len() > 0 {
                    1
                } else {
                    0
                };
                if entries.len() > 0 {
                    self.cursor.skip_first = false;
                }
                let (batch, last_key, failures) = transform_page(binding, ctx, &entries, start);
                match last_key {
                    Some(key) => {
                        self.cursor.from = key;
                    },
                    None => {},
                }
                let (kept, discarded) = binding.table.complete_rows(&batch);
                let action = if kept.len() == 0 {
                    ScanAction::Next
                } else {
                    self.messages_written = self.messages_written + kept.len() as u64;
                    ScanAction::Write(binding.table.render_rows(&kept))
                };
                StepOutcome { action, failures, discarded }
            },
        }
    }
}

/// The order of keys is transitive.
pub proof fn lemma_key_le_transitive(a: Seq<u8>, b: Seq<u8>, c: Seq<u8>)
    requires
        key_le(a, b),
        key_le(b, c),
    ensures
        key_le(a, c),
    decreases a.len(),
{
    if a.len() > 0 && a[0] == b[0] && b[0] == c[0] {
        lemma_key_le_transitive(a.skip(1), b.skip(1), c.skip(1));
    }
}

/// The driver `after` follows from the driver `before` by one step, on an
/// event whose page, if it brings one, holds no key before the cursor.
pub open spec fn follows(before: ExportDriver, after: ExportDriver) -> bool {
    exists|binding: MessageBinding, schema: Schema, event: ScanEvent, outcome: StepOutcome|
        {
            &&& #[trigger] step_holds(before, binding, schema, event, after, outcome)
            &&& event matches ScanEvent::Page(entries) ==> keys_from(
                entries@,
                before.cursor.from@,
            )
        }
}

/// One step never moves the cursor back, and the range that it asks to
/// reopen begins at the cursor.
pub proof fn lemma_step_never_moves_back(
    before: ExportDriver,
    binding: MessageBinding,
    schema: Schema,
    event: ScanEvent,
    after: ExportDriver,
    outcome: StepOutcome,
)
    requires
        step_holds(before, binding, schema, event, after, outcome),
        event matches ScanEvent::Page(entries) ==> keys_from(entries@, before.cursor.from@),
    ensures
        key_le(before.cursor.from@, after.cursor.from@),
        outcome.action matches ScanAction::Reopen { from, to } ==> from@ == after.cursor.from@ && to@
            == after.to@,
{
    lemma_key_le_reflexive(before.cursor.from@);
    if !before.done {
        match event {
            ScanEvent::Page(entries) => {
                lemma_cursor_never_moves_back(
                    schema,
                    binding,
                    before.cursor.skip_first,
                    entries@,
                    before.cursor.from@,
                );
            },
            _ => {},
        }
    }
}

/// Over any run of steps, with as many stale transactions among them as may
/// be, a later cursor is never before an earlier one.
pub proof fn lemma_cursor_monotonic(drivers: Seq<ExportDriver>, i: int, j: int)
    requires
        forall|k: int| 0 <= k < drivers.len() - 1 ==> follows(#[trigger] drivers[k], drivers[k + 1]),
        0 <= i <= j < drivers.len(),
    ensures
        key_le(drivers[i].cursor.from@, drivers[j].cursor.from@),
    decreases j - i,
{
    if i == j {
        lemma_key_le_reflexive(drivers[i].cursor.from@);
    } else {
        lemma_cursor_monotonic(drivers, i, j - 1);
        assert(follows(drivers[j - 1], drivers[j - 1 + 1]));
        let (binding, schema, event, outcome) = choose|
            binding: MessageBinding,
            schema: Schema,
            event: ScanEvent,
            outcome: StepOutcome,
        |
            {
                &&& #[trigger] step_holds(drivers[j - 1], binding, schema, event, drivers[j], outcome)
                &&& event matches ScanEvent::Page(entries) ==> keys_from(
                    entries@,
                    drivers[j - 1].cursor.from@,
                )
            };
        lemma_step_never_moves_back(drivers[j - 1], binding, schema, event, drivers[j], outcome);
        lemma_key_le_transitive(
            drivers[i].cursor.from@,
            drivers[j - 1].cursor.from@,
            drivers[j].cursor.from@,
        );
    }
}

} // verus!
