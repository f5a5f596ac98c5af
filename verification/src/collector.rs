//! Gathering the exceptions of all components.
//!
//! Each component writes its exceptions into a database of its own, in a
//! directory that all share. Here all that wait to be reported are read back.

use crate::buffer::{
    are_pending, can_count, collected, flushed, keyed_by_signature, loaded, pending,
    pending_samples, Entries, ExceptionBuffer,
};
use crate::buffer_laws::{fetched, law_restart_restores_the_buffer};
use crate::error::{is_reporter_error, labelled, BufferErrorView, CollectorError};
use crate::ids::is_random_uuid;
use crate::record::{record_views, AggregatedView, ExceptionKind, ExceptionRecord, RecordView};
use crate::signature::{compute_signature, signature_of};
use crate::storage::{
    copy_fetched, decoded, decoded_all, decoded_row, fetched_view, fetched_views,
    law_rows_are_read_one_for_one, row_of, storable, FetchedRow, RowView,
};
use crate::text::{at_most, same_text, text_option};
use crate::time::Timestamp;
use vstd::prelude::*;
use vstd::string::*;

verus! {

/// The extension of the files that are databases.
pub const DATABASE_EXTENSION: &'static str = "db";

/// The component of a file whose name does not tell one.
pub const UNKNOWN_COMPONENT: &'static str = "unknown";

/// What a file holds.
#[derive(Debug)]
pub enum FileContents {
    /// Nothing was looked for in it.
    NotLookedAt,
    /// It could not be opened as a database; the text of the error.
    NotOpened(String),
    /// It was opened, but its rows could not be asked for.
    NotQueried,
    /// Its rows.
    Rows(Vec<FetchedRow>),
}

/// A file in the directory of the databases.
#[derive(Debug)]
pub struct ScannedFile {
    /// The extension of its name.
    pub extension: Option<String>,
    /// Its name without the extension, where that is text.
    pub stem: Option<String>,
    /// Its name, as errors show it.
    pub shown: String,
    /// What it holds.
    pub contents: FileContents,
}

/// Whether the file is a database, by its extension.
pub open spec fn names_database(extension: Option<Seq<char>>) -> bool {
    extension == Some(DATABASE_EXTENSION@)
}

/// Whether a file with the given extension is a database.
pub fn is_database(extension: &Option<String>) -> (res: bool)
    ensures
        res == names_database(text_option(*extension)),
{
    match extension {
        Some(text) => same_text(text.as_str(), DATABASE_EXTENSION),
        None => false,
    }
}

/// The component of a file.
pub open spec fn component_of(file: ScannedFile) -> Seq<char> {
    match file.stem {
        Some(stem) => stem@,
        None => UNKNOWN_COMPONENT@,
    }
}

/// The rows that are not marked as reported, and the errors among them.
pub open spec fn unreported_rows(rows: Seq<Result<RowView, Seq<char>>>) -> Seq<
    Result<RowView, Seq<char>>,
>
    decreases rows.len(),
{
    if rows.len() == 0 {
        seq![]
    } else {
        let before = unreported_rows(rows.drop_last());
        if rows.last() matches Ok(row) && row.reported != 0 {
            before
        } else {
            before.push(rows.last())
        }
    }
}

/// What rows hold that are not marked as reported: nothing where one of them
/// cannot be read.
pub open spec fn entries_of_rows(rows: Seq<Result<RowView, Seq<char>>>) -> Entries {
    match decoded_all(unreported_rows(rows)) {
        Ok(aggs) => loaded(Map::empty(), aggs),
        Err(_) => Map::empty(),
    }
}

/// What a file holds that is not marked as reported.
pub open spec fn entries_of(file: ScannedFile) -> Entries {
    match file.contents {
        FileContents::Rows(rows) => entries_of_rows(fetched_views(rows@)),
        _ => Map::empty(),
    }
}

/// Whether anything waits to be reported.
pub open spec fn has_pending(m: Entries) -> bool {
    exists|k: Seq<char>| #[trigger] pending(m, k)
}

/// Whether the file is a database that could not be opened.
pub open spec fn is_broken(file: ScannedFile) -> bool {
    names_database(text_option(file.extension)) && file.contents is NotOpened
}

/// Whether the file is a database in which something waits to be reported.
pub open spec fn has_news(file: ScannedFile) -> bool {
    names_database(text_option(file.extension)) && has_pending(entries_of(file))
}

/// The error that a database that could not be opened leads to.
pub open spec fn open_error_text(file: ScannedFile) -> Seq<char> {
    match file.contents {
        FileContents::NotOpened(message) => "failed to open "@ + file.shown@ + ": "@ + message@,
        _ => seq![],
    }
}

/// Whether `found` lists what waits to be reported in `files`: for each database
/// in which something waits, in order, its component and its samples.
pub open spec fn finds(found: Seq<(String, Vec<ExceptionRecord>)>, files: Seq<ScannedFile>) -> bool
    decreases files.len(),
{
    if files.len() == 0 {
        found.len() == 0
    } else if has_news(files.last()) {
        &&& found.len() > 0
        &&& found.last().0@ == component_of(files.last())
        &&& are_pending(entries_of(files.last()), record_views(found.last().1@))
        &&& finds(found.drop_last(), files.drop_last())
    } else {
        finds(found, files.drop_last())
    }
}

/// The rows that are not marked as reported.
fn without_reported(rows: &Vec<FetchedRow>) -> (res: Vec<FetchedRow>)
    ensures
        fetched_views(res@) == unreported_rows(fetched_views(rows@)),
{
    let ghost all = fetched_views(rows@);
    let mut out: Vec<FetchedRow> = Vec::new();
    let mut i: usize = 0;
    assert(fetched_views(out@) == Seq::<Result<RowView, Seq<char>>>::empty());
    while i < rows.len()
        invariant
            i <= rows@.len(),
            all == fetched_views(rows@),
            fetched_views(out@) == unreported_rows(all.take(i as int)),
        decreases rows@.len() - i,
    {
        proof {
            assert(all.take(i + 1).drop_last() == all.take(i as int));
            assert(all.take(i + 1).last() == fetched_view(rows@[i as int]));
        }
        let skip = match &rows[i] {
            Ok(row) => row.reported != 0,
            Err(_) => false,
        };
        if !skip {
            let ghost before = fetched_views(out@);
            out.push(copy_fetched(&rows[i]));
            assert(fetched_views(out@) == before.push(all[i as int]));
        }
        i = i + 1;
    }
    assert(all.take(rows@.len() as int) == all);
    out
}

/// The samples of a database that wait to be reported, in no certain order.
/// Rows that are marked as reported are skipped.
pub fn unreported_in(rows: &Vec<FetchedRow>) -> (res: Vec<ExceptionRecord>)
    ensures
        are_pending(entries_of_rows(fetched_views(rows@)), record_views(res@)),
{
    let mut buffer = ExceptionBuffer::new();
    let _ = buffer.load(&without_reported(rows));
    buffer.unreported_samples()
}

/// What waits to be reported, by component, in the databases among `files`. The
/// first database that could not be opened is the error.
pub fn collect_unreported(files: &Vec<ScannedFile>) -> (res: Result<
    Vec<(String, Vec<ExceptionRecord>)>,
    CollectorError,
>)
    ensures
        match res {
            Ok(found) => (forall|i: int|
                0 <= i < files@.len() ==> !is_broken(#[trigger] files@[i])) && finds(
                found@,
                files@,
            ),
            Err(e) => exists|i: int| #[trigger]
                is_first_broken(files@, i) && is_reporter_error(e, open_error_text(files@[i])),
        },
{
    let mut out: Vec<(String, Vec<ExceptionRecord>)> = Vec::new();
    let mut i: usize = 0;
    while i < files.len()
        invariant
            i <= files@.len(),
            forall|k: int| 0 <= k < i ==> !is_broken(#[trigger] files@[k]),
            finds(out@, files@.take(i as int)),
        decreases files@.len() - i,
    {
        let file = &files[i];
        let ghost before = out@;
        proof {
            assert(files@.take(i + 1).drop_last() == files@.take(i as int));
            assert(files@.take(i + 1).last() == *file);
        }
        if is_database(&file.extension) {
            match &file.contents {
                FileContents::NotOpened(message) => {
                    let mut reason = labelled("failed to open ", file.shown.as_str());
                    reason.append(": ");
                    reason.append(message.as_str());
                    assert(is_first_broken(files@, i as int));
                    return Err(CollectorError::Reporter { reason });
                },
                FileContents::Rows(rows) => {
                    let samples = unreported_in(rows);
                    proof {
                        lemma_pending_samples(entries_of(*file), record_views(samples@));
                    }
                    if samples.len() > 0 {
                        let component = match &file.stem {
                            Some(stem) => stem.clone(),
                            None => String::from_str(UNKNOWN_COMPONENT),
                        };
                        out.push((component, samples));
                        assert(out@.drop_last() == before);
                    }
                },
                FileContents::NotQueried | FileContents::NotLookedAt => {
                    assert(!has_news(*file)) by {
                        if has_pending(entries_of(*file)) {
                            let k = choose|k: Seq<char>| #[trigger] pending(entries_of(*file), k);
                            assert(entries_of(*file).contains_key(k));
                        }
                    }
                },
            }
        }
        i = i + 1;
    }
    assert(files@.take(files@.len() as int) == files@);
    Ok(out)
}

/// Whether `i` is the place of the first database that could not be opened.
pub open spec fn is_first_broken(files: Seq<ScannedFile>, i: int) -> bool {
    &&& 0 <= i < files.len()
    &&& is_broken(files[i])
    &&& forall|k: int| 0 <= k < i ==> !is_broken(#[trigger] files[k])
}

/// There are samples exactly where something waits to be reported.
proof fn lemma_pending_samples(m: Entries, samples: Seq<RecordView>)
    requires
        are_pending(m, samples),
    ensures
        (samples.len() > 0) == has_pending(m),
{
    let keys = choose|keys: Seq<Seq<char>>| #[trigger] pending_samples(m, keys, samples);
    if samples.len() > 0 {
        assert(keys.contains(keys[0]));
        assert(pending(m, keys[0]));
    }
    if has_pending(m) {
        let k = choose|k: Seq<char>| #[trigger] pending(m, k);
        assert(keys.contains(k));
    }
}

/// The record of an explicit error.
pub open spec fn error_record(
    id: u128,
    timestamp: Timestamp,
    component: Seq<char>,
    message: Seq<char>,
) -> RecordView {
    RecordView::fresh(id, timestamp, component, ExceptionKind::ResultErr, message, ""@)
}

/// Whether one more explicit error of this component and message can be counted.
pub open spec fn can_count_error(m: Entries, component: Seq<char>, message: Seq<char>) -> bool {
    forall|id: u128, timestamp: Timestamp|
        can_count(m, signature_of(#[trigger] error_record(id, timestamp, component, message)))
}

/// Whether `after` is `m` with one more explicit error, signed, at some time.
pub open spec fn counts_error(
    m: Entries,
    after: Entries,
    component: Seq<char>,
    message: Seq<char>,
) -> bool {
    exists|id: u128, timestamp: Timestamp, now: Timestamp| #[trigger]
        counts_error_at(m, after, component, message, id, timestamp, now)
}

/// Whether `after` is `m` with the explicit error of the random UUID `id` and of
/// `timestamp`, signed, counted at `now`.
pub open spec fn counts_error_at(
    m: Entries,
    after: Entries,
    component: Seq<char>,
    message: Seq<char>,
    id: u128,
    timestamp: Timestamp,
    now: Timestamp,
) -> bool {
    let record = error_record(id, timestamp, component, message);
    let signature = signature_of(record);
    is_random_uuid(id) && after == collected(m, signature, now, record.signed(signature))
}

/// The signed record of an explicit error that has just happened.
fn signed_error(component: &str, error_message: &str) -> (res: ExceptionRecord)
    ensures
        is_random_uuid(res@.id),
        ({
            let record = error_record(res@.id, res@.timestamp, component@, error_message@);
            res@ == record.signed(signature_of(record))
        }),
{
    let mut record = ExceptionRecord::new(component, ExceptionKind::ResultErr, error_message, "");
    record.dedup_signature = compute_signature(&record);
    record
}

/// Counts an explicit error in a buffer.
pub fn collect_result_err(buffer: &mut ExceptionBuffer, component: &str, error_message: &str)
    requires
        can_count_error(old(buffer)@, component@, error_message@),
    ensures
        counts_error(old(buffer)@, final(buffer)@, component@, error_message@),
        old(buffer).wf() ==> final(buffer).wf(),
{
    let record = signed_error(component, error_message);
    let ghost id = record@.id;
    let ghost timestamp = record@.timestamp;
    let ghost signature = signature_of(error_record(id, timestamp, component@, error_message@));
    let ghost view = record@;
    let ghost before = buffer@;
    assert(signature_of(view) == signature);
    buffer.collect(record);
    proof {
        let now = choose|now: Timestamp|
            buffer@ == #[trigger] collected(before, signature_of(view), now, view);
        assert(counts_error_at(before, buffer@, component@, error_message@, id, timestamp, now));
    }
}

/// Counts an explicit error in a buffer, unless as many of its signature were
/// counted as can be.
pub fn try_collect_result_err(
    buffer: &mut ExceptionBuffer,
    component: &str,
    error_message: &str,
) -> (res: bool)
    ensures
        res == can_count_error(old(buffer)@, component@, error_message@),
        res ==> counts_error(old(buffer)@, final(buffer)@, component@, error_message@),
        !res ==> final(buffer)@ == old(buffer)@,
        old(buffer).wf() ==> final(buffer).wf(),
{
    let probe = signed_error(component, error_message);
    let signature = compute_signature(&probe);
    let full = match buffer.get(signature.as_str()) {
        Some(found) => found.count == u32::MAX,
        None => false,
    };
    proof {
        let known = error_record(
            probe@.id,
            probe@.timestamp,
            component@,
            error_message@,
        );
        assert(signature_of(probe@) == signature_of(known));
        assert forall|id: u128, timestamp: Timestamp|
            signature_of(#[trigger] error_record(id, timestamp, component@, error_message@))
                == signature@ by {}
        if full {
            assert(!can_count(
                buffer@,
                signature_of(error_record(probe@.id, probe@.timestamp, component@, error_message@)),
            ));
        }
    }
    if full {
        return false;
    }
    collect_result_err(buffer, component, error_message);
    true
}

/// Of the rows that count, none is marked as reported.
pub proof fn law_marked_rows_are_skipped(rows: Seq<Result<RowView, Seq<char>>>)
    ensures
        forall|i: int|
            0 <= i < unreported_rows(rows).len() ==> ((#[trigger] unreported_rows(rows)[i]) matches Ok(
                row,
            ) ==> row.reported == 0),
    decreases rows.len(),
{
    if rows.len() > 0 {
        law_marked_rows_are_skipped(rows.drop_last());
    }
}

/// Those of `rows` that are not marked as reported, in order.
pub open spec fn unmarked(rows: Seq<RowView>) -> Seq<RowView>
    decreases rows.len(),
{
    if rows.len() == 0 {
        seq![]
    } else if rows.last().reported != 0 {
        unmarked(rows.drop_last())
    } else {
        unmarked(rows.drop_last()).push(rows.last())
    }
}

/// The rows that count are those that are not marked as reported, each once.
proof fn lemma_unmarked(rows: Seq<RowView>)
    ensures
        unreported_rows(fetched(rows)) == fetched(unmarked(rows)),
        forall|i: int|
            0 <= i < unmarked(rows).len() ==> (#[trigger] unmarked(rows)[i]).reported == 0
                && rows.contains(unmarked(rows)[i]),
        forall|i: int|
            0 <= i < rows.len() && (#[trigger] rows[i]).reported == 0 ==> unmarked(rows).contains(
                rows[i],
            ),
        (forall|i: int, j: int|
            0 <= i < j < rows.len() ==> (#[trigger] rows[i]).signature != (
            #[trigger] rows[j]).signature) ==> forall|i: int, j: int|
            0 <= i < j < unmarked(rows).len() ==> (#[trigger] unmarked(rows)[i]).signature != (
            #[trigger] unmarked(rows)[j]).signature,
    decreases rows.len(),
{
    if rows.len() == 0 {
        assert(fetched(rows) == Seq::<Result<RowView, Seq<char>>>::empty());
        assert(fetched(unmarked(rows)) == Seq::<Result<RowView, Seq<char>>>::empty());
    } else {
        let before = rows.drop_last();
        let last = rows.last();
        let n = before.len() as int;
        lemma_unmarked(before);
        assert(fetched(rows).drop_last() == fetched(before));
        assert(fetched(rows).last() == Ok::<RowView, Seq<char>>(last));
        let kept = unmarked(before);
        if last.reported == 0 {
            assert(fetched(kept).push(Ok(last)) == fetched(kept.push(last)));
        }
        assert forall|i: int| 0 <= i < unmarked(rows).len() implies (#[trigger] unmarked(
            rows,
        )[i]).reported == 0 && rows.contains(unmarked(rows)[i]) by {
            if i < kept.len() {
                assert(unmarked(rows)[i] == kept[i]);
                let j = choose|j: int| 0 <= j < before.len() && before[j] == kept[i];
                assert(rows[j] == kept[i]);
            } else {
                assert(rows[n] == last);
            }
        }
        assert forall|i: int| 0 <= i < rows.len() && (#[trigger] rows[i]).reported == 0 implies unmarked(
            rows,
        ).contains(rows[i]) by {
            if i < n {
                assert(before[i] == rows[i]);
                let j = choose|j: int| 0 <= j < kept.len() && kept[j] == before[i];
                assert(unmarked(rows)[j] == rows[i]);
            } else {
                assert(unmarked(rows)[kept.len() as int] == last);
            }
        }
        if forall|i: int, j: int|
            0 <= i < j < rows.len() ==> (#[trigger] rows[i]).signature != (
            #[trigger] rows[j]).signature {
            assert forall|i: int, j: int| 0 <= i < j < before.len() implies (
            #[trigger] before[i]).signature != (#[trigger] before[j]).signature by {
                assert(rows[i].signature != rows[j].signature);
            }
            assert forall|i: int, j: int| 0 <= i < j < unmarked(rows).len() implies (
            #[trigger] unmarked(rows)[i]).signature != (#[trigger] unmarked(rows)[j]).signature by {
                assert(unmarked(rows)[i] == kept[i]);
                if j < kept.len() {
                    assert(unmarked(rows)[j] == kept[j]);
                } else {
                    assert(before.contains(kept[i]));
                    let k = choose|k: int| 0 <= k < before.len() && before[k] == kept[i];
                    assert(rows[k].signature != rows[n].signature);
                }
            }
        }
    }
}

/// What of `m` waits to be reported.
pub open spec fn waiting(m: Entries) -> Entries {
    Map::new(|k: Seq<char>| pending(m, k), |k: Seq<char>| m[k])
}

/// What a component has stored is found again: the rows that a buffer is
/// stored in hold all of it that waits to be reported, and nothing else.
pub proof fn law_what_was_flushed_is_found(m: Entries, rows: Seq<RowView>)
    requires
        keyed_by_signature(m),
        flushed(m, rows),
        forall|k: Seq<char>| #[trigger] m.contains_key(k) ==> storable(m[k]),
    ensures
        entries_of_rows(fetched(rows)) == waiting(m),
{
    lemma_unmarked(rows);
    let kept = unmarked(rows);
    let left = waiting(m);
    assert forall|i: int| 0 <= i < kept.len() implies left.contains_key(
        (#[trigger] kept[i]).signature,
    ) && kept[i] == row_of(left[kept[i].signature]) && (storable(left[kept[i].signature])
        ==> decoded_row(kept[i]) == Ok::<AggregatedView, BufferErrorView>(
        left[kept[i].signature],
    )) by {
        let j = choose|j: int| 0 <= j < rows.len() && rows[j] == kept[i];
        assert(m.contains_key(rows[j].signature));
        assert(rows[j] == row_of(m[rows[j].signature]));
        assert(!m[rows[j].signature].sample.reported);
    }
    assert forall|k: Seq<char>| #[trigger] left.contains_key(k) implies exists|i: int|
        0 <= i < kept.len() && (#[trigger] kept[i]).signature == k by {
        assert(m.contains_key(k));
        let j = choose|j: int| 0 <= j < rows.len() && (#[trigger] rows[j]).signature == k;
        assert(rows[j] == row_of(m[rows[j].signature]));
        assert(kept.contains(rows[j]));
        let i = choose|i: int| 0 <= i < kept.len() && kept[i] == rows[j];
        assert(kept[i].signature == k);
    }
    assert(flushed(left, kept));
    law_restart_restores_the_buffer(left, kept);
}

/// Rows count one by one, in order: one that is marked as reported does not, any
/// other does as it is, and so does an error.
pub proof fn law_unmarked_rows_count(
    a: Seq<Result<RowView, Seq<char>>>,
    b: Seq<Result<RowView, Seq<char>>>,
    row: RowView,
    message: Seq<char>,
)
    ensures
        unreported_rows(a + b) == unreported_rows(a) + unreported_rows(b),
        row.reported == 0 ==> unreported_rows(seq![Ok(row)]) == seq![Ok::<RowView, Seq<char>>(row)],
        row.reported != 0 ==> unreported_rows(seq![Ok(row)]).len() == 0,
        unreported_rows(seq![Err(message)]) == seq![Err::<RowView, Seq<char>>(message)],
    decreases b.len(),
{
    let none = Seq::<Result<RowView, Seq<char>>>::empty();
    let good = seq![Ok::<RowView, Seq<char>>(row)];
    let bad = seq![Err::<RowView, Seq<char>>(message)];
    assert(good.drop_last() == none && bad.drop_last() == none);
    assert(unreported_rows(none) == none);
    assert(none.push(good[0]) == good && none.push(bad[0]) == bad);
    if b.len() == 0 {
        assert(a + b == a);
        assert(unreported_rows(a) + unreported_rows(b) == unreported_rows(a));
    } else {
        law_unmarked_rows_count(a, b.drop_last(), row, message);
        assert((a + b).drop_last() == a + b.drop_last());
        assert((a + b).last() == b.last());
        assert(unreported_rows(a + b) == unreported_rows(a) + unreported_rows(b));
    }
}

/// Each database in which something waits is listed, with its component and
/// with all that waits in it.
pub proof fn law_every_database_with_news_is_listed(
    found: Seq<(String, Vec<ExceptionRecord>)>,
    files: Seq<ScannedFile>,
    i: int,
)
    requires
        finds(found, files),
        0 <= i < files.len(),
        has_news(files[i]),
    ensures
        exists|j: int| 0 <= j < found.len() && lists_file(#[trigger] found[j], files[i]),
    decreases files.len(),
{
    let before = files.drop_last();
    let kept = if has_news(files.last()) {
        found.drop_last()
    } else {
        found
    };
    if i < before.len() {
        assert(before[i] == files[i]);
        law_every_database_with_news_is_listed(kept, before, i);
        let j = choose|j: int| 0 <= j < kept.len() && lists_file(#[trigger] kept[j], before[i]);
        assert(found[j] == kept[j]);
    } else {
        assert(lists_file(found[found.len() - 1], files[i]));
    }
}

/// Nothing is listed but databases in which something waits.
pub proof fn law_only_databases_with_news_are_listed(
    found: Seq<(String, Vec<ExceptionRecord>)>,
    files: Seq<ScannedFile>,
    j: int,
)
    requires
        finds(found, files),
        0 <= j < found.len(),
    ensures
        exists|i: int|
            0 <= i < files.len() && has_news(#[trigger] files[i]) && lists_file(found[j], files[i]),
    decreases files.len(),
{
    let before = files.drop_last();
    let n = files.len() - 1;
    if has_news(files.last()) && j == found.len() - 1 {
        assert(has_news(files[n]) && lists_file(found[j], files[n]));
    } else {
        let kept = if has_news(files.last()) {
            found.drop_last()
        } else {
            found
        };
        assert(kept[j] == found[j]);
        law_only_databases_with_news_are_listed(kept, before, j);
        let i = choose|i: int|
            0 <= i < before.len() && has_news(#[trigger] before[i]) && lists_file(kept[j], before[i]);
        assert(files[i] == before[i]);
    }
}

/// Whether an entry of a list tells the component of a file, and holds all that
/// waits in it.
pub open spec fn lists_file(entry: (String, Vec<ExceptionRecord>), file: ScannedFile) -> bool {
    &&& entry.0@ == component_of(file)
    &&& are_pending(entries_of(file), record_views(entry.1@))
}

/// A list of what waits is made file by file, in order.
pub proof fn law_listing_goes_file_by_file(
    found: Seq<(String, Vec<ExceptionRecord>)>,
    files: Seq<ScannedFile>,
    more: Seq<(String, Vec<ExceptionRecord>)>,
    others: Seq<ScannedFile>,
)
    requires
        finds(found, files),
        finds(more, others),
    ensures
        finds(found + more, files + others),
    decreases others.len(),
{
    if others.len() == 0 {
        assert(found + more == found);
        assert(files + others == files);
    } else {
        assert((files + others).drop_last() == files + others.drop_last());
        assert((files + others).last() == others.last());
        if has_news(others.last()) {
            law_listing_goes_file_by_file(found, files, more.drop_last(), others.drop_last());
            assert((found + more).drop_last() == found + more.drop_last());
            assert((found + more).last() == more.last());
        } else {
            law_listing_goes_file_by_file(found, files, more, others.drop_last());
        }
    }
}

/// Two lists of what waits in the same files tell the same components, in the
/// same order.
pub proof fn law_the_files_decide_the_list(
    one: Seq<(String, Vec<ExceptionRecord>)>,
    other: Seq<(String, Vec<ExceptionRecord>)>,
    files: Seq<ScannedFile>,
)
    requires
        finds(one, files),
        finds(other, files),
    ensures
        one.len() == other.len(),
        forall|i: int| 0 <= i < one.len() ==> (#[trigger] one[i]).0@ == other[i].0@,
    decreases files.len(),
{
    if files.len() > 0 {
        if has_news(files.last()) {
            let a = one.drop_last();
            let b = other.drop_last();
            law_the_files_decide_the_list(a, b, files.drop_last());
            assert forall|i: int| 0 <= i < one.len() implies (#[trigger] one[i]).0@
                == other[i].0@ by {
                if i < a.len() {
                    assert(a[i].0@ == b[i].0@);
                }
            }
        } else {
            law_the_files_decide_the_list(one, other, files.drop_last());
        }
    }
}

/// A file has news exactly where its extension is that of a database, it was
/// opened, and something of what its rows hold waits to be reported. Its
/// component is its name without the extension.
pub proof fn law_news_stand_in_databases(file: ScannedFile, stem: String)
    ensures
        has_news(file) <==> text_option(file.extension) == Some("db"@) && (
        file.contents matches FileContents::Rows(rows) && exists|k: Seq<char>|
            entries_of_rows(fetched_views(rows@)).contains_key(k) && !(
            #[trigger] entries_of_rows(fetched_views(rows@))[k]).sample.reported),
        component_of(ScannedFile { stem: Some(stem), ..file }) == stem@,
        component_of(ScannedFile { stem: None, ..file }) == "unknown"@,
        is_broken(file) <==> text_option(file.extension) == Some("db"@)
            && file.contents is NotOpened,
        file.contents matches FileContents::NotOpened(message) ==> open_error_text(file)
            == "failed to open "@ + file.shown@ + ": "@ + message@,
{
    match file.contents {
        FileContents::Rows(rows) => {
            let m = entries_of_rows(fetched_views(rows@));
            if has_pending(m) {
                let k = choose|k: Seq<char>| #[trigger] pending(m, k);
                assert(m.contains_key(k) && !m[k].sample.reported);
            }
            if exists|k: Seq<char>| m.contains_key(k) && !(#[trigger] m[k]).sample.reported {
                let k = choose|k: Seq<char>|
                    m.contains_key(k) && !(#[trigger] m[k]).sample.reported;
                assert(pending(m, k));
            }
        },
        _ => {
            if has_pending(entries_of(file)) {
                let k = choose|k: Seq<char>| #[trigger] pending(entries_of(file), k);
                assert(entries_of(file).contains_key(k));
            }
        },
    }
}

/// Where a row that is not marked as reported cannot be read, nothing of its
/// database counts.
pub proof fn law_an_unreadable_row_hides_its_database(
    rows: Seq<Result<RowView, Seq<char>>>,
    i: int,
)
    requires
        0 <= i < rows.len(),
        decoded(rows[i]) is Err,
        rows[i] matches Ok(row) ==> row.reported == 0,
    ensures
        entries_of_rows(rows) == Map::<Seq<char>, AggregatedView>::empty(),
{
    let a = rows.take(i);
    let b = rows.skip(i + 1);
    let one = seq![rows[i]];
    assert(rows == a + one + b);
    let row = RowView {
        signature: seq![],
        first_seen: seq![],
        last_seen: seq![],
        count: 0,
        sample: Err(seq![]),
        reported: 0,
    };
    law_unmarked_rows_count(a + one, b, row, seq![]);
    law_unmarked_rows_count(a, one, row, seq![]);
    match rows[i] {
        Ok(found) => law_unmarked_rows_count(a, b, found, seq![]),
        Err(message) => law_unmarked_rows_count(a, b, row, message),
    }
    let kept = unreported_rows(rows);
    let n = unreported_rows(a).len() as int;
    assert(kept[n] == rows[i]);
    law_rows_are_read_one_for_one(kept);
}

/// An explicit error counts as one more exception of its component and message,
/// without a stack trace. It is signed: it stands under its own signature.
pub proof fn law_an_explicit_error_is_counted_once(
    m: Entries,
    after: Entries,
    component: Seq<char>,
    message: Seq<char>,
)
    requires
        counts_error(m, after, component, message),
        can_count_error(m, component, message),
    ensures
        exists|signature: Seq<char>|
            after.dom() == #[trigger] m.dom().insert(signature) && (m.contains_key(signature)
                ==> after[signature].count == m[signature].count + 1 && after[signature].sample
                == m[signature].sample) && (!m.contains_key(signature) ==> {
                let sample = after[signature].sample;
                &&& after[signature].count == 1
                &&& sample.component == component
                &&& sample.kind == ExceptionKind::ResultErr
                &&& sample.message == at_most(message, 500)
                &&& sample.stacktrace.len() == 0
                &&& sample.dedup_signature == signature
                &&& signature_of(sample) == signature
                &&& !sample.reported
            }) && forall|k: Seq<char>| #[trigger]
                m.contains_key(k) && k != signature ==> after[k] == m[k],
{
    reveal_strlit("");
    let (id, timestamp, now) = choose|id: u128, timestamp: Timestamp, now: Timestamp| #[trigger]
        counts_error_at(m, after, component, message, id, timestamp, now);
    let record = error_record(id, timestamp, component, message);
    let signature = signature_of(record);
    assert(can_count(m, signature));
    assert(after == collected(m, signature, now, record.signed(signature)));
    assert(after.dom() =~= m.dom().insert(signature));
    assert(signature_of(record.signed(signature)) == signature);
}

} // verus!
