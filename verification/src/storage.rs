//! The rows in which aggregated exceptions are stored.

use crate::error::{BufferError, BufferErrorView, BufferResult, CollectorError, CollectorResult};
use crate::record::{
    aggregated_views, AggregatedException, AggregatedView, ExceptionRecord, RecordView,
};
use crate::time::{
    from_rfc3339, reads_as, rfc3339_text, rfc3339_value, to_rfc3339, Timestamp,
};
use vstd::prelude::*;

verus! {

/// A row of the table of aggregated exceptions.
#[derive(Debug)]
pub struct StoredRow {
    /// The signature, which is the key of the row.
    pub signature: String,
    /// When the first exception happened, in RFC 3339.
    pub first_seen: String,
    /// When the latest exception happened, in RFC 3339.
    pub last_seen: String,
    /// How many exceptions there were.
    pub count: i64,
    /// The sample, or what the JSON parser said of it.
    pub sample: Result<ExceptionRecord, String>,
    /// Whether the row is marked as reported: one, or zero.
    pub reported: i32,
}

/// What a [`StoredRow`] holds.
pub struct RowView {
    /// See [`StoredRow::signature`].
    pub signature: Seq<char>,
    /// See [`StoredRow::first_seen`].
    pub first_seen: Seq<char>,
    /// See [`StoredRow::last_seen`].
    pub last_seen: Seq<char>,
    /// See [`StoredRow::count`].
    pub count: i64,
    /// See [`StoredRow::sample`].
    pub sample: Result<RecordView, Seq<char>>,
    /// See [`StoredRow::reported`].
    pub reported: i32,
}

impl View for StoredRow {
    type V = RowView;

    open spec fn view(&self) -> RowView {
        RowView {
            signature: self.signature@,
            first_seen: self.first_seen@,
            last_seen: self.last_seen@,
            count: self.count,
            sample: match self.sample {
                Ok(sample) => Ok(sample@),
                Err(message) => Err(message@),
            },
            reported: self.reported,
        }
    }
}

/// A row as the database hands it out, or what the database said.
pub type FetchedRow = Result<StoredRow, String>;

/// What a [`FetchedRow`] holds.
pub open spec fn fetched_view(row: FetchedRow) -> Result<RowView, Seq<char>> {
    match row {
        Ok(row) => Ok(row@),
        Err(message) => Err(message@),
    }
}

impl Clone for StoredRow {
    fn clone(&self) -> (res: Self)
        ensures
            res@ == self@,
    {
        StoredRow {
            signature: self.signature.clone(),
            first_seen: self.first_seen.clone(),
            last_seen: self.last_seen.clone(),
            count: self.count,
            sample: match &self.sample {
                Ok(sample) => Ok(sample.clone()),
                Err(message) => Err(message.clone()),
            },
            reported: self.reported,
        }
    }
}

/// A copy of a fetched row.
pub(crate) fn copy_fetched(row: &FetchedRow) -> (res: FetchedRow)
    ensures
        fetched_view(res) == fetched_view(*row),
{
    match row {
        Ok(row) => Ok(row.clone()),
        Err(message) => Err(message.clone()),
    }
}

/// What a sequence of fetched rows holds.
pub open spec fn fetched_views(rows: Seq<FetchedRow>) -> Seq<Result<RowView, Seq<char>>> {
    Seq::new(rows.len(), |i: int| fetched_view(rows[i]))
}

/// What a sequence of rows holds.
pub open spec fn row_views(rows: Seq<StoredRow>) -> Seq<RowView> {
    Seq::new(rows.len(), |i: int| rows[i]@)
}

/// Writes an instant in RFC 3339.
pub fn format_rfc3339(instant: &Timestamp) -> (res: String)
    ensures
        res@ == rfc3339_text(*instant),
        instant.in_four_digit_years() ==> reads_as(res@, *instant),
{
    to_rfc3339(instant)
}

/// Reads an instant in RFC 3339; a text that is none is an error of the database.
pub fn parse_rfc3339(s: &str) -> (res: CollectorResult<Timestamp>)
    ensures
        match res {
            Ok(instant) => reads_as(s@, instant),
            Err(e) => rfc3339_value(s@) matches Err(message) && e matches CollectorError::Sqlite(m)
                && m@ == message,
        },
{
    match from_rfc3339(s) {
        Ok(instant) => Ok(instant),
        Err(message) => Err(CollectorError::Sqlite(message)),
    }
}

/// The row that stores `agg`, marked as reported where its sample is.
pub open spec fn row_of(agg: AggregatedView) -> RowView {
    RowView {
        signature: agg.signature,
        first_seen: rfc3339_text(agg.first_seen),
        last_seen: rfc3339_text(agg.last_seen),
        count: agg.count as i64,
        sample: Ok(agg.sample),
        reported: if agg.sample.reported {
            1
        } else {
            0
        },
    }
}

/// Whether both times of `agg` lie in the years that four digits can tell.
pub open spec fn storable(agg: AggregatedView) -> bool {
    agg.first_seen.in_four_digit_years() && agg.last_seen.in_four_digit_years()
}

/// The number of exceptions that a stored count stands for: a count out of
/// range stands for as many as can be counted.
pub open spec fn count_of(stored: i64) -> u32 {
    if 0 <= stored <= u32::MAX {
        stored as u32
    } else {
        u32::MAX
    }
}

/// The sample of a row: where the row is marked as reported, so is the sample.
pub open spec fn sample_of(sample: RecordView, reported: i32) -> RecordView {
    if reported != 0 {
        sample.marked()
    } else {
        sample
    }
}

/// What a row stands for: the first of its times and its sample that cannot be
/// read, in this order, is the error.
pub open spec fn decoded_row(row: RowView) -> Result<AggregatedView, BufferErrorView> {
    match rfc3339_value(row.first_seen) {
        Err(message) => Err(BufferErrorView::Sqlite(message)),
        Ok(first_seen) => match rfc3339_value(row.last_seen) {
            Err(message) => Err(BufferErrorView::Sqlite(message)),
            Ok(last_seen) => match row.sample {
                Err(message) => Err(BufferErrorView::SerdeJson(message)),
                Ok(sample) => Ok(
                    AggregatedView {
                        signature: row.signature,
                        first_seen,
                        last_seen,
                        count: count_of(row.count),
                        sample: sample_of(sample, row.reported),
                    },
                ),
            },
        },
    }
}

/// What a fetched row stands for.
pub open spec fn decoded(row: Result<RowView, Seq<char>>) -> Result<
    AggregatedView,
    BufferErrorView,
> {
    match row {
        Err(message) => Err(BufferErrorView::Sqlite(message)),
        Ok(row) => decoded_row(row),
    }
}

/// What fetched rows stand for, or the error of the first that cannot be read.
pub open spec fn decoded_all(rows: Seq<Result<RowView, Seq<char>>>) -> Result<
    Seq<AggregatedView>,
    BufferErrorView,
>
    decreases rows.len(),
{
    if rows.len() == 0 {
        Ok(seq![])
    } else {
        match decoded_all(rows.drop_last()) {
            Err(e) => Err(e),
            Ok(before) => match decoded(rows.last()) {
                Err(e) => Err(e),
                Ok(agg) => Ok(before.push(agg)),
            },
        }
    }
}

/// The row that stores `agg`, marked as reported where its sample is. Where both
/// times lie in the years that four digits can tell, the row stands for `agg`
/// again.
pub fn encode_row(agg: &AggregatedException) -> (res: StoredRow)
    ensures
        res@ == row_of(agg@),
        storable(agg@) ==> decoded_row(res@) == Ok::<AggregatedView, BufferErrorView>(agg@),
{
    StoredRow {
        signature: agg.signature.clone(),
        first_seen: format_rfc3339(&agg.first_seen),
        last_seen: format_rfc3339(&agg.last_seen),
        count: agg.count as i64,
        sample: Ok(agg.sample.clone()),
        reported: if agg.sample.reported {
            1
        } else {
            0
        },
    }
}

/// The number of exceptions that a stored count stands for.
pub fn decode_count(stored: i64) -> (res: u32)
    ensures
        res == count_of(stored),
{
    if 0 <= stored && stored <= u32::MAX as i64 {
        stored as u32
    } else {
        u32::MAX
    }
}

/// What `outcome` holds.
pub open spec fn decoded_view(outcome: BufferResult<AggregatedException>) -> Result<
    AggregatedView,
    BufferErrorView,
> {
    match outcome {
        Ok(agg) => Ok(agg@),
        Err(e) => Err(e@),
    }
}

/// Reads an instant of a row.
fn decode_instant(s: &str) -> (res: BufferResult<Timestamp>)
    ensures
        match res {
            Ok(instant) => rfc3339_value(s@) == Ok::<Timestamp, Seq<char>>(instant),
            Err(e) => rfc3339_value(s@) matches Err(message) && e@ == BufferErrorView::Sqlite(
                message,
            ),
        },
{
    match parse_rfc3339(s) {
        Ok(instant) => Ok(instant),
        Err(CollectorError::Sqlite(message)) => Err(BufferError::Sqlite(message)),
        Err(e) => Err(BufferError::Sqlite(e.to_string())),
    }
}

/// Reads a row.
pub fn decode_row(row: &StoredRow) -> (res: BufferResult<AggregatedException>)
    ensures
        decoded_view(res) == decoded_row(row@),
{
    let first_seen = match decode_instant(row.first_seen.as_str()) {
        Ok(instant) => instant,
        Err(e) => return Err(e),
    };
    let last_seen = match decode_instant(row.last_seen.as_str()) {
        Ok(instant) => instant,
        Err(e) => return Err(e),
    };
    match &row.sample {
        Ok(sample) => {
            let agg = AggregatedException {
                signature: row.signature.clone(),
                first_seen,
                last_seen,
                count: decode_count(row.count),
                sample: sample.clone(),
            };
            if row.reported != 0 {
                Ok(agg.into_marked())
            } else {
                Ok(agg)
            }
        },
        Err(message) => Err(BufferError::SerdeJson(message.clone())),
    }
}

/// What `outcome` holds.
pub open spec fn decoded_all_view(outcome: BufferResult<Vec<AggregatedException>>) -> Result<
    Seq<AggregatedView>,
    BufferErrorView,
> {
    match outcome {
        Ok(aggs) => Ok(aggregated_views(aggs@)),
        Err(e) => Err(e@),
    }
}

/// Once a row cannot be read, the rows behind it do not matter.
proof fn lemma_first_error_wins(rows: Seq<Result<RowView, Seq<char>>>, n: int)
    requires
        0 <= n <= rows.len(),
        decoded_all(rows.take(n)) is Err,
    ensures
        decoded_all(rows) == decoded_all(rows.take(n)),
    decreases rows.len(),
{
    if n == rows.len() {
        assert(rows.take(n) == rows);
    } else {
        assert(rows.drop_last().take(n) == rows.take(n));
        lemma_first_error_wins(rows.drop_last(), n);
    }
}

/// Reads rows, in order, up to the first that cannot be read.
pub fn load_all(rows: &Vec<FetchedRow>) -> (res: BufferResult<Vec<AggregatedException>>)
    ensures
        decoded_all_view(res) == decoded_all(fetched_views(rows@)),
{
    let mut out: Vec<AggregatedException> = Vec::new();
    let mut i: usize = 0;
    let ghost all = fetched_views(rows@);
    assert(aggregated_views(out@) == Seq::<AggregatedView>::empty());
    while i < rows.len()
        invariant
            i <= rows@.len(),
            all == fetched_views(rows@),
            decoded_all(all.take(i as int)) == Ok::<Seq<AggregatedView>, BufferErrorView>(
                aggregated_views(out@),
            ),
        decreases rows@.len() - i,
    {
        proof {
            let head = all.take(i + 1);
            assert(head.drop_last() == all.take(i as int));
            assert(head.last() == fetched_view(rows@[i as int]));
        }
        let outcome = match &rows[i] {
            Ok(row) => decode_row(row),
            Err(message) => Err(BufferError::Sqlite(message.clone())),
        };
        assert(decoded_view(outcome) == decoded(all[i as int]));
        match outcome {
            Ok(agg) => {
                let ghost before = aggregated_views(out@);
                out.push(agg);
                assert(aggregated_views(out@) == before.push(agg@));
            },
            Err(e) => {
                proof {
                    lemma_first_error_wins(all, i + 1);
                }
                return Err(e);
            },
        }
        i = i + 1;
    }
    assert(all.take(rows@.len() as int) == all);
    Ok(out)
}

/// A count that was stored is read as it was.
pub proof fn law_stored_count_is_read_back(count: u32)
    ensures
        count_of(count as i64) == count,
{
}

/// A mark is stored with its exceptions, and read back with them: what was
/// marked as reported before it was stored is marked when it is read.
pub proof fn law_marks_are_stored_and_read_back(agg: AggregatedView)
    ensures
        (row_of(agg).reported != 0) == agg.sample.reported,
        decoded_row(row_of(agg)) matches Ok(read) ==> read.sample == agg.sample,
{
}

/// What a row that is marked as reported stands for does not wait to be
/// reported, whatever its sample says.
pub proof fn law_marked_rows_do_not_wait(row: RowView)
    requires
        row.reported != 0,
    ensures
        decoded_row(row) matches Ok(read) ==> read.sample.reported,
{
}

/// A row tells what it stores: the signature, when the first and when the latest
/// exception came, the count, the sample and the mark.
pub proof fn law_rows_tell_what_they_store(agg: AggregatedView)
    ensures
        row_of(agg).signature == agg.signature,
        row_of(agg).first_seen == rfc3339_text(agg.first_seen),
        row_of(agg).last_seen == rfc3339_text(agg.last_seen),
        row_of(agg).count == agg.count,
        row_of(agg).sample == Ok::<RecordView, Seq<char>>(agg.sample),
        agg.sample.reported ==> row_of(agg).reported == 1,
        !agg.sample.reported ==> row_of(agg).reported == 0,
{
}

/// A row can be read exactly where its two times and its sample can. It stands
/// for what it tells: a count out of range for the largest, and a mark for a
/// sample that is marked, and is the same otherwise.
pub proof fn law_a_row_stands_for_what_it_tells(row: RowView)
    ensures
        decoded_row(row) is Ok <==> rfc3339_value(row.first_seen) is Ok && rfc3339_value(
            row.last_seen,
        ) is Ok && row.sample is Ok,
        decoded_row(row) matches Ok(read) ==> {
            &&& read.signature == row.signature
            &&& rfc3339_value(row.first_seen) == Ok::<Timestamp, Seq<char>>(read.first_seen)
            &&& rfc3339_value(row.last_seen) == Ok::<Timestamp, Seq<char>>(read.last_seen)
            &&& 0 <= row.count <= u32::MAX ==> read.count == row.count
            &&& row.count < 0 || row.count > u32::MAX ==> read.count == u32::MAX
            &&& row.reported == 0 ==> read.sample == row.sample->Ok_0
            &&& row.reported != 0 ==> read.sample.reported && (RecordView {
                reported: row.sample->Ok_0.reported,
                ..read.sample
            }) == row.sample->Ok_0
        },
{
}

/// The error of a row is that of the first of its times and its sample that
/// cannot be read.
pub proof fn law_the_first_that_cannot_be_read_is_the_error(row: RowView, message: Seq<char>)
    ensures
        rfc3339_value(row.first_seen) == Err::<Timestamp, Seq<char>>(message) ==> decoded_row(row)
            == Err::<AggregatedView, BufferErrorView>(BufferErrorView::Sqlite(message)),
        rfc3339_value(row.first_seen) is Ok && rfc3339_value(row.last_seen) == Err::<
            Timestamp,
            Seq<char>,
        >(message) ==> decoded_row(row) == Err::<AggregatedView, BufferErrorView>(
            BufferErrorView::Sqlite(message),
        ),
        rfc3339_value(row.first_seen) is Ok && rfc3339_value(row.last_seen) is Ok && row.sample
            == Err::<RecordView, Seq<char>>(message) ==> decoded_row(row) == Err::<
            AggregatedView,
            BufferErrorView,
        >(BufferErrorView::SerdeJson(message)),
        decoded(Err(message)) == Err::<AggregatedView, BufferErrorView>(
            BufferErrorView::Sqlite(message),
        ),
        decoded(Ok(row)) == decoded_row(row),
{
}

/// Rows that can all be read are read one for one, in order.
pub proof fn law_rows_are_read_one_for_one(rows: Seq<Result<RowView, Seq<char>>>)
    ensures
        decoded_all(rows) is Ok <==> (forall|i: int|
            0 <= i < rows.len() ==> decoded(#[trigger] rows[i]) is Ok),
        decoded_all(rows) matches Ok(aggs) ==> aggs.len() == rows.len() && (forall|i: int|
            0 <= i < rows.len() ==> decoded(#[trigger] rows[i]) == Ok::<
                AggregatedView,
                BufferErrorView,
            >(aggs[i])),
    decreases rows.len(),
{
    if rows.len() > 0 {
        let before = rows.drop_last();
        let n = before.len() as int;
        law_rows_are_read_one_for_one(before);
        assert(rows[n] == rows.last());
        if decoded_all(rows) is Ok {
            let aggs = decoded_all(rows)->Ok_0;
            assert forall|i: int| 0 <= i < rows.len() implies decoded(#[trigger] rows[i]) == Ok::<
                AggregatedView,
                BufferErrorView,
            >(aggs[i]) by {
                if i < n {
                    assert(decoded(before[i]) is Ok);
                }
            }
        } else if forall|i: int| 0 <= i < rows.len() ==> decoded(#[trigger] rows[i]) is Ok {
            assert forall|i: int| 0 <= i < before.len() implies decoded(#[trigger] before[i]) is Ok by {
                assert(decoded(rows[i]) is Ok);
            }
        }
    }
}

/// The first row that cannot be read is the error of them all.
pub proof fn law_the_first_unreadable_row_is_the_error(
    rows: Seq<Result<RowView, Seq<char>>>,
    i: int,
)
    requires
        0 <= i < rows.len(),
        decoded(rows[i]) is Err,
        forall|k: int| 0 <= k < i ==> decoded(#[trigger] rows[k]) is Ok,
    ensures
        decoded_all(rows) == Err::<Seq<AggregatedView>, BufferErrorView>(decoded(rows[i])->Err_0),
{
    let head = rows.take(i + 1);
    let before = rows.take(i);
    law_rows_are_read_one_for_one(before);
    assert forall|k: int| 0 <= k < before.len() implies decoded(#[trigger] before[k]) is Ok by {
        assert(decoded(rows[k]) is Ok);
    }
    assert(head.drop_last() == before);
    lemma_first_error_wins(rows, i + 1);
}

/// Rows of the same view are the same in every field.
pub proof fn law_views_of_rows_tell_every_field(a: StoredRow, b: StoredRow)
    requires
        a@ == b@,
    ensures
        a.signature@ == b.signature@,
        a.first_seen@ == b.first_seen@,
        a.last_seen@ == b.last_seen@,
        a.count == b.count,
        a.reported == b.reported,
        a.sample matches Ok(sample) ==> b.sample is Ok && b.sample->Ok_0@ == sample@,
        a.sample matches Err(message) ==> b.sample is Err && b.sample->Err_0@ == message@,
{
}

/// Fetched rows are viewed one for one: a row as it is, an error with its text.
pub proof fn law_rows_are_viewed_one_for_one(
    fetched: Seq<FetchedRow>,
    rows: Seq<StoredRow>,
    i: int,
)
    ensures
        fetched_views(fetched).len() == fetched.len(),
        0 <= i < fetched.len() ==> (fetched[i] matches Ok(row) ==> fetched_views(fetched)[i] == Ok::<
            RowView,
            Seq<char>,
        >(row@)),
        0 <= i < fetched.len() ==> (fetched[i] matches Err(message) ==> fetched_views(fetched)[i]
            == Err::<RowView, Seq<char>>(message@)),
        row_views(rows).len() == rows.len(),
        0 <= i < rows.len() ==> row_views(rows)[i] == rows[i]@,
{
}

/// What rows were read as is viewed as it is: what was read in order, or the error.
pub proof fn law_readings_are_viewed_as_they_are(
    aggs: Vec<AggregatedException>,
    agg: AggregatedException,
    e: BufferError,
    i: int,
)
    ensures
        decoded_view(Ok(agg)) == Ok::<AggregatedView, BufferErrorView>(agg@),
        decoded_view(Err(e)) == Err::<AggregatedView, BufferErrorView>(e@),
        decoded_all_view(Ok(aggs)) matches Ok(views) && views.len() == aggs@.len() && (0 <= i
            < aggs@.len() ==> views[i] == aggs@[i]@),
        decoded_all_view(Err(e)) == Err::<Seq<AggregatedView>, BufferErrorView>(e@),
{
}

} // verus!
