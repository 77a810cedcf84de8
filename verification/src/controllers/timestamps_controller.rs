//! The routes of the movement history: the history of all residents, and
//! the scan.

use crate::calendar::Date;
use crate::calendar::DateTime;
use crate::calendar::RangeParams;
use crate::entity::timestamps;
use crate::error::ServiceError;
use crate::history::first_per_resident;
use crate::models::response::Reply;
use crate::models::response::STATUS_OK;
use crate::models::timestamps::PostTimestamp;
use crate::models::timestamps::ResidentTimestamp;
use crate::tables::after_scan;
use crate::tables::history;
use crate::tables::scan_receipt;
use crate::tables::scan_refusal;
use crate::store::Store;
use crate::history::Criteria;
use vstd::prelude::*;

verus! {

/// How many rows one page holds.
pub const PAGE_SIZE: usize = 15;

/// What a request for the history may ask besides: one row for each
/// resident only, and which page of the rows.
#[derive(Debug, Clone, Copy, PartialEq, Eq, Structural)]
pub struct FilterOpts {
    pub unique: Option<bool>,
    pub per_page: Option<u64>,
}

impl FilterOpts {
    /// Whether one row for each resident is asked for.
    pub open spec fn wants_unique(self) -> bool {
        self.unique == Some(true)
    }

    /// The number of the page asked for; the first page is page 0.
    pub open spec fn page_number(self) -> int {
        match self.per_page {
            Some(n) => n as int,
            None => 0,
        }
    }
}

/// Where a page begins among `len` rows: behind the pages before it, or at
/// the end where the rows do not reach that far.
pub open spec fn page_start(len: int, number: int) -> int {
    if number * PAGE_SIZE <= len {
        number * PAGE_SIZE
    } else {
        len
    }
}

/// Where a page ends among `len` rows: one page behind its start, or at the
/// end where the rows do not reach that far.
pub open spec fn page_end(len: int, number: int) -> int {
    if page_start(len, number) + PAGE_SIZE <= len {
        page_start(len, number) + PAGE_SIZE
    } else {
        len
    }
}

/// The rows of one page.
pub open spec fn page_of(rows: Seq<timestamps::Model>, number: int) -> Seq<timestamps::Model> {
    rows.subrange(page_start(rows.len() as int, number), page_end(rows.len() as int, number))
}

/// Cuts one page out of the rows.
pub fn take_page(rows: &Vec<timestamps::Model>, number: u64) -> (out: Vec<timestamps::Model>)
    ensures
        out@ == page_of(rows@, number as int),
        out.len() <= PAGE_SIZE,
{
    let len = rows.len();
    let start: usize = if number <= (len / PAGE_SIZE) as u64 {
        let n = number as usize;
        assert(n * PAGE_SIZE <= len) by (nonlinear_arith)
            requires
                n <= len / PAGE_SIZE,
                PAGE_SIZE == 15,
        ;
        n * PAGE_SIZE
    } else {
        assert(number * PAGE_SIZE > len) by (nonlinear_arith)
            requires
                number > len / PAGE_SIZE,
                PAGE_SIZE == 15,
        ;
        len
    };
    let end: usize = if len - start >= PAGE_SIZE {
        start + PAGE_SIZE
    } else {
        len
    };
    let mut out: Vec<timestamps::Model> = Vec::new();
    let mut i: usize = start;
    while i < end
        invariant
            start <= i <= end <= rows.len(),
            out@ == rows@.subrange(start as int, i as int),
        decreases end - i,
    {
        out.push(rows[i].clone());
        i = i + 1;
        proof {
            assert(out@ =~= rows@.subrange(start as int, i as int));
        }
    }
    out
}

/// What the tables answer to a request for the history of all residents:
/// the rows of the range, or of `today` where none is given, newest first,
/// collapsed to the latest row of each resident if that is asked for, and of
/// those the page asked for.
pub open spec fn timestamps_page(
    rows: Seq<timestamps::Model>,
    range: RangeParams,
    opts: FilterOpts,
) -> Seq<timestamps::Model> {
    let ordered = history(rows, Criteria { rfid: None, location: None, range });
    if opts.wants_unique() {
        page_of(first_per_resident(ordered), opts.page_number())
    } else {
        page_of(ordered, opts.page_number())
    }
}

/// The history of all residents on the day `today`.
pub fn index_timestamps_on(db: &Store, uni: FilterOpts, today: Date) -> (r: Reply<
    timestamps::Model,
>)
    ensures
        r.is_done(
            STATUS_OK as int,
            "Timestamps successfully retrieved"@,
            timestamps_page(
                db@.timestamps,
                RangeParams { start_date: today, end_date: today },
                uni,
            ),
        ),
{
    let unique = match uni.unique {
        Some(flag) => flag,
        None => false,
    };
    let number = match uni.per_page {
        Some(n) => n,
        None => 0,
    };
    let rows = db.timestamps_global(None, unique, today);
    let page = take_page(&rows, number);
    Reply::done(STATUS_OK, "Timestamps successfully retrieved", page)
}

/// Today's history of all residents.
pub fn index_timestamps(db: &Store, uni: FilterOpts) -> (r: Reply<timestamps::Model>)
    ensures
        exists|today: Date|
            today.wf() && r.is_done(
                STATUS_OK as int,
                "Timestamps successfully retrieved"@,
                #[trigger] timestamps_page(
                    db@.timestamps,
                    RangeParams { start_date: today, end_date: today },
                    uni,
                ),
            ),
{
    let today = crate::calendar::today();
    index_timestamps_on(db, uni, today)
}

/// The history of all residents over a range of days, newest first.
pub fn show_range(db: &Store, range: RangeParams) -> (r: Reply<timestamps::Model>)
    ensures
        r.is_done(
            STATUS_OK as int,
            "Timestamps successfully retrieved"@,
            history(db@.timestamps, Criteria { rfid: None, location: None, range }),
        ),
{
    let rows = db.timestamps_global(Some(range), false, range.start_date);
    Reply::done(STATUS_OK, "Timestamps successfully retrieved", rows)
}

/// The message that tells why a scan was refused.
pub open spec fn refusal_text(e: ServiceError) -> Seq<char> {
    match e {
        ServiceError::NotFound => "Error retrieving resident: Not found in system, please add Resident."@,
        ServiceError::Conflict => "Unable to create Resident in database"@,
        ServiceError::Validation => "A validation error occured on the input"@,
        ServiceError::StoreUnavailable => "An error occurred with your query, please check your inputs"@,
    }
}

/// The reply to a scan that was refused.
pub fn scan_refused(e: ServiceError) -> (r: Reply<ResidentTimestamp>)
    ensures
        r.is_refused(e, refusal_text(e)),
{
    match e {
        ServiceError::NotFound => Reply::refused(
            e,
            "Error retrieving resident: Not found in system, please add Resident.",
        ),
        ServiceError::Conflict => Reply::refused(e, "Unable to create Resident in database"),
        ServiceError::Validation => Reply::refused(e, "A validation error occured on the input"),
        ServiceError::StoreUnavailable => Reply::refused(
            e,
            "An error occurred with your query, please check your inputs",
        ),
    }
}

/// Takes one scan at the moment `now`. An accepted scan answers with the
/// resident as updated and the new row of the history; a refused one answers
/// with the reason and changes nothing.
pub fn store_timestamp_at(db: &mut Store, timestamp_data: PostTimestamp, now: DateTime) -> (r:
    Reply<ResidentTimestamp>)
    requires
        old(db).wf(),
    ensures
        final(db).wf(),
        scan_refusal(old(db)@, timestamp_data) matches Some(e) ==> r.is_refused(
            e,
            refusal_text(e),
        ) && final(db)@ == old(db)@,
        scan_refusal(old(db)@, timestamp_data) is None ==> r.is_done(
            STATUS_OK as int,
            "Resident Timestamp successfully retrieved"@,
            seq![scan_receipt(old(db)@, timestamp_data, now)],
        ) && final(db)@ == after_scan(old(db)@, timestamp_data, now),
{
    match db.record_scan(&timestamp_data, now) {
        Ok(receipt) => Reply::done_one(
            STATUS_OK,
            "Resident Timestamp successfully retrieved",
            receipt,
        ),
        Err(e) => scan_refused(e),
    }
}

/// Takes one scan at the present moment.
pub fn store_timestamp(db: &mut Store, timestamp_data: PostTimestamp) -> (r: Reply<
    ResidentTimestamp,
>)
    requires
        old(db).wf(),
    ensures
        final(db).wf(),
        scan_refusal(old(db)@, timestamp_data) matches Some(e) ==> r.is_refused(
            e,
            refusal_text(e),
        ) && final(db)@ == old(db)@,
        scan_refusal(old(db)@, timestamp_data) is None ==> exists|now: DateTime|
            now.wf() && r.is_done(
                STATUS_OK as int,
                "Resident Timestamp successfully retrieved"@,
                seq![#[trigger] scan_receipt(old(db)@, timestamp_data, now)],
            ) && final(db)@ == after_scan(old(db)@, timestamp_data, now),
{
    let now = crate::calendar::now();
    store_timestamp_at(db, timestamp_data, now)
}

} // verus!
