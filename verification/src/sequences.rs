//! What holds of several scans taken one after another. The store takes
//! scans through an exclusive borrow, so every scan sees the tables as the
//! scan before it left them.

use crate::calendar::DateTime;
use crate::error::ServiceError;
use crate::models::timestamps::PostTimestamp;
use crate::tables::after_scan;
use crate::tables::enrolled_at;
use crate::tables::is_enrolled;
use crate::tables::lemma_scan_keeps_tables;
use crate::tables::next_number;
use crate::tables::place_resolves;
use crate::tables::scan_receipt;
use crate::tables::scan_refusal;
use crate::tables::StoreView;
use crate::toggle::toggled;
use vstd::prelude::*;

verus! {

/// The tables after the scans have been taken in their order, each at the
/// moment `now`; a scan that is refused changes nothing.
pub open spec fn after_scans(tables: StoreView, scans: Seq<PostTimestamp>, now: DateTime) -> StoreView
    decreases scans.len(),
{
    if scans.len() == 0 {
        tables
    } else {
        let before = after_scans(tables, scans.drop_last(), now);
        if scan_refusal(before, scans.last()) is None {
            after_scan(before, scans.last(), now)
        } else {
            before
        }
    }
}

/// Where the resident who wears the tag is recorded.
pub open spec fn recorded_at(tables: StoreView, tag: Seq<char>) -> int {
    tables.residents[enrolled_at(tables.residents, tag)].current_location as int
}

/// A scan for a tag that is not enrolled is refused as not found, whatever
/// location it names.
pub proof fn lemma_unknown_tag_is_refused(tables: StoreView, scan: PostTimestamp)
    requires
        !is_enrolled(tables.residents, scan.rfid@),
    ensures
        scan_refusal(tables, scan) == Some(ServiceError::NotFound),
{
}

/// An accepted scan touches one resident and adds one row: the locations and
/// the tags stay as they are, every other resident stays as recorded, the
/// scanned resident moves as the toggle rule says, and the history grows by
/// the row that records where they went.
pub proof fn lemma_scan_frame(tables: StoreView, scan: PostTimestamp, now: DateTime)
    requires
        tables.wf(),
        scan_refusal(tables, scan) is None,
    ensures
        after_scan(tables, scan, now).wf(),
        after_scan(tables, scan, now).locations == tables.locations,
        after_scan(tables, scan, now).residents.len() == tables.residents.len(),
        forall|k: int|
            0 <= k < tables.residents.len() ==> (#[trigger] after_scan(
                tables,
                scan,
                now,
            ).residents[k]).rfid == tables.residents[k].rfid,
        forall|tag: Seq<char>| #[trigger]
            is_enrolled(tables.residents, tag) ==> is_enrolled(
                after_scan(tables, scan, now).residents,
                tag,
            ) && enrolled_at(after_scan(tables, scan, now).residents, tag) == enrolled_at(
                tables.residents,
                tag,
            ),
        forall|tag: Seq<char>|
            is_enrolled(tables.residents, tag) && tag != scan.rfid@ ==> #[trigger] recorded_at(
                after_scan(tables, scan, now),
                tag,
            ) == recorded_at(tables, tag),
        recorded_at(after_scan(tables, scan, now), scan.rfid@) == toggled(
            recorded_at(tables, scan.rfid@),
            scan.location as int,
        ).0,
        after_scan(tables, scan, now).timestamps.len() == tables.timestamps.len() + 1,
        after_scan(tables, scan, now).timestamps.last().location == toggled(
            recorded_at(tables, scan.rfid@),
            scan.location as int,
        ).1,
        next_number(after_scan(tables, scan, now).timestamps) == next_number(tables.timestamps) + 1,
{
    lemma_scan_keeps_tables(tables, scan, now);
    let after = after_scan(tables, scan, now);
    let at = enrolled_at(tables.residents, scan.rfid@);
    assert(after.residents[at].rfid == tables.residents[at].rfid);
    assert forall|tag: Seq<char>| #[trigger]
        is_enrolled(tables.residents, tag) implies is_enrolled(after.residents, tag) && enrolled_at(
        after.residents,
        tag,
    ) == enrolled_at(tables.residents, tag) by {
        let k = enrolled_at(tables.residents, tag);
        assert(after.residents[k].rfid@ == tag);
        let j = enrolled_at(after.residents, tag);
        if j != k {
            if j < k {
                assert(after.residents[j].rfid@ != after.residents[k].rfid@);
            } else {
                assert(after.residents[k].rfid@ != after.residents[j].rfid@);
            }
        }
    }
    assert(after.timestamps.last() == scan_receipt(tables, scan, now).timestamp);
}

/// Two scans of the same location in a row, both accepted, leave the
/// resident at the sentinel, provided the first was a move or the location is
/// the sentinel itself: the first records the location, the second records
/// the sentinel, and the history has grown by exactly these two rows.
pub proof fn lemma_scan_twice_returns_home(
    tables: StoreView,
    scan: PostTimestamp,
    first: DateTime,
    second: DateTime,
)
    requires
        tables.wf(),
        scan_refusal(tables, scan) is None,
        scan_refusal(after_scan(tables, scan, first), scan) is None,
        recorded_at(tables, scan.rfid@) != scan.location || scan.location == 0,
    ensures
        recorded_at(after_scan(tables, scan, first), scan.rfid@) == scan.location,
        after_scan(tables, scan, first).timestamps.last().location == scan.location,
        recorded_at(after_scan(after_scan(tables, scan, first), scan, second), scan.rfid@) == 0,
        after_scan(after_scan(tables, scan, first), scan, second).timestamps.last().location == 0,
        after_scan(after_scan(tables, scan, first), scan, second).timestamps.len()
            == tables.timestamps.len() + 2,
{
    lemma_scan_frame(tables, scan, first);
    lemma_scan_frame(after_scan(tables, scan, first), scan, second);
}

/// The scans are all for the resident who wears the tag, and the locations
/// they name resolve.
pub open spec fn scans_of(tables: StoreView, scans: Seq<PostTimestamp>, tag: Seq<char>) -> bool {
    forall|i: int|
        0 <= i < scans.len() ==> (#[trigger] scans[i]).rfid@ == tag && place_resolves(
            tables.locations,
            scans[i].location as int,
        )
}

/// No scan is lost: scans for an enrolled resident, taken one after another
/// while the history has numbers left, are all accepted, and each adds its
/// row to the history.
pub proof fn lemma_no_scan_is_lost(
    tables: StoreView,
    scans: Seq<PostTimestamp>,
    tag: Seq<char>,
    now: DateTime,
)
    requires
        tables.wf(),
        is_enrolled(tables.residents, tag),
        scans_of(tables, scans, tag),
        next_number(tables.timestamps) + scans.len() <= i32::MAX + 1,
    ensures
        after_scans(tables, scans, now).wf(),
        after_scans(tables, scans, now).locations == tables.locations,
        is_enrolled(after_scans(tables, scans, now).residents, tag),
        after_scans(tables, scans, now).timestamps.len() == tables.timestamps.len() + scans.len(),
        next_number(after_scans(tables, scans, now).timestamps) == next_number(tables.timestamps)
            + scans.len(),
        scans.len() > 0 ==> recorded_at(after_scans(tables, scans, now), tag) == toggled(
            recorded_at(after_scans(tables, scans.drop_last(), now), tag),
            scans.last().location as int,
        ).0,
    decreases scans.len(),
{
    if scans.len() > 0 {
        let init = scans.drop_last();
        assert forall|i: int| 0 <= i < init.len() implies (#[trigger] init[i]).rfid@ == tag
            && place_resolves(tables.locations, init[i].location as int) by {
            assert(init[i] == scans[i]);
        }
        lemma_no_scan_is_lost(tables, init, tag, now);
        let before = after_scans(tables, init, now);
        assert(scans.last() == scans[scans.len() - 1]);
        assert(scan_refusal(before, scans.last()) is None);
        lemma_scan_frame(before, scans.last(), now);
    }
}

/// Scans that alternate between two different locations, taken one after
/// another, end where the last scan points: at the first location after an
/// odd number of scans, at the second after an even number. This holds from
/// the second scan on, and from the first if the resident was not already at
/// the first location.
pub proof fn lemma_alternating_scans(
    tables: StoreView,
    scans: Seq<PostTimestamp>,
    tag: Seq<char>,
    now: DateTime,
    first: i32,
    second: i32,
)
    requires
        tables.wf(),
        is_enrolled(tables.residents, tag),
        scans_of(tables, scans, tag),
        next_number(tables.timestamps) + scans.len() <= i32::MAX + 1,
        first != second,
        forall|i: int|
            0 <= i < scans.len() ==> (#[trigger] scans[i]).location == (if i % 2 == 0 {
                first
            } else {
                second
            }),
        scans.len() >= 2 || (scans.len() == 1 && recorded_at(tables, tag) != first),
    ensures
        recorded_at(after_scans(tables, scans, now), tag) == (if scans.len() % 2 == 1 {
            first
        } else {
            second
        }),
        after_scans(tables, scans, now).timestamps.len() == tables.timestamps.len() + scans.len(),
    decreases scans.len(),
{
    let init = scans.drop_last();
    assert forall|i: int| 0 <= i < init.len() implies (#[trigger] init[i]).rfid@ == tag
        && place_resolves(tables.locations, init[i].location as int) by {
        assert(init[i] == scans[i]);
    }
    assert forall|i: int| 0 <= i < init.len() implies (#[trigger] init[i]).location == (if i % 2
        == 0 {
        first
    } else {
        second
    }) by {
        assert(init[i] == scans[i]);
    }
    lemma_no_scan_is_lost(tables, scans, tag, now);
    assert(scans.last() == scans[scans.len() - 1]);
    if scans.len() == 1 {
        assert(init.len() == 0);
        assert(after_scans(tables, init, now) == tables);
    } else if scans.len() == 2 {
        let one = init.drop_last();
        assert(one.len() == 0);
        assert(after_scans(tables, one, now) == tables);
        lemma_no_scan_is_lost(tables, init, tag, now);
        assert(init.last() == scans[0]);
    } else {
        lemma_alternating_scans(tables, init, tag, now, first, second);
    }
}

} // verus!
