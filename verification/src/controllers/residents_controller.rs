//! The routes of the residents: the list, one resident, enrolment, change,
//! removal, and the history of one resident.

use crate::calendar::Date;
use crate::calendar::RangeParams;
use crate::database::db::resident_history;
use crate::entity::residents;
use crate::entity::timestamps;
use crate::error::ServiceError;
use crate::models::residents::PathParams;
use crate::models::residents::Rfid;
use crate::models::residents::UpdateResident;
use crate::models::response::Reply;
use crate::models::response::STATUS_OK;
use crate::tables::enrolled_at;
use crate::tables::enrolment;
use crate::tables::is_enrolled;
use crate::tables::revision;
use crate::store::Store;
use crate::tables::StoreView;
use vstd::prelude::*;
use vstd::string::StringExecFns;

verus! {

/// All residents.
pub fn index(db: &Store) -> (r: Reply<residents::Model>)
    ensures
        r.is_done(STATUS_OK as int, "Residents successfully retrieved"@, db@.residents),
{
    Reply::done(STATUS_OK, "Residents successfully retrieved", db.list_residents())
}

/// The resident who wears the tag.
pub fn show(db: &Store, rfid: Rfid) -> (r: Reply<residents::Model>)
    requires
        db.wf(),
    ensures
        is_enrolled(db@.residents, rfid.rfid@) ==> r.is_done(
            STATUS_OK as int,
            "Residents successfully retrived"@,
            seq![db@.residents[enrolled_at(db@.residents, rfid.rfid@)]],
        ),
        !is_enrolled(db@.residents, rfid.rfid@) ==> r.is_refused(
            ServiceError::NotFound,
            "Error retrieving residents"@,
        ),
{
    match db.get_resident(&rfid.rfid) {
        Ok(row) => Reply::done_one(STATUS_OK, "Residents successfully retrived", row),
        Err(e) => Reply::refused(e, "Error retrieving residents"),
    }
}

/// Enrols a resident. A tag that is taken, or a reference that does not
/// resolve, is refused and changes nothing.
pub fn store(db: &mut Store, resident: residents::Model) -> (r: Reply<String>)
    requires
        old(db).wf(),
    ensures
        final(db).wf(),
        enrolment(old(db)@, resident) matches Err(e) ==> r.is_refused(
            e,
            "Error adding resident"@,
        ) && final(db)@ == old(db)@,
        enrolment(old(db)@, resident) is Ok ==> r.is_plain(
            STATUS_OK as int,
            "Resident successfully added"@,
        ) && final(db)@ == (StoreView {
            residents: old(db)@.residents.push(resident),
            ..old(db)@
        }),
{
    match db.store_resident(resident) {
        Ok(_) => Reply::plain(STATUS_OK, "Resident successfully added"),
        Err(e) => Reply::refused(e, "Error adding resident"),
    }
}

/// Removes the resident who wears the tag.
pub fn destroy(db: &mut Store, rfid: String) -> (r: Reply<String>)
    requires
        old(db).wf(),
    ensures
        final(db).wf(),
        !is_enrolled(old(db)@.residents, rfid@) ==> r.is_refused(
            ServiceError::NotFound,
            "Error deleting resident"@,
        ) && final(db)@ == old(db)@,
        is_enrolled(old(db)@.residents, rfid@) ==> r.is_plain(
            STATUS_OK as int,
            "Deleted resident: "@ + rfid@,
        ) && final(db)@ == (StoreView {
            residents: old(db)@.residents.remove(enrolled_at(old(db)@.residents, rfid@)),
            ..old(db)@
        }),
{
    match db.delete_resident(&rfid) {
        Ok(_) => {
            let text = "Deleted resident: ".to_owned().concat(rfid.as_str());
            Reply::plain(STATUS_OK, text.as_str())
        },
        Err(e) => Reply::refused(e, "Error deleting resident"),
    }
}

/// The message that tells why a change was refused.
pub open spec fn update_refusal_text(e: ServiceError) -> Seq<char> {
    if e == ServiceError::NotFound {
        "Error retrieving resident"@
    } else {
        "Error updating resident"@
    }
}

/// Changes the resident who wears the tag: each field that the update gives
/// replaces the stored one, every other field stays.
pub fn update(db: &mut Store, rfid: Rfid, resident: UpdateResident) -> (r: Reply<String>)
    requires
        old(db).wf(),
    ensures
        final(db).wf(),
        revision(old(db)@, rfid.rfid@, resident) matches Err(e) ==> r.is_refused(
            e,
            update_refusal_text(e),
        ) && final(db)@ == old(db)@,
        revision(old(db)@, rfid.rfid@, resident) matches Ok(changed) ==> r.is_plain(
            STATUS_OK as int,
            "Resident Updated Successfully"@,
        ) && final(db)@ == (StoreView {
            residents: old(db)@.residents.update(
                enrolled_at(old(db)@.residents, rfid.rfid@),
                changed,
            ),
            ..old(db)@
        }),
{
    match db.update_resident(&rfid.rfid, &resident) {
        Ok(_) => Reply::plain(STATUS_OK, "Resident Updated Successfully"),
        Err(e) => match e {
            ServiceError::NotFound => Reply::refused(e, "Error retrieving resident"),
            _ => Reply::refused(e, "Error updating resident"),
        },
    }
}

/// The history of one resident on the day `today`, newest first.
pub fn show_resident_timestamps_on(db: &Store, rfid: Rfid, today: Date) -> (r: Reply<
    timestamps::Model,
>)
    ensures
        r.is_done(
            STATUS_OK as int,
            "Timestamps successfully retrieved"@,
            resident_history(
                db@,
                rfid.rfid,
                RangeParams { start_date: today, end_date: today },
            ),
        ),
{
    let rows = db.timestamps_for_resident(&rfid.rfid, None, today);
    Reply::done(STATUS_OK, "Timestamps successfully retrieved", rows)
}

/// Today's history of one resident, newest first.
pub fn show_resident_timestamps(db: &Store, rfid: Rfid) -> (r: Reply<timestamps::Model>)
    ensures
        exists|today: Date|
            today.wf() && r.is_done(
                STATUS_OK as int,
                "Timestamps successfully retrieved"@,
                #[trigger] resident_history(
                    db@,
                    rfid.rfid,
                    RangeParams { start_date: today, end_date: today },
                ),
            ),
{
    let today = crate::calendar::today();
    show_resident_timestamps_on(db, rfid, today)
}

/// The history of one resident over a range of days, newest first.
pub fn show_resident_timestamps_range(db: &Store, rfid: PathParams) -> (r: Reply<
    timestamps::Model,
>)
    ensures
        r.is_done(
            STATUS_OK as int,
            "Timestamps successfully retrieved"@,
            resident_history(
                db@,
                rfid.rfid,
                RangeParams { start_date: rfid.start_date, end_date: rfid.end_date },
            ),
        ),
{
    let range = RangeParams::new(rfid.start_date, rfid.end_date);
    let rows = db.timestamps_for_resident(&rfid.rfid, Some(range), rfid.start_date);
    Reply::done(STATUS_OK, "Timestamps successfully retrieved", rows)
}

} // verus!
