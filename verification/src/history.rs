//! Read queries over the movement history: which rows a query selects, in
//! what order they are handed out, and how they collapse to one row for each
//! resident.

use crate::calendar::RangeParams;
use crate::entity::timestamps::Model;
use vstd::prelude::*;

verus! {

/// What a query asks of a row: optionally one resident, optionally one
/// location, and always a range of days.
#[derive(Debug)]
pub struct Criteria {
    pub rfid: Option<String>,
    pub location: Option<i32>,
    pub range: RangeParams,
}

impl Criteria {
    /// The row is of the resident asked for, if one is; at the location asked
    /// for, if one is; and on a day of the range.
    pub open spec fn accepts(self, row: Model) -> bool {
        &&& self.rfid matches Some(tag) ==> row.rfid@ == tag@
        &&& self.location matches Some(place) ==> row.location == place
        &&& self.range.covers_moment(row.ts)
    }

    /// All rows of the days of the range.
    pub fn everywhere(range: RangeParams) -> (c: Criteria)
        ensures
            c.rfid is None,
            c.location is None,
            c.range == range,
    {
        Criteria { rfid: None, location: None, range }
    }

    /// The rows of one resident on the days of the range.
    pub fn of_resident(rfid: &String, range: RangeParams) -> (c: Criteria)
        ensures
            c.rfid == Some(*rfid),
            c.location is None,
            c.range == range,
    {
        Criteria { rfid: Some(rfid.clone()), location: None, range }
    }

    /// The rows of one location on the days of the range.
    pub fn at_location(location: i32, range: RangeParams) -> (c: Criteria)
        ensures
            c.rfid is None,
            c.location == Some(location),
            c.range == range,
    {
        Criteria { rfid: None, location: Some(location), range }
    }

    pub fn matches(&self, row: &Model) -> (b: bool)
        ensures
            b == self.accepts(*row),
    {
        let tag_fits = match &self.rfid {
            Some(tag) => row.belongs_to(tag),
            None => true,
        };
        let place_fits = match self.location {
            Some(place) => row.location == place,
            None => true,
        };
        tag_fits && place_fits && self.range.contains_moment(&row.ts)
    }
}

/// The rows that the criteria accept, in the order of the table.
pub open spec fn selected(rows: Seq<Model>, criteria: Criteria) -> Seq<Model> {
    rows.filter(|row: Model| criteria.accepts(row))
}

/// Selects the rows that the criteria accept, keeping the order of the table.
/// No match is no failure: the result is then empty.
pub fn select(rows: &Vec<Model>, criteria: &Criteria) -> (out: Vec<Model>)
    ensures
        out@ == selected(rows@, *criteria),
{
    let mut out: Vec<Model> = Vec::new();
    let ghost accepts = |row: Model| criteria.accepts(row);
    let mut i: usize = 0;
    while i < rows.len()
        invariant
            i <= rows.len(),
            accepts == (|row: Model| criteria.accepts(row)),
            out@ == rows@.take(i as int).filter(accepts),
        decreases rows.len() - i,
    {
        proof {
            rows@.lemma_take_succ_push(i as int);
            rows@.take(i as int).lemma_filter_push(rows@[i as int], accepts);
        }
        if criteria.matches(&rows[i]) {
            out.push(rows[i].clone());
        }
        i = i + 1;
    }
    proof {
        assert(rows@.take(rows.len() as int) == rows@);
    }
    out
}

/// A row is selected exactly when it stands in the table and the criteria
/// accept it.
pub proof fn lemma_selected_rows(rows: Seq<Model>, criteria: Criteria, row: Model)
    ensures
        selected(rows, criteria).contains(row) <==> rows.contains(row) && criteria.accepts(row),
        selected(rows, criteria).len() <= rows.len(),
{
    let accepts = |r: Model| criteria.accepts(r);
    let chosen = rows.filter(accepts);
    rows.lemma_filter_len(accepts);
    if rows.contains(row) && criteria.accepts(row) {
        let i = choose|i: int| 0 <= i < rows.len() && rows[i] == row;
        rows.lemma_filter_contains(accepts, i);
    }
    if chosen.contains(row) {
        let k = choose|k: int| 0 <= k < chosen.len() && chosen[k] == row;
        rows.lemma_filter_pred(accepts, k);
        rows.lemma_filter_contains_rev(accepts, row);
    }
}

/// Every row is followed only by rows of the same moment or an earlier one.
pub open spec fn is_newest_first(rows: Seq<Model>) -> bool {
    forall|i: int, j: int| 0 <= i < j < rows.len() ==> rows[j].ts.not_after(rows[i].ts)
}

/// Where a row goes into rows that stand newest first: behind every row that
/// is not older than it.
pub open spec fn slot_for(rows: Seq<Model>, row: Model) -> int
    decreases rows.len(),
{
    if rows.len() == 0 || rows[0].ts.is_before(row.ts) {
        0
    } else {
        1 + slot_for(rows.drop_first(), row)
    }
}

/// The rows put newest first. Rows of the same moment keep the order in which
/// they stood.
pub open spec fn newest_first(rows: Seq<Model>) -> Seq<Model>
    decreases rows.len(),
{
    if rows.len() == 0 {
        rows
    } else {
        let earlier = newest_first(rows.drop_last());
        earlier.insert(slot_for(earlier, rows.last()), rows.last())
    }
}

/// The slot lies within the rows; the rows before it are not older than the
/// row, the rows from it on are older.
pub proof fn lemma_slot_for(rows: Seq<Model>, row: Model)
    requires
        is_newest_first(rows),
    ensures
        0 <= slot_for(rows, row) <= rows.len(),
        forall|i: int| 0 <= i < slot_for(rows, row) ==> !(#[trigger] rows[i]).ts.is_before(row.ts),
        forall|i: int|
            slot_for(rows, row) <= i < rows.len() ==> (#[trigger] rows[i]).ts.is_before(row.ts),
    decreases rows.len(),
{
    if rows.len() == 0 {
    } else if rows[0].ts.is_before(row.ts) {
        assert forall|i: int| 0 <= i < rows.len() implies (#[trigger] rows[i]).ts.is_before(
            row.ts,
        ) by {
            if i > 0 {
                assert(rows[i].ts.not_after(rows[0].ts));
            }
        }
    } else {
        let rest = rows.drop_first();
        assert forall|i: int, j: int| 0 <= i < j < rest.len() implies rest[j].ts.not_after(
            rest[i].ts,
        ) by {
            assert(rows[j + 1].ts.not_after(rows[i + 1].ts));
        }
        lemma_slot_for(rest, row);
        let k = slot_for(rows, row);
        assert(k == 1 + slot_for(rest, row));
        assert forall|i: int| 0 <= i < k implies !(#[trigger] rows[i]).ts.is_before(row.ts) by {
            if i > 0 {
                assert(rows[i] == rest[i - 1]);
            }
        }
        assert forall|i: int| k <= i < rows.len() implies (#[trigger] rows[i]).ts.is_before(
            row.ts,
        ) by {
            assert(rows[i] == rest[i - 1]);
        }
    }
}

/// Putting a row into its slot keeps the rows newest first.
pub proof fn lemma_insert_keeps_order(rows: Seq<Model>, row: Model)
    requires
        is_newest_first(rows),
    ensures
        is_newest_first(rows.insert(slot_for(rows, row), row)),
{
    lemma_slot_for(rows, row);
    let k = slot_for(rows, row);
    let out = rows.insert(k, row);
    assert forall|i: int, j: int| 0 <= i < j < out.len() implies out[j].ts.not_after(
        out[i].ts,
    ) by {
        if j < k {
            assert(out[i] == rows[i] && out[j] == rows[j]);
        } else if j == k {
            assert(out[i] == rows[i]);
            assert(!rows[i].ts.is_before(row.ts));
        } else if i < k {
            assert(out[i] == rows[i] && out[j] == rows[j - 1]);
        } else if i == k {
            assert(out[j] == rows[j - 1]);
            assert(rows[j - 1].ts.is_before(row.ts));
        } else {
            assert(out[i] == rows[i - 1] && out[j] == rows[j - 1]);
        }
    }
}

/// The ordered rows stand newest first and are the same rows, each as often
/// as before.
pub proof fn lemma_newest_first(rows: Seq<Model>)
    ensures
        is_newest_first(newest_first(rows)),
        newest_first(rows).to_multiset() == rows.to_multiset(),
        newest_first(rows).len() == rows.len(),
    decreases rows.len(),
{
    broadcast use vstd::seq_lib::group_to_multiset_ensures;

    if rows.len() == 0 {
    } else {
        let init = rows.drop_last();
        let earlier = newest_first(init);
        lemma_newest_first(init);
        lemma_slot_for(earlier, rows.last());
        lemma_insert_keeps_order(earlier, rows.last());
        vstd::seq_lib::to_multiset_insert(earlier, slot_for(earlier, rows.last()), rows.last());
        assert(init.push(rows.last()) == rows);
        vstd::seq_lib::to_multiset_build(init, rows.last());
    }
}

/// Rows that stand newest first already are left as they are.
pub proof fn lemma_newest_first_fixes_ordered(rows: Seq<Model>)
    requires
        is_newest_first(rows),
    ensures
        newest_first(rows) == rows,
    decreases rows.len(),
{
    if rows.len() > 0 {
        let init = rows.drop_last();
        assert forall|i: int, j: int| 0 <= i < j < init.len() implies init[j].ts.not_after(
            init[i].ts,
        ) by {
            assert(rows[j].ts.not_after(rows[i].ts));
        }
        lemma_newest_first_fixes_ordered(init);
        lemma_slot_for(init, rows.last());
        let k = slot_for(init, rows.last());
        if k < init.len() {
            assert(init[k].ts.is_before(rows.last().ts));
            assert(rows[rows.len() - 1].ts.not_after(rows[k].ts));
        }
        assert(init.insert(init.len() as int, rows.last()) =~= rows);
    }
}

/// Finds the slot of a row among rows that stand newest first.
fn find_slot(rows: &Vec<Model>, row: &Model) -> (k: usize)
    ensures
        k as int == slot_for(rows@, *row),
        k <= rows.len(),
{
    let mut k: usize = 0;
    proof {
        assert(rows@.skip(0) == rows@);
    }
    while k < rows.len() && !rows[k].ts.precedes(&row.ts)
        invariant
            k <= rows.len(),
            slot_for(rows@, *row) == k + slot_for(rows@.skip(k as int), *row),
        decreases rows.len() - k,
    {
        proof {
            let rest = rows@.skip(k as int);
            assert(rest[0] == rows@[k as int]);
            assert(rest.drop_first() =~= rows@.skip(k + 1));
        }
        k = k + 1;
    }
    proof {
        let rest = rows@.skip(k as int);
        if k < rows.len() {
            assert(rest[0] == rows@[k as int]);
        }
    }
    k
}

/// Puts the rows newest first. Rows of the same moment keep the order in
/// which they stood.
pub fn order_newest_first(rows: &Vec<Model>) -> (out: Vec<Model>)
    ensures
        out@ == newest_first(rows@),
        is_newest_first(out@),
        out@.to_multiset() == rows@.to_multiset(),
        out.len() == rows.len(),
{
    let mut out: Vec<Model> = Vec::new();
    let mut i: usize = 0;
    while i < rows.len()
        invariant
            i <= rows.len(),
            out@ == newest_first(rows@.take(i as int)),
        decreases rows.len() - i,
    {
        proof {
            assert(rows@.take(i + 1).drop_last() == rows@.take(i as int));
            assert(rows@.take(i + 1).last() == rows@[i as int]);
        }
        let k = find_slot(&out, &rows[i]);
        out.insert(k, rows[i].clone());
        i = i + 1;
    }
    proof {
        assert(rows@.take(rows.len() as int) == rows@);
        lemma_newest_first(rows@);
    }
    out
}

/// Some row among `rows` belongs to the resident with this tag.
pub open spec fn has_resident(rows: Seq<Model>, tag: Seq<char>) -> bool {
    exists|j: int| 0 <= j < rows.len() && (#[trigger] rows[j]).rfid@ == tag
}

/// For each resident the first of their rows, in the order in which the rows
/// stand. Of rows that stand newest first this keeps each resident's latest.
pub open spec fn first_per_resident(rows: Seq<Model>) -> Seq<Model>
    decreases rows.len(),
{
    if rows.len() == 0 {
        rows
    } else if has_resident(rows.drop_last(), rows.last().rfid@) {
        first_per_resident(rows.drop_last())
    } else {
        first_per_resident(rows.drop_last()).push(rows.last())
    }
}

/// The rows kept name the same residents as the rows given, and no more rows
/// are kept than were given.
pub proof fn lemma_first_per_resident_complete(rows: Seq<Model>, tag: Seq<char>)
    ensures
        has_resident(first_per_resident(rows), tag) <==> has_resident(rows, tag),
        first_per_resident(rows).len() <= rows.len(),
    decreases rows.len(),
{
    if rows.len() > 0 {
        let init = rows.drop_last();
        let kept = first_per_resident(init);
        let out = first_per_resident(rows);
        lemma_first_per_resident_complete(init, tag);
        lemma_first_per_resident_complete(init, rows.last().rfid@);
        if has_resident(rows, tag) {
            let j = choose|j: int| 0 <= j < rows.len() && (#[trigger] rows[j]).rfid@ == tag;
            if j < init.len() {
                assert(init[j].rfid@ == tag);
                let k = choose|k: int| 0 <= k < kept.len() && (#[trigger] kept[k]).rfid@ == tag;
                assert(out[k].rfid@ == tag);
            } else if has_resident(init, rows.last().rfid@) {
            } else {
                assert(out[out.len() - 1].rfid@ == tag);
            }
        }
        if has_resident(out, tag) {
            let k = choose|k: int| 0 <= k < out.len() && (#[trigger] out[k]).rfid@ == tag;
            if k < kept.len() {
                assert(kept[k].rfid@ == tag);
                let j = choose|j: int| 0 <= j < init.len() && (#[trigger] init[j]).rfid@ == tag;
                assert(rows[j].rfid@ == tag);
            } else {
                assert(rows[rows.len() - 1].rfid@ == tag);
            }
        }
    }
}

/// No two of the rows kept belong to the same resident.
pub proof fn lemma_first_per_resident_distinct(rows: Seq<Model>)
    ensures
        forall|i: int, j: int|
            0 <= i < j < first_per_resident(rows).len() ==> (#[trigger] first_per_resident(
                rows,
            )[i]).rfid@ != (#[trigger] first_per_resident(rows)[j]).rfid@,
    decreases rows.len(),
{
    if rows.len() > 0 {
        let init = rows.drop_last();
        let kept = first_per_resident(init);
        let out = first_per_resident(rows);
        lemma_first_per_resident_distinct(init);
        lemma_first_per_resident_complete(init, rows.last().rfid@);
        assert forall|i: int, j: int| 0 <= i < j < out.len() implies (#[trigger] out[i]).rfid@ != (
        #[trigger] out[j]).rfid@ by {
            if j < kept.len() {
                assert(out[i] == kept[i] && out[j] == kept[j]);
            } else {
                assert(out[i] == kept[i]);
                if kept[i].rfid@ == rows.last().rfid@ {
                    assert(has_resident(kept, rows.last().rfid@));
                }
            }
        }
    }
}

/// A row is kept exactly when it is the first row of its resident: it stands
/// at some place of the rows given, and no row before that place belongs to
/// the same resident.
pub proof fn lemma_first_per_resident_rows(rows: Seq<Model>, row: Model)
    ensures
        first_per_resident(rows).contains(row) <==> exists|k: int|
            0 <= k < rows.len() && #[trigger] rows[k] == row && !has_resident(
                rows.take(k),
                row.rfid@,
            ),
    decreases rows.len(),
{
    if rows.len() > 0 {
        let init = rows.drop_last();
        let kept = first_per_resident(init);
        let out = first_per_resident(rows);
        let n = init.len() as int;
        lemma_first_per_resident_rows(init, row);
        assert(rows.take(n) == init);
        if out.contains(row) {
            let i = choose|i: int| 0 <= i < out.len() && out[i] == row;
            if i < kept.len() {
                assert(kept[i] == row);
                assert(kept.contains(row));
                let k = choose|k: int|
                    0 <= k < init.len() && #[trigger] init[k] == row && !has_resident(
                        init.take(k),
                        row.rfid@,
                    );
                assert(init.take(k) == rows.take(k));
                assert(rows[k] == row);
            } else {
                assert(rows[n] == row);
            }
        }
        if exists|k: int|
            0 <= k < rows.len() && #[trigger] rows[k] == row && !has_resident(
                rows.take(k),
                row.rfid@,
            ) {
            let k = choose|k: int|
                0 <= k < rows.len() && #[trigger] rows[k] == row && !has_resident(
                    rows.take(k),
                    row.rfid@,
                );
            if k < n {
                assert(init.take(k) == rows.take(k));
                assert(init[k] == row);
                assert(kept.contains(row));
                let i = choose|i: int| 0 <= i < kept.len() && kept[i] == row;
                assert(out[i] == row);
            } else {
                assert(out[out.len() - 1] == row);
            }
        }
    } else {
        assert(!first_per_resident(rows).contains(row));
    }
}

/// Of rows that stand newest first, the row kept for a resident is their
/// latest: no row of the same resident is of a later moment.
pub proof fn lemma_first_per_resident_is_latest(rows: Seq<Model>, row: Model, other: Model)
    requires
        is_newest_first(rows),
        first_per_resident(rows).contains(row),
        rows.contains(other),
        other.rfid@ == row.rfid@,
    ensures
        other.ts.not_after(row.ts),
{
    lemma_first_per_resident_rows(rows, row);
    let k = choose|k: int|
        0 <= k < rows.len() && #[trigger] rows[k] == row && !has_resident(rows.take(k), row.rfid@);
    let j = choose|j: int| 0 <= j < rows.len() && rows[j] == other;
    if j < k {
        assert(rows.take(k)[j].rfid@ == row.rfid@);
    } else if j > k {
        assert(rows[j].ts.not_after(rows[k].ts));
    }
}

/// Whether some row among `rows` belongs to the resident who wears the tag.
pub fn names_resident(rows: &Vec<Model>, rfid: &String) -> (b: bool)
    ensures
        b == has_resident(rows@, rfid@),
{
    let mut i: usize = 0;
    while i < rows.len()
        invariant
            i <= rows.len(),
            !has_resident(rows@.take(i as int), rfid@),
        decreases rows.len() - i,
    {
        if rows[i].belongs_to(rfid) {
            return true;
        }
        proof {
            let seen = rows@.take(i + 1);
            if has_resident(seen, rfid@) {
                let j = choose|j: int| 0 <= j < seen.len() && (#[trigger] seen[j]).rfid@ == rfid@;
                if j < i {
                    assert(rows@.take(i as int)[j].rfid@ == rfid@);
                }
            }
        }
        i = i + 1;
    }
    proof {
        assert(rows@.take(rows.len() as int) == rows@);
    }
    false
}

/// Collapses the rows to one for each resident: the first in the order given.
/// Applied to rows that stand newest first, it keeps each resident's latest
/// row.
pub fn latest_per_resident(rows: &Vec<Model>) -> (out: Vec<Model>)
    ensures
        out@ == first_per_resident(rows@),
        out.len() <= rows.len(),
        forall|i: int, j: int| 0 <= i < j < out.len() ==> out@[i].rfid@ != out@[j].rfid@,
        forall|tag: Seq<char>| has_resident(out@, tag) <==> has_resident(rows@, tag),
{
    let mut out: Vec<Model> = Vec::new();
    let mut i: usize = 0;
    while i < rows.len()
        invariant
            i <= rows.len(),
            out@ == first_per_resident(rows@.take(i as int)),
        decreases rows.len() - i,
    {
        proof {
            assert(rows@.take(i + 1).drop_last() == rows@.take(i as int));
            assert(rows@.take(i + 1).last() == rows@[i as int]);
            lemma_first_per_resident_complete(rows@.take(i as int), rows@[i as int].rfid@);
        }
        if !names_resident(&out, &rows[i].rfid) {
            out.push(rows[i].clone());
        }
        i = i + 1;
    }
    proof {
        assert(rows@.take(rows.len() as int) == rows@);
        lemma_first_per_resident_distinct(rows@);
        assert forall|tag: Seq<char>| has_resident(out@, tag) <==> has_resident(rows@, tag) by {
            lemma_first_per_resident_complete(rows@, tag);
        }
        lemma_first_per_resident_complete(rows@, Seq::empty());
    }
    out
}

/// Collapsing rows to one for each resident keeps them in their order: of
/// rows that stand newest first, the rows kept stand newest first.
pub proof fn lemma_first_per_resident_keeps_order(rows: Seq<Model>)
    requires
        is_newest_first(rows),
    ensures
        is_newest_first(first_per_resident(rows)),
    decreases rows.len(),
{
    if rows.len() > 0 {
        let init = rows.drop_last();
        let kept = first_per_resident(init);
        let out = first_per_resident(rows);
        assert forall|i: int, j: int| 0 <= i < j < init.len() implies init[j].ts.not_after(
            init[i].ts,
        ) by {
            assert(rows[j].ts.not_after(rows[i].ts));
        }
        lemma_first_per_resident_keeps_order(init);
        assert forall|i: int, j: int| 0 <= i < j < out.len() implies out[j].ts.not_after(
            out[i].ts,
        ) by {
            if j < kept.len() {
                assert(kept[j].ts.not_after(kept[i].ts));
            } else {
                assert(kept.contains(kept[i]));
                lemma_first_per_resident_rows(init, kept[i]);
                let k = choose|k: int|
                    0 <= k < init.len() && #[trigger] init[k] == kept[i] && !has_resident(
                        init.take(k),
                        kept[i].rfid@,
                    );
                assert(rows[rows.len() - 1].ts.not_after(rows[k].ts));
            }
        }
    }
}

} // verus!
