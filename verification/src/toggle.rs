//! The location toggle: what one scan does to a resident's recorded location.

use vstd::prelude::*;

verus! {

/// The reserved location of a resident who is not checked in anywhere.
pub const HOME_SENTINEL: i32 = 0;

/// The toggle rule over mathematical integers: the pair holds the resident's
/// next location and the location written to the movement history.
pub open spec fn toggled(current: int, target: int) -> (int, int) {
    if current == target {
        (0, 0)
    } else {
        (target, target)
    }
}

/// Decides one scan. A scan at the location the resident is recorded at sends
/// them home; a scan anywhere else moves them there. Both components of the
/// result agree: the history records where the resident ends up.
pub fn resolve(current: i32, target: i32) -> (r: (i32, i32))
    ensures
        (r.0 as int, r.1 as int) == toggled(current as int, target as int),
        current == target ==> r.0 == HOME_SENTINEL && r.1 == HOME_SENTINEL,
        current != target ==> r.0 == target && r.1 == target,
{
    if target == current {
        (HOME_SENTINEL, HOME_SENTINEL)
    } else {
        (target, target)
    }
}

/// A scan of a real location (one other than the sentinel) sends the resident
/// home exactly when it names the location they are recorded at.
pub proof fn lemma_toggle_home_iff_same(current: int, target: int)
    requires
        target != 0,
    ensures
        toggled(current, target) == (0int, 0int) <==> current == target,
        current != target ==> toggled(current, target) == (target, target),
{
}

/// The recorded location always equals the resident's next location, and the
/// next location is either the sentinel or the scanned one.
pub proof fn lemma_toggle_shape(current: int, target: int)
    ensures
        toggled(current, target).0 == toggled(current, target).1,
        toggled(current, target).0 == 0 || toggled(current, target).0 == target,
{
}

/// Two scans of the same location in a row leave the resident at the
/// sentinel, provided the first scan was a move (the resident was elsewhere)
/// or the location is the sentinel itself.
pub proof fn lemma_double_scan_returns_home(current: int, target: int)
    requires
        current != target || target == 0,
    ensures
        toggled(toggled(current, target).0, target) == (0int, 0int),
{
}

} // verus!
