//! The `monitors.uptime_status` values, stored as text.

use vstd::prelude::*;

verus! {

pub const NOT_YET_CHECKED: &'static str = "not_yet_checked";
pub const UP: &'static str = "up";
pub const DOWN: &'static str = "down";

/// The three status texts are what they spell, and pairwise distinct.
pub proof fn lemma_status_texts()
    ensures
        UP@ == seq!['u', 'p'],
        DOWN@ == seq!['d', 'o', 'w', 'n'],
        NOT_YET_CHECKED@.len() == 15,
        NOT_YET_CHECKED@[0] == 'n',
        UP@ != DOWN@,
        UP@ != NOT_YET_CHECKED@,
        DOWN@ != NOT_YET_CHECKED@,
{
    reveal_strlit("up");
    reveal_strlit("down");
    reveal_strlit("not_yet_checked");
    assert(UP@.len() != DOWN@.len());
    assert(UP@.len() != NOT_YET_CHECKED@.len());
    assert(DOWN@.len() != NOT_YET_CHECKED@.len());
}

} // verus!
