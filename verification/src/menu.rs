//! Menu selection driven by the up and down buttons.
use vstd::prelude::*;

verus! {

/// Number of entries in the menu; entries are numbered from 1.
pub const MENU_LEN: usize = 3;

/// The entries that the selection can show.
pub open spec fn valid_entry(entry: int) -> bool {
    1 <= entry <= MENU_LEN
}

/// Selection after the up button: the next entry, or the first one after the last.
pub open spec fn spec_menu_up(entry: int) -> int {
    if entry < MENU_LEN { entry + 1 } else { 1 }
}

/// Selection after the down button: the previous entry, or the last one before the first.
pub open spec fn spec_menu_down(entry: int) -> int {
    if entry > 1 { entry - 1 } else { MENU_LEN as int }
}

/// Moves the selection one entry forward, wrapping from the last entry to the first.
pub fn menu_up(entry: usize) -> (next: usize)
    ensures
        next == spec_menu_up(entry as int),
        valid_entry(next as int),
{
    if entry < MENU_LEN {
        entry + 1
    } else {
        1
    }
}

/// Moves the selection one entry back, wrapping from the first entry to the last.
pub fn menu_down(entry: usize) -> (next: usize)
    ensures
        next == spec_menu_down(entry as int),
        valid_entry(entry as int) ==> valid_entry(next as int),
{
    if entry > 1 {
        entry - 1
    } else {
        MENU_LEN
    }
}

} // verus!

verus! {

/// Pressing down right after up gives back the entry that was selected.
pub proof fn lemma_down_undoes_up(entry: int)
    requires
        valid_entry(entry),
    ensures
        spec_menu_down(spec_menu_up(entry)) == entry,
{
}

/// Pressing up right after down gives back the entry that was selected.
pub proof fn lemma_up_undoes_down(entry: int)
    requires
        valid_entry(entry),
    ensures
        spec_menu_up(spec_menu_down(entry)) == entry,
{
}

/// Pressing up once per menu entry brings the selection back to where it started.
pub proof fn lemma_up_cycles(entry: int)
    requires
        valid_entry(entry),
    ensures
        spec_menu_up(spec_menu_up(spec_menu_up(entry))) == entry,
{
}

/// Pressing down once per menu entry brings the selection back to where it started.
pub proof fn lemma_down_cycles(entry: int)
    requires
        valid_entry(entry),
    ensures
        spec_menu_down(spec_menu_down(spec_menu_down(entry))) == entry,
{
}

} // verus!
