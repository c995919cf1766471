//! What the tray shows: a menu item per monitored mailbox, and an icon with
//! the number of unread messages in all of them. Drawing is left to the
//! caller.

use crate::icon_render_loop::Data;
use crate::tui_view::{decimal_digits, decimal_text, EntryState};
use vstd::prelude::*;
use vstd::string::StringExecFns;

verus! {

/// The width of the icon image.
pub const WIDTH: u32 = 32;

/// The height of the icon image.
pub const HEIGHT: u32 = 32;

/// Produce a default idle icon: a white square.
pub fn idle() -> (icon: Data)
    ensures
        icon.width == WIDTH,
        icon.height == HEIGHT,
        icon.pixels@.len() == WIDTH * HEIGHT * 4,
        forall|i: int| 0 <= i < icon.pixels@.len() ==> #[trigger] icon.pixels@[i] == 255,
{
    let pixels: Vec<u8> = vec![255u8; 4096];
    Data { pixels, width: WIDTH, height: HEIGHT }
}

/// The text of an entry's menu item: its name and how many messages are
/// unread, or that it is inactive.
pub open spec fn menu_text(entry: EntryState) -> Seq<char> {
    if entry.active {
        entry.name@ + ": "@ + decimal_digits(entry.unread as nat) + " unread"@
    } else {
        entry.name@ + ": inactive"@
    }
}

/// Write the text of an entry's menu item.
pub fn menu_item_text(entry: &EntryState) -> (text: String)
    ensures
        text@ == menu_text(*entry),
{
    let mut text = entry.name.clone();
    if entry.active {
        text.append(": ");
        text.append(decimal_text(entry.unread).as_str());
        text.append(" unread");
    } else {
        text.append(": inactive");
    }
    text
}

/// The number of unread messages in the first `n` entries.
pub open spec fn unread_sum(entries: Seq<EntryState>, n: int) -> nat
    decreases n,
{
    if n <= 0 {
        0
    } else {
        unread_sum(entries, n - 1) + entries[n - 1].unread as nat
    }
}

/// More entries hold at least as many unread messages.
pub proof fn lemma_unread_sum_grows(entries: Seq<EntryState>, k: int, n: int)
    requires
        k <= n,
    ensures
        unread_sum(entries, k) <= unread_sum(entries, n),
    decreases n - k,
{
    if k < n {
        lemma_unread_sum_grows(entries, k, n - 1);
    }
}

/// Count the unread messages in all entries; `None` where the number does
/// not fit.
pub fn total_unread(entries: &Vec<EntryState>) -> (total: Option<u32>)
    ensures
        match total {
            Some(t) => t == unread_sum(entries@, entries@.len() as int),
            None => unread_sum(entries@, entries@.len() as int) > u32::MAX,
        },
{
    let n = entries.len();
    let mut total: u32 = 0;
    let mut i: usize = 0;
    while i < n
        invariant
            n == entries@.len(),
            i <= n,
            total == unread_sum(entries@, i as int),
        decreases n - i,
    {
        match total.checked_add(entries[i].unread) {
            Some(t) => {
                total = t;
            },
            None => {
                proof {
                    lemma_unread_sum_grows(entries@, i + 1, n as int);
                }
                return None;
            },
        }
        i += 1;
    }
    Some(total)
}

/// Take the new total: where it differs from the one that the icon shows,
/// or the icon shows none yet, remember it and return the text for a new
/// icon.
pub fn update_total(total_cache: &mut Option<u32>, total: u32) -> (text: Option<String>)
    ensures
        *final(total_cache) == Some(total),
        match text {
            Some(t) => *old(total_cache) != Some(total) && t@ == decimal_digits(total as nat),
            None => *old(total_cache) == Some(total),
        },
{
    let redraw = match *total_cache {
        Some(cached) => cached != total,
        None => true,
    };
    if redraw {
        *total_cache = Some(total);
        Some(decimal_text(total))
    } else {
        None
    }
}

} // verus!
