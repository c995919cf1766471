//! What the terminal view shows: one line per monitored mailbox, kept up
//! to date from the updates of its monitor and of its supervisor. Drawing
//! is left to the caller.

use crate::imap_checker::MailboxCounts;
use crate::supervisor::SupervisorEvent;
use vstd::prelude::*;
use vstd::string::StringExecFns;

verus! {

/// UI state for a mailbox entry.
#[derive(Debug, Clone)]
pub struct EntryState {
    /// Display name for the mailbox.
    pub name: String,
    /// Unread message count.
    pub unread: u32,
    /// Whether the mailbox is active or not.
    pub active: bool,
}

/// One line of the list.
#[derive(Debug)]
pub struct ListLine {
    /// The text of the line.
    pub text: String,
    /// Whether the line is set in italics.
    pub italic: bool,
}

/// The character of a decimal digit.
pub open spec fn digit_char(d: nat) -> char {
    ((48 + d) as u8) as char
}

/// A number in decimal digits, without leading zeros.
pub open spec fn decimal_digits(n: nat) -> Seq<char>
    decreases n,
{
    if n < 10 {
        seq![digit_char(n)]
    } else {
        decimal_digits(n / 10).push(digit_char(n % 10))
    }
}

/// Write a number in decimal digits.
pub fn decimal_text(n: u32) -> (text: String)
    ensures
        text@ == decimal_digits(n as nat),
{
    let mut digits: Vec<u8> = Vec::new();
    digits.push((n % 10) as u8);
    let mut rest: u32 = n / 10;
    while rest > 0
        invariant
            digits@.len() >= 1,
            forall|i: int| 0 <= i < digits@.len() ==> #[trigger] digits@[i] < 10,
            decimal_digits(n as nat) == (if rest > 0 {
                decimal_digits(rest as nat)
            } else {
                Seq::<char>::empty()
            }) + Seq::new(
                digits@.len(),
                |i: int| digit_char(digits@[digits@.len() - 1 - i] as nat),
            ),
        decreases rest,
    {
        let ghost before = Seq::new(
            digits@.len(),
            |i: int| digit_char(digits@[digits@.len() - 1 - i] as nat),
        );
        let d: u8 = (rest % 10) as u8;
        digits.push(d);
        let ghost after = Seq::new(
            digits@.len(),
            |i: int| digit_char(digits@[digits@.len() - 1 - i] as nat),
        );
        assert(after =~= seq![digit_char(d as nat)] + before);
        proof {
            let head = if rest / 10 > 0 {
                decimal_digits((rest / 10) as nat)
            } else {
                Seq::<char>::empty()
            };
            assert(decimal_digits(rest as nat) =~= head + seq![digit_char(d as nat)]);
            assert(head + after =~= decimal_digits(rest as nat) + before);
        }
        rest = rest / 10;
    }
    let mut text = String::new();
    let mut k: usize = digits.len();
    let ghost all = Seq::new(
        digits@.len(),
        |i: int| digit_char(digits@[digits@.len() - 1 - i] as nat),
    );
    assert(all =~= decimal_digits(n as nat));
    while k > 0
        invariant
            k <= digits@.len(),
            forall|i: int| 0 <= i < digits@.len() ==> #[trigger] digits@[i] < 10,
            all == Seq::new(
                digits@.len(),
                |i: int| digit_char(digits@[digits@.len() - 1 - i] as nat),
            ),
            text@ == all.take(digits@.len() - k),
        decreases k,
    {
        k -= 1;
        crate::text::push_char(&mut text, (48 + digits[k]) as char);
        assert(text@ =~= all.take(digits@.len() - k));
    }
    assert(all.take(digits@.len() as int) =~= all);
    text
}

/// The text of an entry's line: its name, a dash, and how many messages
/// are new.
pub open spec fn entry_text(entry: EntryState) -> Seq<char> {
    entry.name@ + " \u{2014} "@ + decimal_digits(entry.unread as nat) + " new"@
}

/// The line of an entry: its text, in italics where the mailbox is not
/// active.
pub fn entry_line(entry: &EntryState) -> (line: ListLine)
    ensures
        line.text@ == entry_text(*entry),
        line.italic == !entry.active,
{
    let mut text = entry.name.clone();
    text.append(" \u{2014} ");
    text.append(decimal_text(entry.unread).as_str());
    text.append(" new");
    ListLine { text, italic: !entry.active }
}

/// The lines of the list: one per entry, in order, or a single line that
/// says that there are none.
pub fn list_lines(entries: &Vec<EntryState>) -> (lines: Vec<ListLine>)
    ensures
        entries@.len() == 0 ==> lines@.len() == 1 && lines@[0].text@
            == "No mailboxes configured"@ && !lines@[0].italic,
        entries@.len() > 0 ==> lines@.len() == entries@.len() && forall|i: int|
            0 <= i < entries@.len() ==> (#[trigger] lines@[i]).text@ == entry_text(entries@[i])
                && lines@[i].italic == !entries@[i].active,
{
    let mut lines: Vec<ListLine> = Vec::new();
    let n = entries.len();
    if n == 0 {
        lines.push(ListLine { text: "No mailboxes configured".to_owned(), italic: false });
        return lines;
    }
    let mut i: usize = 0;
    while i < n
        invariant
            n == entries@.len(),
            i <= n,
            lines@.len() == i,
            forall|k: int|
                0 <= k < i ==> (#[trigger] lines@[k]).text@ == entry_text(entries@[k])
                    && lines@[k].italic == !entries@[k].active,
        decreases n - i,
    {
        lines.push(entry_line(&entries[i]));
        i += 1;
    }
    lines
}

/// Take the counts that a monitor reported: the entry shows the new number
/// of unread messages.
pub fn on_counts(entry: &mut EntryState, counts: MailboxCounts)
    ensures
        final(entry).unread == counts.unread,
        final(entry).name == old(entry).name,
        final(entry).active == old(entry).active,
{
    entry.unread = counts.unread;
}

/// Take an event of a monitor's supervisor: the entry is active while an
/// attempt runs, that is after `Started`, and not after an attempt has
/// ended.
pub fn on_supervisor_event<T, E, P>(entry: &mut EntryState, event: &SupervisorEvent<T, E, P>)
    ensures
        final(entry).active == (*event is Started),
        final(entry).name == old(entry).name,
        final(entry).unread == old(entry).unread,
{
    entry.active = match event {
        SupervisorEvent::Started => true,
        _ => false,
    };
}

} // verus!
