//! Adding a reminder (`add`): the duplicate check and the messages.

use vstd::prelude::*;
use crate::json::Json;
use crate::reminders::due_of;
use crate::reminders::reminder_due_ts;
use crate::reminders::reminder_list;
use crate::reminders::reminder_title;
use crate::reminders::reminders_slice;
use crate::reminders::title_of;
use crate::text::lowercase;
use crate::text::push_str;
use crate::text::string_of;
use crate::text::to_lowercase;
use crate::text::trim;
use crate::text::trimmed;
use crate::time::fmt_ts;
use crate::time::fmt_ts_text;
use crate::time::hkt_from_ts;
use crate::time::hkt_local;
use crate::time::HktDateTime;
use crate::time::valid_now;

verus! {

/// A title as duplicates are compared: trimmed, then lower-cased.
pub open spec fn normalized(s: Seq<char>) -> Seq<char> {
    lowercase(trimmed(s))
}

/// Two local times fall in the same minute of the same day.
pub open spec fn same_minute(a: HktDateTime, b: HktDateTime) -> bool {
    a.same_date(b) && a.hour == b.hour && a.minute == b.minute
}

/// The scan for a duplicate stops at this reminder: its normalized title is
/// `norm`, it has a due timestamp, and that timestamp has no local time or
/// falls in the same minute as `target`.
pub open spec fn stops_scan(r: Json, norm: Seq<char>, target: HktDateTime) -> bool {
    &&& normalized(title_of(r)) == norm
    &&& due_of(r) matches Some(d) && (hkt_local(d) matches Some(t) ==> same_minute(t, target))
}

/// A stored reminder stops the duplicate scan exactly when its normalized
/// title is the new one's and it is due in the same minute of the same Hong
/// Kong day (year, month, day, hour and minute all equal), or its due
/// timestamp has no local time; one due on another date never does.
pub proof fn lemma_duplicate_is_same_day_and_minute(r: Json, norm: Seq<char>, target: HktDateTime)
    ensures
        stops_scan(r, norm, target) <==> {
            &&& normalized(title_of(r)) == norm
            &&& due_of(r) is Some
            &&& match hkt_local(due_of(r).unwrap()) {
                None => true,
                Some(t) => t.year == target.year && t.month == target.month && t.day == target.day
                    && t.hour == target.hour && t.minute == target.minute,
            }
        },
{
}

/// Finds a stored reminder that duplicates a new one: same title (trimmed,
/// lower-cased) and due in the same minute of the same Hong Kong day.
///
/// Returns the first such reminder in stored order. A timestamp that has no
/// local time is returned as the error (where the tool stops with "Invalid
/// timestamp"): the new one, or that of a same-titled reminder met before
/// any duplicate.
pub fn find_duplicate(data: &Json, title: &str, due_ts: i64) -> (r: Result<Option<usize>, i64>)
    ensures
        ({
            let rs = reminder_list(*data);
            let norm = normalized(title@);
            match hkt_local(due_ts) {
                None => r == Err::<Option<usize>, i64>(due_ts),
                Some(target) => match r {
                    Ok(None) => {
                        &&& forall|i: int| 0 <= i < rs.len() ==> !stops_scan(#[trigger] rs[i], norm, target)
                        &&& forall|i: int| 0 <= i < rs.len() && normalized(title_of(#[trigger] rs[i])) == norm
                            && due_of(rs[i]) is Some ==> (hkt_local(due_of(rs[i]).unwrap()) matches Some(t)
                                && !(t.year == target.year && t.month == target.month && t.day == target.day
                                    && t.hour == target.hour && t.minute == target.minute))
                    },
                    Ok(Some(i)) => {
                        &&& i < rs.len()
                        &&& stops_scan(rs[i as int], norm, target)
                        &&& normalized(title_of(rs[i as int])) == norm
                        &&& hkt_local(due_of(rs[i as int]).unwrap()) matches Some(t)
                            && t.year == target.year && t.month == target.month && t.day == target.day
                            && t.hour == target.hour && t.minute == target.minute
                        &&& forall|j: int| 0 <= j < i ==> !stops_scan(#[trigger] rs[j], norm, target)
                    },
                    Err(ts) => exists|i: int| {
                        &&& 0 <= i < rs.len()
                        &&& stops_scan(#[trigger] rs[i], norm, target)
                        &&& due_of(rs[i]) == Some(ts)
                        &&& hkt_local(ts) is None
                        &&& forall|j: int| 0 <= j < i ==> !stops_scan(#[trigger] rs[j], norm, target)
                    },
                },
            }
        }),
{
    let target = match hkt_from_ts(due_ts) {
        Some(t) => t,
        None => return Err(due_ts),
    };
    let norm = to_lowercase(trim(title));
    let rs = reminders_slice(data);
    let mut i: usize = 0;
    while i < rs.len()
        invariant
            i <= rs@.len(),
            rs@ == reminder_list(*data),
            norm@ == normalized(title@),
            hkt_local(due_ts) == Some(target),
            forall|j: int| 0 <= j < i ==> !stops_scan(#[trigger] rs@[j], norm@, target),
        decreases rs@.len() - i,
    {
        let t = reminder_title(&rs[i]);
        let other = to_lowercase(trim(t.as_str()));
        if other == norm {
            if let Some(existing) = reminder_due_ts(&rs[i]) {
                match hkt_from_ts(existing) {
                    None => {
                        assert(stops_scan(rs@[i as int], norm@, target));
                        return Err(existing);
                    },
                    Some(e) => {
                        if e.year == target.year && e.month == target.month && e.day == target.day
                            && e.hour == target.hour && e.minute == target.minute {
                            return Ok(Some(i));
                        }
                    },
                }
            }
        }
        i = i + 1;
    }
    Ok(None)
}

/// The text of `fmt_ts` of a timestamp that has a local time.
pub open spec fn shown(ts: i64, now: i64) -> Seq<char> {
    fmt_ts_text(ts, now).unwrap()
}

/// The message that refuses a duplicate.
pub fn duplicate_message(title: &str, existing_due: i64, now: i64) -> (r: Option<String>)
    requires
        valid_now(now),
    ensures
        r is Some <==> fmt_ts_text(existing_due, now) is Some,
        r matches Some(s) ==> s@ == "Duplicate: '"@ + title@ + "' already exists on that day at "@
            + shown(existing_due, now) + ". Use 'moneo edit' to change the time."@,
{
    let when = match fmt_ts(existing_due, now) {
        Some(w) => w,
        None => return None,
    };
    let mut s = string_of("Duplicate: '");
    push_str(&mut s, title);
    push_str(&mut s, "' already exists on that day at ");
    push_str(&mut s, when.as_str());
    push_str(&mut s, ". Use 'moneo edit' to change the time.");
    Some(s)
}

/// The text that follows the due time of an added reminder: ` (repeats X)`
/// for a repeat frequency, nothing otherwise.
pub open spec fn repeat_note(recur: Option<Seq<char>>) -> Seq<char> {
    match recur {
        Some(r) => " (repeats "@ + r + ")"@,
        None => Seq::empty(),
    }
}

/// The message after an added reminder was saved in Due.
pub fn added_message(title: &str, due_ts: i64, recur: Option<&str>, now: i64) -> (r: Option<String>)
    requires
        valid_now(now),
    ensures
        r is Some <==> fmt_ts_text(due_ts, now) is Some,
        r matches Some(s) ==> s@ == "Added: '"@ + title@ + "' due "@ + shown(due_ts, now)
            + repeat_note(match recur { Some(x) => Some(x@), None => None })
            + " — synced to iPhone via CloudKit (AppleScript)"@,
{
    let when = match fmt_ts(due_ts, now) {
        Some(w) => w,
        None => return None,
    };
    let mut s = string_of("Added: '");
    push_str(&mut s, title);
    push_str(&mut s, "' due ");
    push_str(&mut s, when.as_str());
    if let Some(x) = recur {
        push_str(&mut s, " (repeats ");
        push_str(&mut s, x);
        push_str(&mut s, ")");
    }
    push_str(&mut s, " — synced to iPhone via CloudKit (AppleScript)");
    assert(s@ =~= "Added: '"@ + title@ + "' due "@ + shown(due_ts, now)
        + repeat_note(match recur { Some(x) => Some(x@), None => None })
        + " — synced to iPhone via CloudKit (AppleScript)"@);
    Some(s)
}

} // verus!
