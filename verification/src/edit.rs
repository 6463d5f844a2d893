//! Editing a reminder (`edit`): which reminder, and what changes.

use vstd::prelude::*;
use crate::json::Json;
use crate::recur::code_text;
use crate::recur::recur_label;
use crate::recur::recur_label_of;
use crate::reminders::get_reminder;
use crate::reminders::recur_code_of;
use crate::reminders::reminder_at;
use crate::reminders::reminder_list;
use crate::reminders::reminder_due_ts;
use crate::reminders::reminder_recur_code;
use crate::reminders::reminder_title_text;
use crate::reminders::reminder_uuid;
use crate::reminders::reminders_slice;
use crate::reminders::uuid_of;
use crate::reminders::DbError;
use crate::reminders::due_of;
use crate::listing::code_text_of;
use crate::snapshot::opt_chars;
use crate::text::push_decimal;
use crate::text::decimal_text;
use crate::text::push_str;
use crate::text::same_text;
use crate::text::string_of;
use crate::time::fmt_ts;
use crate::time::fmt_ts_text;
use crate::time::valid_now;

verus! {

/// The reminder that an edit works on.
pub struct EditTarget {
    /// The stored position that the edit removes.
    pub raw_idx: usize,
    pub title: String,
    pub due: i64,
    /// The repeat frequency name, when the reminder repeats.
    pub recur: Option<String>,
    pub uuid: String,
}

/// The reminder's title, when its `n` member is a string.
pub open spec fn title_field(r: Json) -> Option<Seq<char>> {
    match r.field("n"@) {
        Some(Json::Str(s)) => Some(s@),
        _ => None,
    }
}

/// The reminder numbered `index` in the listing, ready to edit: refused as
/// `reminder_at` refuses it, or when it has no title or no due timestamp.
pub fn edit_target(data: &Json, index: usize) -> (r: Result<EditTarget, DbError>)
    ensures
        match reminder_at(*data, index) {
            Err(e) => r == Err::<EditTarget, DbError>(e),
            Ok(p) => {
                let t = reminder_list(*data)[p.1 as int];
                match r {
                    Err(e) => (title_field(t) is None && e == DbError::MissingTitle)
                        || (title_field(t) is Some && due_of(t) is None && e == DbError::MissingDue),
                    Ok(target) => {
                        &&& target.raw_idx == p.0
                        &&& title_field(t) == Some(target.title@)
                        &&& due_of(t) == Some(target.due)
                        &&& opt_chars(target.recur) == recur_label_of(code_text_of(recur_code_of(t)))
                        &&& uuid_of(t) == Some(target.uuid@)
                        &&& target.raw_idx < reminder_list(*data).len()
                    },
                }
            },
        },
{
    let (raw_idx, pos) = match get_reminder(data, index) {
        Ok(p) => p,
        Err(e) => return Err(e),
    };
    let rs = reminders_slice(data);
    let t = &rs[pos];
    let title = match reminder_title_text(t) {
        Some(s) => string_of(s),
        None => return Err(DbError::MissingTitle),
    };
    let due = match reminder_due_ts(t) {
        Some(d) => d,
        None => return Err(DbError::MissingDue),
    };
    let code = reminder_recur_code(t);
    let recur = recur_label(code);
    assert(code_text(code) == code_text_of(recur_code_of(*t)));
    let uuid = match reminder_uuid(t) {
        Some(u) => u,
        None => return Err(DbError::MissingUuid),
    };
    Ok(EditTarget { raw_idx, title, due, recur, uuid })
}

/// What an edit changes.
pub struct EditPlan {
    pub new_title: String,
    pub new_due: i64,
    /// One line per change: `title → 'X'`, `due → WHEN`.
    pub changes: Vec<String>,
}

/// The change lines of an edit.
pub open spec fn change_lines(old_title: Seq<char>, new_title: Seq<char>, old_due: i64, new_due: i64, now: i64) -> Seq<Seq<char>> {
    let a: Seq<Seq<char>> = if new_title != old_title {
        seq!["title → '"@ + new_title + "'"@]
    } else {
        Seq::empty()
    };
    if new_due != old_due {
        a.push("due → "@ + fmt_ts_text(new_due, now).unwrap())
    } else {
        a
    }
}

/// Works out an edit: the new title (`title`, or the current one), the new
/// due time (`requested`, or the current one) and the list of changes.
/// Refused when the new due time has no local time, or nothing changes.
pub fn edit_plan(target: &EditTarget, title: Option<&str>, requested: Option<i64>, now: i64) -> (r: Result<EditPlan, DbError>)
    requires
        valid_now(now),
    ensures
        ({
            let new_title = match title { Some(t) => t@, None => target.title@ };
            let new_due = match requested { Some(d) => d, None => target.due };
            let changed = new_title != target.title@ || new_due != target.due;
            if new_due != target.due && fmt_ts_text(new_due, now) is None {
                r == Err::<EditPlan, DbError>(DbError::InvalidTimestamp(new_due))
            } else if !changed {
                r == Err::<EditPlan, DbError>(DbError::NothingToChange)
            } else {
                r matches Ok(plan) && plan.new_title@ == new_title && plan.new_due == new_due
                    && plan.changes@.len() == change_lines(target.title@, new_title, target.due, new_due, now).len()
                    && forall|i: int| 0 <= i < plan.changes@.len() ==> (#[trigger] plan.changes@[i])@ == change_lines(target.title@, new_title, target.due, new_due, now)[i]
            }
        }),
{
    let new_title = match title {
        Some(t) => string_of(t),
        None => target.title.clone(),
    };
    let new_due = match requested {
        Some(d) => d,
        None => target.due,
    };
    let ghost lines = change_lines(target.title@, new_title@, target.due, new_due, now);
    let mut changes: Vec<String> = Vec::new();
    if !same_text(new_title.as_str(), target.title.as_str()) {
        let mut s = string_of("title → '");
        push_str(&mut s, new_title.as_str());
        push_str(&mut s, "'");
        changes.push(s);
    }
    if new_due != target.due {
        let when = match fmt_ts(new_due, now) {
            Some(w) => w,
            None => return Err(DbError::InvalidTimestamp(new_due)),
        };
        let mut s = string_of("due → ");
        push_str(&mut s, when.as_str());
        changes.push(s);
    }
    if changes.len() == 0 {
        return Err(DbError::NothingToChange);
    }
    proof {
        assert(changes@.len() == lines.len());
        assert forall|i: int| 0 <= i < changes@.len() implies (#[trigger] changes@[i])@ == lines[i] by {}
    }
    Ok(EditPlan { new_title, new_due, changes })
}

/// The change lines joined with `, `.
pub open spec fn joined_changes(lines: Seq<Seq<char>>) -> Seq<char>
    decreases lines.len(),
{
    if lines.len() == 0 {
        Seq::empty()
    } else if lines.len() == 1 {
        lines[0]
    } else {
        joined_changes(lines.drop_last()) + ", "@ + lines.last()
    }
}

/// The changes of an edit as one line, separated by `, `.
pub fn changes_text(plan: &EditPlan) -> (r: String)
    ensures
        r@ == joined_changes(Seq::new(plan.changes@.len(), |i: int| plan.changes@[i]@)),
{
    let ghost all = Seq::new(plan.changes@.len(), |i: int| plan.changes@[i]@);
    let mut s = String::new();
    let mut i: usize = 0;
    while i < plan.changes.len()
        invariant
            i <= plan.changes@.len(),
            all == Seq::new(plan.changes@.len(), |k: int| plan.changes@[k]@),
            s@ == joined_changes(all.take(i as int)),
        decreases plan.changes@.len() - i,
    {
        if i > 0 {
            push_str(&mut s, ", ");
        }
        push_str(&mut s, plan.changes[i].as_str());
        proof {
            assert(all.take(i + 1).drop_last() =~= all.take(i as int));
            if i == 0 {
                assert(all.take(1) =~= seq![all[0]]);
            }
        }
        i = i + 1;
    }
    assert(all.take(all.len() as int) =~= all);
    s
}

/// The line printed after an edit: the reminder's number and its changes,
/// then whether Due's editor saved the re-added reminder.
pub fn updated_message(index: usize, changes: &str, saved: bool) -> (r: String)
    ensures
        r@ == "Updated #"@ + decimal_text(index as nat) + ": "@ + changes@ + if saved {
            " — synced to iPhone via CloudKit (AppleScript)"@
        } else {
            " — Due editor open, please click Save manually to sync to iPhone."@
        },
{
    let mut s = string_of("Updated #");
    push_decimal(&mut s, index as u64);
    push_str(&mut s, ": ");
    push_str(&mut s, changes);
    if saved {
        push_str(&mut s, " — synced to iPhone via CloudKit (AppleScript)");
    } else {
        push_str(&mut s, " — Due editor open, please click Save manually to sync to iPhone.");
    }
    s
}

} // verus!
