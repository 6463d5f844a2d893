//! The git-tracked snapshot of the reminders, and the comparison that tells
//! whether the database changed since the last one.

use vstd::prelude::*;
use crate::json::Json;
use crate::listing::code_text_of;
use crate::recur::code_text;
use crate::recur::recur_label;
use crate::recur::recur_label_of;
use crate::reminders::due_of;
use crate::reminders::listing_order;
use crate::reminders::recur_code_of;
use crate::reminders::reminder_due_ts;
use crate::reminders::reminder_list;
use crate::reminders::reminder_recur_code;
use crate::reminders::reminder_title;
use crate::reminders::reminder_uuid;
use crate::reminders::reminders_slice;
use crate::reminders::sorted_reminders;
use crate::reminders::title_of;
use crate::reminders::uuid_of;
use crate::text::decimal_text;
use crate::text::push_decimal;
use crate::text::push_str;
use crate::text::same_text;
use crate::text::string_of;
use crate::time::fmt_ts;
use crate::time::fmt_ts_text;
use crate::time::valid_now;

verus! {

/// One reminder as the snapshot file records it.
pub struct SnapshotReminder {
    pub title: String,
    pub due: Option<String>,
    pub due_ts: Option<i64>,
    pub recur: Option<String>,
    pub uuid: Option<String>,
}

/// The part of a reminder that decides whether the snapshot changed.
pub struct ComparableReminder {
    pub title: String,
    pub due: Option<i64>,
    pub recur: Option<String>,
}

/// The characters of an optional string.
pub open spec fn opt_chars(s: Option<String>) -> Option<Seq<char>> {
    match s {
        Some(t) => Some(t@),
        None => None,
    }
}

/// The repeat frequency name of a reminder, if it has a known code.
pub open spec fn recur_name_of(r: Json) -> Option<Seq<char>> {
    recur_label_of(code_text_of(recur_code_of(r)))
}

/// `s` records reminder `r`: its title, due text and timestamp, repeat
/// frequency and UUID.
pub open spec fn records(s: SnapshotReminder, r: Json, now: i64) -> bool {
    &&& s.title@ == title_of(r)
    &&& s.due_ts == due_of(r)
    &&& match due_of(r) {
        None => s.due is None,
        Some(d) => s.due matches Some(t) && fmt_ts_text(d, now) == Some(t@),
    }
    &&& opt_chars(s.recur) == recur_name_of(r)
    &&& opt_chars(s.uuid) == uuid_of(r)
}

/// A reminder whose due time cannot be shown.
pub open spec fn unshowable(r: Json, now: i64) -> bool {
    due_of(r) matches Some(d) && fmt_ts_text(d, now) is None
}

/// The comparison key of a reminder: title, due timestamp, repeat frequency.
pub type Comparison = (Seq<char>, Option<i64>, Option<Seq<char>>);

/// The comparison keys of the reminders in listing order.
pub open spec fn current_comparison(data: Json) -> Seq<Comparison> {
    let rs = reminder_list(data);
    let order = listing_order(data);
    Seq::new(order.len(), |k: int| (title_of(rs[order[k] as int]), due_of(rs[order[k] as int]), recur_name_of(rs[order[k] as int])))
}

/// The text under `key`, when it is a string.
pub open spec fn text_field(e: Json, key: Seq<char>) -> Option<Seq<char>> {
    match e.field(key) {
        Some(Json::Str(s)) => Some(s@),
        _ => None,
    }
}

/// The integer under `key`.
pub open spec fn int_field(e: Json, key: Seq<char>) -> Option<i64> {
    match e.field(key) {
        Some(v) => v.int_value(),
        None => None,
    }
}

/// The comparison key read back from a saved snapshot entry: `title`
/// (empty when missing), `due_ts` and `recur`.
pub open spec fn saved_key(e: Json) -> Comparison {
    (
        match text_field(e, "title"@) {
            Some(t) => t,
            None => Seq::empty(),
        },
        int_field(e, "due_ts"@),
        text_field(e, "recur"@),
    )
}

/// The comparison keys of a saved snapshot.
pub open spec fn saved_comparison(entries: Seq<Json>) -> Seq<Comparison> {
    Seq::new(entries.len(), |k: int| saved_key(entries[k]))
}

/// The comparison key of a comparable reminder.
pub open spec fn comparison_of(c: ComparableReminder) -> Comparison {
    (c.title@, c.due, opt_chars(c.recur))
}

/// The comparison keys of comparable reminders.
pub open spec fn comparisons(cs: Seq<ComparableReminder>) -> Seq<Comparison> {
    Seq::new(cs.len(), |k: int| comparison_of(cs[k]))
}

/// `e` is the JSON object under which the snapshot file stores `s`: each
/// field under its name, a missing value as `null`.
pub open spec fn is_record_of(e: Json, s: SnapshotReminder) -> bool {
    &&& e.field("title"@) matches Some(Json::Str(t)) && t@ == s.title@
    &&& match s.due {
        Some(d) => e.field("due"@) matches Some(Json::Str(t)) && t@ == d@,
        None => e.field("due"@) == Some(Json::Null),
    }
    &&& match s.due_ts {
        Some(d) => e.field("due_ts"@) == Some(Json::Int(d)),
        None => e.field("due_ts"@) == Some(Json::Null),
    }
    &&& match s.recur {
        Some(d) => e.field("recur"@) matches Some(Json::Str(t)) && t@ == d@,
        None => e.field("recur"@) == Some(Json::Null),
    }
    &&& match s.uuid {
        Some(d) => e.field("uuid"@) matches Some(Json::Str(t)) && t@ == d@,
        None => e.field("uuid"@) == Some(Json::Null),
    }
}

/// The records of the snapshot file, in listing order, for reminders that
/// can all be shown; otherwise the due timestamp of the first (in listing
/// order) that cannot (where the tool stops with "Invalid timestamp").
pub fn make_snapshot(data: &Json, now: i64) -> (r: Result<Vec<SnapshotReminder>, i64>)
    requires
        valid_now(now),
    ensures
        ({
            let rs = reminder_list(*data);
            let order = listing_order(*data);
            match r {
                Ok(v) => v@.len() == rs.len()
                    && forall|k: int| 0 <= k < v@.len() ==> records(#[trigger] v@[k], rs[order[k] as int], now),
                Err(ts) => exists|m: int|
                    0 <= m < rs.len() && unshowable(#[trigger] rs[order[m] as int], now)
                        && due_of(rs[order[m] as int]) == Some(ts)
                        && forall|k: int| 0 <= k < m ==> !unshowable(#[trigger] rs[order[k] as int], now),
            }
        }),
        (r is Ok) <==> (forall|k: int| 0 <= k < reminder_list(*data).len() ==> !unshowable(#[trigger] reminder_list(*data)[listing_order(*data)[k] as int], now)),
{
    let rs = reminders_slice(data);
    let order = sorted_reminders(data);
    let n = order.len();
    let mut out: Vec<SnapshotReminder> = Vec::new();
    let mut k: usize = 0;
    while k < n
        invariant
            n == order@.len(),
            n == rs@.len(),
            rs@ == reminder_list(*data),
            order@ == listing_order(*data),
            forall|i: int| 0 <= i < n ==> (#[trigger] order@[i]) < n,
            valid_now(now),
            k <= n,
            out@.len() == k,
            forall|i: int| 0 <= i < k ==> records(#[trigger] out@[i], rs@[order@[i] as int], now),
            forall|i: int| 0 <= i < k ==> !unshowable(#[trigger] rs@[order@[i] as int], now),
        decreases n - k,
    {
        let r = &rs[order[k]];
        let due_ts = reminder_due_ts(r);
        let due = match due_ts {
            Some(d) => match fmt_ts(d, now) {
                Some(t) => Some(t),
                None => {
                    assert(unshowable(rs@[order@[k as int] as int], now));
                    return Err(d);
                },
            },
            None => None,
        };
        let code = reminder_recur_code(r);
        let recur = recur_label(code);
        assert(code_text(code) == code_text_of(recur_code_of(*r)));
        out.push(SnapshotReminder { title: reminder_title(r), due, due_ts, recur, uuid: reminder_uuid(r) });
        k = k + 1;
    }
    Ok(out)
}

/// The comparison keys of the reminders, in listing order.
pub fn comparable_current(data: &Json) -> (r: Vec<ComparableReminder>)
    ensures
        comparisons(r@) == current_comparison(*data),
{
    let rs = reminders_slice(data);
    let order = sorted_reminders(data);
    let n = order.len();
    let mut out: Vec<ComparableReminder> = Vec::new();
    let mut k: usize = 0;
    while k < n
        invariant
            n == order@.len(),
            n == rs@.len(),
            rs@ == reminder_list(*data),
            order@ == listing_order(*data),
            forall|i: int| 0 <= i < n ==> (#[trigger] order@[i]) < n,
            k <= n,
            out@.len() == k,
            forall|i: int| 0 <= i < k ==> comparison_of(#[trigger] out@[i]) == current_comparison(*data)[i],
        decreases n - k,
    {
        let r = &rs[order[k]];
        let code = reminder_recur_code(r);
        let recur = recur_label(code);
        assert(code_text(code) == code_text_of(recur_code_of(*r)));
        out.push(ComparableReminder { title: reminder_title(r), due: reminder_due_ts(r), recur });
        k = k + 1;
    }
    assert(comparisons(out@) =~= current_comparison(*data));
    out
}

/// The comparison keys read back from the entries of a saved snapshot.
pub fn comparable_saved(entries: &Vec<Json>) -> (r: Vec<ComparableReminder>)
    ensures
        comparisons(r@) == saved_comparison(entries@),
{
    let n = entries.len();
    let mut out: Vec<ComparableReminder> = Vec::new();
    let mut k: usize = 0;
    while k < n
        invariant
            n == entries@.len(),
            k <= n,
            out@.len() == k,
            forall|i: int| 0 <= i < k ==> comparison_of(#[trigger] out@[i]) == saved_key(entries@[i]),
        decreases n - k,
    {
        let e = &entries[k];
        let title = match e.get("title") {
            Some(v) => match v.as_str() {
                Some(s) => string_of(s),
                None => String::new(),
            },
            None => String::new(),
        };
        let due = match e.get("due_ts") {
            Some(v) => v.as_i64(),
            None => None,
        };
        let recur = match e.get("recur") {
            Some(v) => match v.as_str() {
                Some(s) => Some(string_of(s)),
                None => None,
            },
            None => None,
        };
        out.push(ComparableReminder { title, due, recur });
        k = k + 1;
    }
    assert(comparisons(out@) =~= saved_comparison(entries@));
    out
}

/// Whether two optional strings hold the same text.
fn same_opt_text(a: &Option<String>, b: &Option<String>) -> (r: bool)
    ensures
        r == (opt_chars(*a) == opt_chars(*b)),
{
    match (a, b) {
        (Some(x), Some(y)) => same_text(x.as_str(), y.as_str()),
        (None, None) => true,
        _ => false,
    }
}

/// Whether two snapshots compare equal, entry by entry.
pub fn same_snapshot(a: &Vec<ComparableReminder>, b: &Vec<ComparableReminder>) -> (r: bool)
    ensures
        r == (comparisons(a@) == comparisons(b@)),
{
    if a.len() != b.len() {
        assert(comparisons(a@).len() != comparisons(b@).len());
        return false;
    }
    let mut k: usize = 0;
    while k < a.len()
        invariant
            a@.len() == b@.len(),
            k <= a@.len(),
            forall|i: int| 0 <= i < k ==> comparison_of(#[trigger] a@[i]) == comparison_of(b@[i]),
        decreases a@.len() - k,
    {
        let x = &a[k];
        let y = &b[k];
        if !(same_text(x.title.as_str(), y.title.as_str()) && x.due == y.due && same_opt_text(&x.recur, &y.recur)) {
            assert(comparisons(a@)[k as int] != comparisons(b@)[k as int]);
            return false;
        }
        k = k + 1;
    }
    assert(comparisons(a@) =~= comparisons(b@));
    true
}

/// Whether the database could not be read: it is not an object, or an empty
/// one (what an unreadable file yields).
pub fn db_unreadable(data: &Json) -> (r: bool)
    ensures
        r == match *data {
            Json::Object(m) => m@.len() == 0,
            _ => true,
        },
{
    match data {
        Json::Object(m) => m.len() == 0,
        _ => true,
    }
}

/// Reading back a snapshot file written from the database gives the
/// database's own comparison keys: right after a snapshot, the next run
/// finds no change.
pub proof fn lemma_snapshot_reads_back(data: Json, now: i64, snap: Seq<SnapshotReminder>, saved: Seq<Json>)
    requires
        snap.len() == reminder_list(data).len(),
        forall|k: int| 0 <= k < snap.len() ==> records(#[trigger] snap[k], reminder_list(data)[listing_order(data)[k] as int], now),
        saved.len() == snap.len(),
        forall|k: int| 0 <= k < saved.len() ==> is_record_of(#[trigger] saved[k], snap[k]),
    ensures
        saved_comparison(saved) == current_comparison(data),
{
    let rs = reminder_list(data);
    let order = listing_order(data);
    crate::reminders::lemma_listing_order_is_stable(data);
    assert forall|k: int| 0 <= k < saved.len() implies #[trigger] saved_key(saved[k]) == current_comparison(data)[k] by {
        assert(records(snap[k], rs[order[k] as int], now));
        assert(is_record_of(saved[k], snap[k]));
    }
    assert(saved_comparison(saved) =~= current_comparison(data));
}

/// The message of the commit that records a snapshot.
pub fn commit_message(count: usize) -> (r: String)
    ensures
        r@ == "due: snapshot ("@ + decimal_text(count as nat) + " reminders)"@,
{
    let mut s = string_of("due: snapshot (");
    push_decimal(&mut s, count as u64);
    push_str(&mut s, " reminders)");
    s
}

/// The log message of a committed snapshot.
pub fn committed_message(count: usize) -> (r: String)
    ensures
        r@ == "Snapshot committed ("@ + decimal_text(count as nat) + " reminders)."@,
{
    let mut s = string_of("Snapshot committed (");
    push_decimal(&mut s, count as u64);
    push_str(&mut s, " reminders).");
    s
}

} // verus!
