//! The tables that `ls` and `log` print.

use vstd::prelude::*;
use crate::json::Json;
use crate::order::is_stable_order;
use crate::order::lemma_stable_order_exists;
use crate::order::precedes;
use crate::order::stable_order;
use crate::order::stable_order_of;
use crate::recur::code_text;
use crate::recur::recur_label;
use crate::recur::recur_label_of;
use crate::reminders::due_key;
use crate::reminders::listing_order;
use crate::reminders::recur_code_of;
use crate::reminders::reminder_due_ts;
use crate::reminders::reminder_list;
use crate::reminders::reminder_recur_code;
use crate::reminders::reminder_title;
use crate::reminders::reminders_slice;
use crate::reminders::sorted_reminders;
use crate::reminders::title_of;
use crate::text::contains_text;
use crate::text::has_substring;
use crate::text::lowercase;
use crate::text::pad_to;
use crate::text::padded;
use crate::text::prefix_chars;
use crate::text::push_char;
use crate::text::push_decimal;
use crate::text::push_str;
use crate::text::decimal_text;
use crate::text::string_of;
use crate::text::take_chars;
use crate::text::to_lowercase;
use crate::time::clock_text;
use crate::time::date_text;
use crate::time::fmt_ts;
use crate::time::fmt_ts_text;
use crate::time::hkt_from_ts;
use crate::time::hkt_local;
use crate::time::push_clock;
use crate::time::push_date;
use crate::time::valid_now;

verus! {

/// A rule of 68 box-drawing characters.
pub open spec fn rule_line() -> Seq<char> {
    Seq::new(68, |i: int| '─')
}

/// The rule under a table header.
pub fn rule() -> (r: String)
    ensures
        r@ == rule_line(),
{
    let mut s = String::new();
    let mut i: usize = 0;
    while i < 68
        invariant
            i <= 68,
            s@ == Seq::new(i as nat, |k: int| '─'),
        decreases 68 - i,
    {
        push_char(&mut s, '─');
        i = i + 1;
        assert(s@ =~= Seq::new(i as nat, |k: int| '─'));
    }
    s
}

/// The header of the `ls` table.
pub open spec fn ls_header() -> Seq<char> {
    padded("#"@, 4) + " "@ + padded("Title"@, 36) + " "@ + padded("Due"@, 16) + " Recur"@
}

/// How `ls` shows a due time: `—` when there is none, otherwise the due
/// text followed by ` ⚠` when it is past. `None` when it has no local time.
pub open spec fn ls_due_text(due: i64, now: i64) -> Option<Seq<char>> {
    if due == 0 {
        Some("—"@)
    } else {
        match fmt_ts_text(due, now) {
            None => None,
            Some(t) => Some(if due < now { t + " ⚠"@ } else { t }),
        }
    }
}

/// The `ls` row of the reminder numbered `number`.
pub open spec fn ls_row(number: nat, r: Json, now: i64) -> Option<Seq<char>> {
    match ls_due_text(due_key(r), now) {
        None => None,
        Some(due) => {
            let recur = match recur_label_of(code_text_of(recur_code_of(r))) {
                Some(l) => l,
                None => Seq::empty(),
            };
            Some(padded(decimal_text(number), 4) + " "@ + padded(prefix_chars(title_of(r), 35), 36) + " "@
                + padded(due, 16) + " "@ + recur)
        },
    }
}

/// The text of an optional code, empty when absent.
pub open spec fn code_text_of(code: Option<Seq<char>>) -> Seq<char> {
    match code {
        Some(c) => c,
        None => ""@,
    }
}

/// Lines to print, and the timestamp that stopped the printing, if one did
/// (the tool then stops with "Invalid timestamp").
pub struct Listing {
    pub lines: Vec<String>,
    pub bad_timestamp: Option<i64>,
}

/// Appends `s` left-aligned in a field of `width` characters.
pub fn push_padded(line: &mut String, s: String, width: usize)
    ensures
        final(line)@ == old(line)@ + padded(s@, width as nat),
{
    let mut t = s;
    pad_to(&mut t, width);
    push_str(line, t.as_str());
}

/// The `ls` due column of a reminder, `None` when it has no local time.
pub fn ls_due(due: i64, now: i64) -> (r: Option<String>)
    requires
        valid_now(now),
    ensures
        r matches Some(s) ==> ls_due_text(due, now) == Some(s@),
        r is None ==> ls_due_text(due, now) is None,
{
    if due == 0 {
        return Some(string_of("—"));
    }
    match fmt_ts(due, now) {
        None => None,
        Some(mut t) => {
            if due < now {
                push_str(&mut t, " ⚠");
            }
            Some(t)
        },
    }
}

/// The `ls` row of a reminder.
pub fn ls_row_text(number: u64, r: &Json, now: i64) -> (out: Option<String>)
    requires
        valid_now(now),
    ensures
        out matches Some(s) ==> ls_row(number as nat, *r, now) == Some(s@),
        out is None ==> ls_row(number as nat, *r, now) is None,
{
    let due = match reminder_due_ts(r) {
        Some(d) => d,
        None => 0,
    };
    let due_text = match ls_due(due, now) {
        Some(t) => t,
        None => return None,
    };
    let code = reminder_recur_code(r);
    let recur = match recur_label(code) {
        Some(l) => l,
        None => String::new(),
    };
    assert(code_text(code) == code_text_of(recur_code_of(*r)));
    let mut line = String::new();
    let mut num = String::new();
    push_decimal(&mut num, number);
    push_padded(&mut line, num, 4);
    push_str(&mut line, " ");
    let title = reminder_title(r);
    push_padded(&mut line, take_chars(title.as_str(), 35), 36);
    push_str(&mut line, " ");
    push_padded(&mut line, due_text, 16);
    push_str(&mut line, " ");
    push_str(&mut line, recur.as_str());
    assert(line@ =~= ls_row(number as nat, *r, now).unwrap());
    Some(line)
}

/// The header of the `ls` table.
pub fn ls_header_text() -> (r: String)
    ensures
        r@ == ls_header(),
{
    let mut line = String::new();
    push_padded(&mut line, string_of("#"), 4);
    push_str(&mut line, " ");
    push_padded(&mut line, string_of("Title"), 36);
    push_str(&mut line, " ");
    push_padded(&mut line, string_of("Due"), 16);
    push_str(&mut line, " Recur");
    assert(line@ =~= ls_header());
    line
}

/// The table that `ls` prints, reminders in listing order.
///
/// "No reminders." when there are none; otherwise a header, a rule and one
/// row per reminder, stopping at the first reminder whose due time has no
/// local time (its timestamp is then reported).
pub fn ls_listing(data: &Json, now: i64) -> (r: Listing)
    requires
        valid_now(now),
    ensures
        ({
            let rs = reminder_list(*data);
            let order = listing_order(*data);
            if rs.len() == 0 {
                r.lines@.len() == 1 && r.lines@[0]@ == "No reminders."@ && r.bad_timestamp is None
            } else {
                let m = r.lines@.len() - 2;
                &&& 2 <= r.lines@.len() <= rs.len() + 2
                &&& r.lines@[0]@ == ls_header()
                &&& r.lines@[1]@ == rule_line()
                &&& forall|k: int| 0 <= k < m ==> ls_row((k + 1) as nat, rs[order[k] as int], now) == Some(#[trigger] r.lines@[k + 2]@)
                &&& if m < rs.len() {
                    &&& ls_row((m + 1) as nat, rs[order[m] as int], now) is None
                    &&& r.bad_timestamp == Some(due_key(rs[order[m] as int]))
                } else {
                    r.bad_timestamp is None
                }
            }
        }),
{
    let rs = reminders_slice(data);
    let order = sorted_reminders(data);
    let mut lines: Vec<String> = Vec::new();
    if rs.len() == 0 {
        lines.push(string_of("No reminders."));
        return Listing { lines, bad_timestamp: None };
    }
    lines.push(ls_header_text());
    lines.push(rule());
    let n = order.len();
    let mut k: usize = 0;
    while k < n
        invariant
            n == order@.len(),
            n == rs@.len(),
            rs@ == reminder_list(*data),
            order@ == listing_order(*data),
            forall|i: int| 0 <= i < n ==> (#[trigger] order@[i]) < n,
            valid_now(now),
            k <= n,
            lines@.len() == k + 2,
            lines@[0]@ == ls_header(),
            lines@[1]@ == rule_line(),
            forall|i: int| 0 <= i < k ==> ls_row((i + 1) as nat, rs@[order@[i] as int], now) == Some(#[trigger] lines@[i + 2]@),
        decreases n - k,
    {
        let r = &rs[order[k]];
        match ls_row_text((k + 1) as u64, r, now) {
            Some(line) => {
                lines.push(line);
            },
            None => {
                let due = match reminder_due_ts(r) {
                    Some(d) => d,
                    None => 0,
                };
                return Listing { lines, bad_timestamp: Some(due) };
            },
        }
        k = k + 1;
    }
    Listing { lines, bad_timestamp: None }
}


/// The completion log: the `lb` array of the document, or none.
pub open spec fn log_list(data: Json) -> Seq<Json> {
    match data.field("lb"@) {
        Some(Json::Array(v)) => v@,
        _ => Seq::empty(),
    }
}

/// When a log entry was completed: its `m` member, 0 when that is not an
/// integer.
pub open spec fn completed_at(e: Json) -> i64 {
    match e.field("m"@) {
        Some(Json::Int(t)) => t,
        _ => 0,
    }
}

/// The completion keys of the log entries.
pub open spec fn completion_keys(es: Seq<Json>) -> Seq<i64> {
    Seq::new(es.len(), |i: int| completed_at(es[i]))
}

/// A log entry passes the filter: none is given, or the lower-cased filter
/// occurs in the lower-cased title.
pub open spec fn passes_filter(e: Json, filter: Option<Seq<char>>) -> bool {
    match filter {
        None => true,
        Some(f) => has_substring(lowercase(title_of(e)), lowercase(f)),
    }
}

/// The positions, in the given order, of the entries that pass the filter.
pub open spec fn kept(order: Seq<usize>, es: Seq<Json>, filter: Option<Seq<char>>) -> Seq<usize>
    decreases order.len(),
{
    if order.len() == 0 {
        Seq::empty()
    } else {
        let prev = kept(order.drop_last(), es, filter);
        if passes_filter(es[order.last() as int], filter) {
            prev.push(order.last())
        } else {
            prev
        }
    }
}

/// The log entries that `log` shows: newest first (ties in stored order),
/// those that pass the filter, at most `n` of them.
pub open spec fn log_selection(data: Json, n: nat, filter: Option<Seq<char>>) -> Seq<usize> {
    let es = log_list(data);
    let k = kept(stable_order_of(completion_keys(es), true), es, filter);
    if k.len() <= n {
        k
    } else {
        k.take(n as int)
    }
}

/// Which log entries pass the filter: all of them without one, otherwise
/// those whose lower-cased title contains the lower-cased filter.
pub proof fn lemma_log_filter_meaning(e: Json, filter: Option<Seq<char>>)
    ensures
        passes_filter(e, filter) == match filter {
            None => true,
            Some(f) => has_substring(lowercase(title_of(e)), lowercase(f)),
        },
{
}

/// What filtering keeps of a list of positions: only positions of the list
/// that pass, and every one of them that passes.
proof fn lemma_kept_members(o: Seq<usize>, es: Seq<Json>, filter: Option<Seq<char>>)
    ensures
        kept(o, es, filter).len() <= o.len(),
        forall|x: int| 0 <= x < kept(o, es, filter).len() ==> o.contains(#[trigger] kept(o, es, filter)[x])
            && passes_filter(es[kept(o, es, filter)[x] as int], filter),
        forall|j: int| 0 <= j < o.len() && passes_filter(es[o[j] as int], filter)
            ==> kept(o, es, filter).contains(#[trigger] o[j]),
    decreases o.len(),
{
    if o.len() > 0 {
        let p = o.drop_last();
        lemma_kept_members(p, es, filter);
        let kp = kept(p, es, filter);
        let k = kept(o, es, filter);
        assert forall|x: int| 0 <= x < k.len() implies o.contains(#[trigger] k[x])
            && passes_filter(es[k[x] as int], filter) by {
            if x < kp.len() {
                assert(k[x] == kp[x]);
                let q = choose|q: int| 0 <= q < p.len() && p[q] == kp[x];
                assert(o[q] == kp[x]);
            } else {
                assert(k[x] == o.last());
                assert(o[o.len() - 1] == o.last());
            }
        }
        assert forall|j: int| 0 <= j < o.len() && passes_filter(es[o[j] as int], filter)
            implies k.contains(#[trigger] o[j]) by {
            if j < o.len() - 1 {
                assert(p[j] == o[j]);
                assert(kp.contains(p[j]));
                let q = choose|q: int| 0 <= q < kp.len() && kp[q] == p[j];
                assert(k[q] == kp[q]);
            } else {
                assert(k[k.len() - 1] == o[j]);
            }
        }
    }
}

/// Filtering keeps the order of the positions it keeps.
proof fn lemma_kept_in_order(o: Seq<usize>, es: Seq<Json>, filter: Option<Seq<char>>, keys: Seq<i64>)
    requires
        forall|i: int, j: int| 0 <= i < j < o.len() ==> precedes(keys, true, #[trigger] o[i] as int, #[trigger] o[j] as int),
    ensures
        forall|x: int, y: int| 0 <= x < y < kept(o, es, filter).len()
            ==> precedes(keys, true, #[trigger] kept(o, es, filter)[x] as int, #[trigger] kept(o, es, filter)[y] as int),
    decreases o.len(),
{
    if o.len() > 0 {
        let p = o.drop_last();
        assert forall|i: int, j: int| 0 <= i < j < p.len() implies precedes(keys, true, #[trigger] p[i] as int, #[trigger] p[j] as int) by {
            assert(p[i] == o[i] && p[j] == o[j]);
        }
        lemma_kept_in_order(p, es, filter, keys);
        lemma_kept_members(p, es, filter);
        let kp = kept(p, es, filter);
        let k = kept(o, es, filter);
        assert forall|x: int, y: int| 0 <= x < y < k.len()
            implies precedes(keys, true, #[trigger] k[x] as int, #[trigger] k[y] as int) by {
            if y < kp.len() {
                assert(k[x] == kp[x] && k[y] == kp[y]);
            } else {
                assert(k[x] == kp[x]);
                assert(p.contains(kp[x]));
                let q = choose|q: int| 0 <= q < p.len() && p[q] == kp[x];
                assert(o[q] == kp[x]);
                assert(k[y] == o[o.len() - 1]);
            }
        }
    }
}

/// What `log` shows: at most `n` entries, each passing the filter, newest
/// first (equally new ones in stored order); every passing entry newer than
/// a shown one is shown too, and when fewer than `n` are shown, every
/// passing entry is.
pub proof fn lemma_log_shows_newest_matching(data: Json, n: nat, filter: Option<Seq<char>>)
    requires
        log_list(data).len() <= usize::MAX,
    ensures
        ({
            let es = log_list(data);
            let sel = log_selection(data, n, filter);
            &&& sel.len() <= n
            &&& forall|x: int| 0 <= x < sel.len() ==> (#[trigger] sel[x]) < es.len()
                && passes_filter(es[sel[x] as int], filter)
            &&& forall|x: int, y: int| 0 <= x < y < sel.len() ==> {
                ||| completed_at(es[#[trigger] sel[x] as int]) > completed_at(es[#[trigger] sel[y] as int])
                ||| completed_at(es[sel[x] as int]) == completed_at(es[sel[y] as int]) && sel[x] < sel[y]
            }
            &&& forall|i: int, x: int|
                #![trigger passes_filter(es[i], filter), sel[x]]
                0 <= i < es.len() && 0 <= x < sel.len() && passes_filter(es[i], filter) && {
                    ||| completed_at(es[i]) > completed_at(es[sel[x] as int])
                    ||| completed_at(es[i]) == completed_at(es[sel[x] as int]) && i < sel[x]
                } ==> sel.contains(i as usize)
            &&& sel.len() < n ==> forall|i: int| 0 <= i < es.len() && #[trigger] passes_filter(es[i], filter)
                ==> sel.contains(i as usize)
        }),
{
    let es = log_list(data);
    let keys = completion_keys(es);
    lemma_stable_order_exists(keys, true);
    let o = stable_order_of(keys, true);
    assert(is_stable_order(keys, true, o));
    lemma_kept_members(o, es, filter);
    lemma_kept_in_order(o, es, filter, keys);
    let k = kept(o, es, filter);
    let sel = log_selection(data, n, filter);
    assert(forall|x: int| 0 <= x < sel.len() ==> sel[x] == k[x]);
    assert forall|x: int| 0 <= x < sel.len() implies (#[trigger] sel[x]) < es.len()
        && passes_filter(es[sel[x] as int], filter) by {
        assert(sel[x] == k[x]);
        assert(o.contains(k[x]));
    }
    assert forall|x: int, y: int| 0 <= x < y < sel.len() implies {
        ||| completed_at(es[#[trigger] sel[x] as int]) > completed_at(es[#[trigger] sel[y] as int])
        ||| completed_at(es[sel[x] as int]) == completed_at(es[sel[y] as int]) && sel[x] < sel[y]
    } by {
        assert(sel[x] == k[x] && sel[y] == k[y]);
        assert(precedes(keys, true, k[x] as int, k[y] as int));
        assert(o.contains(k[x]) && o.contains(k[y]));
    }
    // Every passing entry is kept somewhere.
    assert forall|i: int| 0 <= i < es.len() && passes_filter(es[i], filter) implies k.contains(i as usize) by {
        assert(o.contains(i as usize));
        let j = choose|j: int| 0 <= j < o.len() && o[j] == i as usize;
        assert(k.contains(o[j]));
    }
    assert forall|i: int, x: int|
        #![trigger passes_filter(es[i], filter), sel[x]]
        0 <= i < es.len() && 0 <= x < sel.len() && passes_filter(es[i], filter) && {
            ||| completed_at(es[i]) > completed_at(es[sel[x] as int])
            ||| completed_at(es[i]) == completed_at(es[sel[x] as int]) && i < sel[x]
        } implies sel.contains(i as usize) by {
        assert(k.contains(i as usize));
        let p = choose|p: int| 0 <= p < k.len() && k[p] == i as usize;
        assert(sel[x] == k[x]);
        assert(o.contains(k[x]));
        if p >= sel.len() {
            assert(precedes(keys, true, k[x] as int, k[p] as int));
            assert(keys[i] == completed_at(es[i]));
            assert(keys[k[x] as int] == completed_at(es[k[x] as int]));
            assert(false);
        } else {
            assert(sel[p] == i as usize);
        }
    }
}

/// The header of the `log` table.
pub open spec fn log_header() -> Seq<char> {
    padded("Completed (HKT)"@, 20) + " "@ + "Title"@
}

/// When a log entry was completed, in Hong Kong time, or `—`.
pub open spec fn completion_text(ts: i64) -> Seq<char> {
    match hkt_local(ts) {
        Some(t) => date_text(t) + " "@ + clock_text(t),
        None => "—"@,
    }
}

/// The `log` row of an entry.
pub open spec fn log_row(e: Json) -> Seq<char> {
    padded(completion_text(completed_at(e)), 20) + " "@ + prefix_chars(title_of(e), 46)
}

/// The optional filter's characters.
pub open spec fn filter_chars(filter: Option<&str>) -> Option<Seq<char>> {
    match filter {
        Some(f) => Some(f@),
        None => None,
    }
}

/// An entry's completion time.
fn entry_completed_at(e: &Json) -> (r: i64)
    ensures
        r == completed_at(*e),
{
    match e.get("m") {
        Some(v) => match v.as_i64() {
            Some(t) => t,
            None => 0,
        },
        None => 0,
    }
}

/// The completion time in Hong Kong time, or `—`.
pub fn completion_time_text(ts: i64) -> (r: String)
    ensures
        r@ == completion_text(ts),
{
    match hkt_from_ts(ts) {
        Some(t) => {
            let mut s = String::new();
            push_date(&mut s, &t);
            push_str(&mut s, " ");
            push_clock(&mut s, &t);
            assert(s@ =~= completion_text(ts));
            s
        },
        None => string_of("—"),
    }
}

/// The table that `log` prints: "No completions found." when nothing is
/// selected, otherwise a header, a rule and one row per selected entry.
pub fn log_listing(data: &Json, n: usize, filter: Option<&str>) -> (r: Vec<String>)
    ensures
        ({
            let es = log_list(*data);
            let sel = log_selection(*data, n as nat, filter_chars(filter));
            if sel.len() == 0 {
                r@.len() == 1 && r@[0]@ == "No completions found."@
            } else {
                &&& r@.len() == sel.len() + 2
                &&& r@[0]@ == log_header()
                &&& r@[1]@ == rule_line()
                &&& forall|k: int| 0 <= k < sel.len() ==> #[trigger] r@[k + 2]@ == log_row(es[sel[k] as int])
            }
        }),
{
    let entries: &[Json] = match data.get("lb") {
        Some(v) => match v.as_array() {
            Some(a) => a.as_slice(),
            None => &[],
        },
        None => &[],
    };
    let ghost es = log_list(*data);
    assert(entries@ == es);
    let mut keys: Vec<i64> = Vec::new();
    let mut i: usize = 0;
    while i < entries.len()
        invariant
            i <= entries@.len(),
            keys@.len() == i,
            forall|k: int| 0 <= k < i ==> keys@[k] == completed_at(#[trigger] entries@[k]),
        decreases entries@.len() - i,
    {
        keys.push(entry_completed_at(&entries[i]));
        i = i + 1;
    }
    assert(keys@ =~= completion_keys(es));
    let order = stable_order(&keys, true);
    let filter_lower: Option<String> = match filter {
        Some(f) => Some(to_lowercase(f)),
        None => None,
    };
    let ghost fc = filter_chars(filter);
    let mut selected: Vec<usize> = Vec::new();
    let mut j: usize = 0;
    while j < order.len()
        invariant
            j <= order@.len(),
            order@.len() == es.len(),
            entries@ == es,
            forall|x: int| 0 <= x < order@.len() ==> (#[trigger] order@[x]) < es.len(),
            selected@ == kept(order@.take(j as int), es, fc),
            forall|x: int| 0 <= x < selected@.len() ==> (#[trigger] selected@[x]) < es.len(),
            fc == filter_chars(filter),
            match filter_lower {
                Some(fl) => fc matches Some(f) && fl@ == lowercase(f),
                None => fc is None,
            },
        decreases order@.len() - j,
    {
        let e = &entries[order[j]];
        let pass = match &filter_lower {
            Some(fl) => {
                let title = reminder_title(e);
                let lower = to_lowercase(title.as_str());
                contains_text(lower.as_str(), fl.as_str())
            },
            None => true,
        };
        proof {
            assert(order@.take(j + 1).drop_last() =~= order@.take(j as int));
            assert(order@.take(j + 1).last() == order@[j as int]);
        }
        if pass {
            selected.push(order[j]);
        }
        j = j + 1;
    }
    assert(order@.take(order@.len() as int) =~= order@);
    let mut lines: Vec<String> = Vec::new();
    let count = if selected.len() <= n { selected.len() } else { n };
    if count == 0 {
        lines.push(string_of("No completions found."));
        return lines;
    }
    let mut header = String::new();
    push_padded(&mut header, string_of("Completed (HKT)"), 20);
    push_str(&mut header, " ");
    push_str(&mut header, "Title");
    assert(header@ =~= log_header());
    lines.push(header);
    lines.push(rule());
    let ghost sel = log_selection(*data, n as nat, fc);
    assert(sel.len() == count);
    let mut k: usize = 0;
    while k < count
        invariant
            count <= selected@.len(),
            sel.len() == count,
            forall|x: int| 0 <= x < count ==> sel[x] == selected@[x],
            forall|x: int| 0 <= x < selected@.len() ==> (#[trigger] selected@[x]) < es.len(),
            entries@ == es,
            k <= count,
            lines@.len() == k + 2,
            lines@[0]@ == log_header(),
            lines@[1]@ == rule_line(),
            forall|x: int| 0 <= x < k ==> #[trigger] lines@[x + 2]@ == log_row(es[sel[x] as int]),
        decreases count - k,
    {
        let e = &entries[selected[k]];
        let mut line = String::new();
        push_padded(&mut line, completion_time_text(entry_completed_at(e)), 20);
        push_str(&mut line, " ");
        let title = reminder_title(e);
        push_str(&mut line, take_chars(title.as_str(), 46).as_str());
        assert(line@ =~= log_row(es[sel[k as int] as int]));
        lines.push(line);
        k = k + 1;
    }
    lines
}

} // verus!
