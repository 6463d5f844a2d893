//! Handing a reminder to the Due app through its x-callback URL, and
//! reading whether the editor saved it.

use vstd::prelude::*;
use vstd::string::StringSliceAdditionalSpecFns;
use crate::recur::recur_freq;
use crate::recur::recur_freq_of;
use crate::recur::recur_unit;
use crate::recur::recur_unit_of;
use crate::text::contains_text;
use crate::text::digit_char;
use crate::text::has_substring;
use crate::text::push_signed;
use crate::text::push_str;
use crate::text::same_text;
use crate::text::signed_text;
use crate::text::string_of;
use crate::time::hkt_from_ts;
use crate::time::hkt_local;

verus! {

/// A byte that URL encoding leaves as it is: an ASCII letter or digit, or
/// one of `-`, `.`, `_`, `~`.
pub open spec fn url_safe(b: u8) -> bool {
    (48 <= b <= 57) || (65 <= b <= 90) || (97 <= b <= 122) || b == 45 || b == 46 || b == 95 || b == 126
}

/// An upper-case hexadecimal digit.
pub open spec fn hex_digit(d: int) -> char {
    if d < 10 {
        digit_char(d)
    } else {
        ((d - 10 + 65) as u8) as char
    }
}

/// The percent-encoding of a byte string: safe bytes as themselves, every
/// other byte as `%` and two upper-case hexadecimal digits.
pub open spec fn percent_encoded(b: Seq<u8>) -> Seq<char>
    decreases b.len(),
{
    if b.len() == 0 {
        Seq::empty()
    } else {
        let last = b.last();
        percent_encoded(b.drop_last()) + if url_safe(last) {
            seq![last as char]
        } else {
            seq!['%', hex_digit((last / 16) as int), hex_digit((last % 16) as int)]
        }
    }
}

/// URL-encodes a text.
///
/// Calls `urlencoding::encode`, which percent-encodes every byte of the
/// UTF-8 text except ASCII letters, digits and `-`, `_`, `.`, `~`, writing
/// upper-case hexadecimal digits (its documentation and source).
#[verifier::external_body]
pub(crate) fn url_encode(s: &str) -> (r: String)
    ensures
        r@ == percent_encoded(s.spec_bytes()),
{
    urlencoding::encode(s).into_owned()
}

/// The `recurbyday` number of a weekday counted from Monday (0): Sunday is
/// 1, Monday 2, and so on to Saturday, 7.
pub open spec fn recur_by_day(weekday: int) -> int {
    if (weekday + 2) % 7 == 0 {
        7
    } else {
        (weekday + 2) % 7
    }
}

/// The repeat parameters of the URL for a frequency name, when it has a
/// unit and a frequency; the weekday part only for `weekly`, and `None`
/// when that one needs a local time that does not exist.
pub open spec fn repeat_params(recur: Seq<char>, due_ts: i64) -> Option<Seq<char>> {
    match (recur_unit_of(recur), recur_freq_of(recur)) {
        (Some(unit), Some(freq)) => {
            let base = "&recurunit="@ + signed_text(unit as int) + "&recurfreq="@ + signed_text(freq as int)
                + "&recurfromdate="@ + signed_text(due_ts as int);
            if recur == "weekly"@ {
                match hkt_local(due_ts) {
                    Some(t) => Some(base + "&recurbyday="@ + signed_text(recur_by_day(t.weekday as int))),
                    None => None,
                }
            } else {
                Some(base)
            }
        },
        _ => Some(Seq::empty()),
    }
}

/// The x-callback URL that asks Due to add a reminder; `None` when a weekly
/// repeat is asked for a due time that has no local time (where the tool
/// stops with "Invalid timestamp").
pub open spec fn add_url(title: Seq<u8>, due_ts: i64, recur: Option<Seq<char>>) -> Option<Seq<char>> {
    let base = "due://x-callback-url/add?title="@ + percent_encoded(title) + "&duedate="@ + signed_text(due_ts as int);
    match recur {
        None => Some(base),
        Some(r) => match repeat_params(r, due_ts) {
            Some(p) => Some(base + p),
            None => None,
        },
    }
}

/// Builds the x-callback URL that asks Due to add a reminder.
pub fn sync_url(title: &str, due_ts: i64, recur: Option<&str>) -> (r: Option<String>)
    ensures
        ({
            let want = add_url(title.spec_bytes(), due_ts, match recur { Some(x) => Some(x@), None => None });
            &&& r is Some <==> want is Some
            &&& r matches Some(s) ==> want == Some(s@)
        }),
{
    let mut url = string_of("due://x-callback-url/add?title=");
    let enc = url_encode(title);
    push_str(&mut url, enc.as_str());
    push_str(&mut url, "&duedate=");
    push_signed(&mut url, due_ts);
    if let Some(x) = recur {
        let unit = recur_unit(x);
        let freq = recur_freq(x);
        if let (Some(u), Some(f)) = (unit, freq) {
            push_str(&mut url, "&recurunit=");
            push_signed(&mut url, u as i64);
            push_str(&mut url, "&recurfreq=");
            push_signed(&mut url, f as i64);
            push_str(&mut url, "&recurfromdate=");
            push_signed(&mut url, due_ts);
            if same_text(x, "weekly") {
                let t = match hkt_from_ts(due_ts) {
                    Some(t) => t,
                    None => return None,
                };
                let w: i64 = ((t.weekday as i64) + 2) % 7;
                let day: i64 = if w == 0 { 7 } else { w };
                push_str(&mut url, "&recurbyday=");
                push_signed(&mut url, day);
            }
        }
    }
    assert(url@ =~= add_url(title.spec_bytes(), due_ts, match recur { Some(x) => Some(x@), None => None }).unwrap());
    Some(url)
}

/// Whether AppleScript reported that the Due editor saved the reminder: its
/// output contains `ok`.
pub fn applescript_saved(output: &str) -> (r: bool)
    ensures
        r == has_substring(output@, "ok"@),
{
    contains_text(output, "ok")
}

} // verus!
