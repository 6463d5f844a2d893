//! Repeat frequencies: the codes stored in reminders, and the unit and
//! frequency numbers that the Due URL scheme takes.

use vstd::prelude::*;
use crate::text::same_text;
use crate::text::string_of;

verus! {

/// The frequency name that a stored repeat code stands for.
pub open spec fn recur_label_of(code: Seq<char>) -> Option<Seq<char>> {
    if code == "d"@ {
        Some("daily"@)
    } else if code == "w"@ {
        Some("weekly"@)
    } else if code == "m"@ {
        Some("monthly"@)
    } else if code == "q"@ {
        Some("quarterly"@)
    } else if code == "y"@ {
        Some("yearly"@)
    } else {
        None
    }
}

/// The `recurunit` number of the Due URL scheme for a frequency name.
pub open spec fn recur_unit_of(freq: Seq<char>) -> Option<i32> {
    if freq == "daily"@ {
        Some(16)
    } else if freq == "weekly"@ {
        Some(256)
    } else if freq == "monthly"@ {
        Some(8)
    } else if freq == "quarterly"@ {
        Some(8)
    } else if freq == "yearly"@ {
        Some(4)
    } else {
        None
    }
}

/// The `recurfreq` number of the Due URL scheme for a frequency name.
pub open spec fn recur_freq_of(freq: Seq<char>) -> Option<i32> {
    if freq == "quarterly"@ {
        Some(3)
    } else if freq == "daily"@ || freq == "weekly"@ || freq == "monthly"@ || freq == "yearly"@ {
        Some(1)
    } else {
        None
    }
}

/// The text of an optional code, empty when absent.
pub open spec fn code_text(code: Option<&str>) -> Seq<char> {
    match code {
        Some(c) => c@,
        None => ""@,
    }
}

/// The frequency name of a stored repeat code (`d`, `w`, `m`, `q`, `y`).
pub fn recur_label(code: Option<&str>) -> (r: Option<String>)
    ensures
        r matches Some(s) ==> recur_label_of(code_text(code)) == Some(s@),
        r is None ==> recur_label_of(code_text(code)) is None,
{
    let c = match code {
        Some(c) => c,
        None => "",
    };
    if same_text(c, "d") {
        Some(string_of("daily"))
    } else if same_text(c, "w") {
        Some(string_of("weekly"))
    } else if same_text(c, "m") {
        Some(string_of("monthly"))
    } else if same_text(c, "q") {
        Some(string_of("quarterly"))
    } else if same_text(c, "y") {
        Some(string_of("yearly"))
    } else {
        None
    }
}

/// The `recurunit` number for a frequency name.
pub fn recur_unit(freq: &str) -> (r: Option<i32>)
    ensures
        r == recur_unit_of(freq@),
{
    if same_text(freq, "daily") {
        Some(16)
    } else if same_text(freq, "weekly") {
        Some(256)
    } else if same_text(freq, "monthly") {
        Some(8)
    } else if same_text(freq, "quarterly") {
        Some(8)
    } else if same_text(freq, "yearly") {
        Some(4)
    } else {
        None
    }
}

/// The `recurfreq` number for a frequency name.
pub fn recur_freq(freq: &str) -> (r: Option<i32>)
    ensures
        r == recur_freq_of(freq@),
{
    if same_text(freq, "quarterly") {
        Some(3)
    } else if same_text(freq, "daily") || same_text(freq, "weekly") || same_text(freq, "monthly")
        || same_text(freq, "yearly") {
        Some(1)
    } else {
        None
    }
}

/// A frequency name has a unit exactly when it has a frequency: the two
/// tables accept the same names.
pub proof fn lemma_unit_iff_freq(freq: Seq<char>)
    ensures
        recur_unit_of(freq) is Some <==> recur_freq_of(freq) is Some,
{
}

/// Every frequency name that a stored code stands for has a unit and a
/// frequency, so a repeating reminder always carries its repeat to Due.
pub proof fn lemma_label_has_unit_and_freq(code: Seq<char>)
    ensures
        recur_label_of(code) matches Some(l) ==> recur_unit_of(l) is Some && recur_freq_of(l) is Some,
{
}

} // verus!
