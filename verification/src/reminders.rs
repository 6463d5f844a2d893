//! The reminder database: reading reminders out of the Due document, their
//! listing order, and the edits that delete a reminder.

use vstd::prelude::*;
use crate::json::find_key;
use crate::json::is_first_key;
use crate::json::key_position;
use crate::json::lemma_replace_value;
use crate::json::member;
use crate::json::set_member;
use crate::json::Json;
use crate::order::is_stable_order;
use crate::order::stable_order;
use crate::order::stable_order_of;
use crate::text::same_text;
use crate::text::string_of;

verus! {

/// Why an operation on the database was refused.
#[derive(Clone, Copy, Debug, PartialEq, Eq, Structural)]
pub enum DbError {
    /// No reminder has this (1-based) number in the listing.
    NoReminderAt(usize),
    /// The reminder has no `u` (UUID) string.
    MissingUuid,
    /// The reminder has no `n` (title) string.
    MissingTitle,
    /// The reminder has no `d` (due timestamp) integer.
    MissingDue,
    /// A timestamp has no Hong Kong local time.
    InvalidTimestamp(i64),
    /// An edit that changes nothing.
    NothingToChange,
    /// The document is not a JSON object.
    RootNotObject,
    /// The document's `dl` (deletions) member is not an object.
    TombstonesNotObject,
}

/// The reminders: the `re` array of the document, or none.
pub open spec fn reminder_list(data: Json) -> Seq<Json> {
    match data.field("re"@) {
        Some(Json::Array(v)) => v@,
        _ => Seq::empty(),
    }
}

/// A reminder's due timestamp: its `d` member, when that is an integer.
pub open spec fn due_of(r: Json) -> Option<i64> {
    match r.field("d"@) {
        Some(v) => v.int_value(),
        None => None,
    }
}

/// A reminder's title: its `n` member, when that is a string, else empty.
pub open spec fn title_of(r: Json) -> Seq<char> {
    match r.field("n"@) {
        Some(Json::Str(s)) => s@,
        _ => Seq::empty(),
    }
}

/// A reminder's UUID: its `u` member, when that is a string.
pub open spec fn uuid_of(r: Json) -> Option<Seq<char>> {
    match r.field("u"@) {
        Some(Json::Str(s)) => Some(s@),
        _ => None,
    }
}

/// A reminder's repeat code: its `rf` member, when that is a string.
pub open spec fn recur_code_of(r: Json) -> Option<Seq<char>> {
    match r.field("rf"@) {
        Some(Json::Str(s)) => Some(s@),
        _ => None,
    }
}

/// The value recorded under `key` in the document's `dl` (deletions) object.
pub open spec fn tombstone(data: Json, key: Seq<char>) -> Option<Json> {
    match data.field("dl"@) {
        Some(Json::Object(m)) => member(m@, key),
        _ => None,
    }
}

/// The document is an object whose `dl` member, if any, is an object.
pub open spec fn tombstones_writable(data: Json) -> bool {
    &&& data is Object
    &&& match data.field("dl"@) {
        Some(v) => v is Object,
        None => true,
    }
}

/// The key that orders the listing: the due timestamp, 0 when there is none.
pub open spec fn due_key(r: Json) -> i64 {
    match due_of(r) {
        Some(d) => d,
        None => 0,
    }
}

/// The listing keys of the reminders.
pub open spec fn due_keys(rs: Seq<Json>) -> Seq<i64> {
    Seq::new(rs.len(), |i: int| due_key(rs[i]))
}

/// The positions of the reminders in listing order: by due timestamp, those
/// without one as if due at 0, ties in stored order.
pub open spec fn listing_order(data: Json) -> Seq<usize> {
    stable_order_of(due_keys(reminder_list(data)), false)
}

/// `i` is the first position of a reminder with UUID `u`.
pub open spec fn is_first_uuid(rs: Seq<Json>, u: Seq<char>, i: int) -> bool {
    &&& 0 <= i < rs.len()
    &&& uuid_of(rs[i]) == Some(u)
    &&& forall|j: int| 0 <= j < i ==> uuid_of(#[trigger] rs[j]) != Some(u)
}

/// The first position of a reminder with UUID `u`.
pub open spec fn first_with_uuid(rs: Seq<Json>, u: Seq<char>) -> Option<int> {
    if exists|i: int| is_first_uuid(rs, u, i) {
        Some(choose|i: int| is_first_uuid(rs, u, i))
    } else {
        None
    }
}

/// The reminder numbered `index` (from 1) in the listing, as the pair of the
/// stored position that an edit removes (the first reminder with the same
/// UUID) and the position of the reminder itself.
pub open spec fn reminder_at(data: Json, index: usize) -> Result<(usize, usize), DbError> {
    let order = listing_order(data);
    let rs = reminder_list(data);
    if index == 0 || index > order.len() {
        Err(DbError::NoReminderAt(index))
    } else {
        let t = order[index - 1];
        match uuid_of(rs[t as int]) {
            None => Err(DbError::MissingUuid),
            Some(u) => Ok((first_with_uuid(rs, u).unwrap() as usize, t)),
        }
    }
}

/// The listing order is a stable order of the due keys, whose length is the
/// number of reminders.
pub proof fn lemma_listing_order_is_stable(data: Json)
    ensures
        is_stable_order(due_keys(reminder_list(data)), false, listing_order(data)),
        listing_order(data).len() == reminder_list(data).len(),
{
    match data.field("re"@) {
        Some(Json::Array(v)) => {
            assert(v.len() == v@.len());
        },
        _ => {},
    }
    crate::order::lemma_stable_order_exists(due_keys(reminder_list(data)), false);
}

/// The listing shows reminders by due time: every reminder comes after
/// those due earlier (a missing due time counting as 0), and reminders due
/// at the same time keep their stored order.
pub proof fn lemma_listing_sorted_by_due(data: Json, k: int, l: int)
    requires
        0 <= k < l < reminder_list(data).len(),
    ensures
        due_key(reminder_list(data)[listing_order(data)[k] as int]) <= due_key(reminder_list(data)[listing_order(data)[l] as int]),
        due_key(reminder_list(data)[listing_order(data)[k] as int]) == due_key(reminder_list(data)[listing_order(data)[l] as int])
            ==> listing_order(data)[k] < listing_order(data)[l],
{
    lemma_listing_order_is_stable(data);
    let order = listing_order(data);
    assert(crate::order::precedes(due_keys(reminder_list(data)), false, order[k] as int, order[l] as int));
}

/// `edit N` works on the reminder that the listing numbers N, and refuses
/// exactly the numbers outside 1 to the number of reminders.
pub proof fn lemma_edit_number_matches_listing(data: Json, index: usize)
    ensures
        (reminder_at(data, index) == Err::<(usize, usize), DbError>(DbError::NoReminderAt(index)))
            <==> !(1 <= index <= reminder_list(data).len()),
        reminder_at(data, index) matches Ok(p) ==> p.1 == listing_order(data)[index - 1],
{
    lemma_listing_order_is_stable(data);
}

/// The reminders stored in the document.
pub fn reminders_slice(data: &Json) -> (r: &[Json])
    ensures
        r@ == reminder_list(*data),
{
    match data.get("re") {
        Some(v) => match v.as_array() {
            Some(a) => a.as_slice(),
            None => &[],
        },
        None => &[],
    }
}

/// A reminder's due timestamp.
pub fn reminder_due_ts(reminder: &Json) -> (r: Option<i64>)
    ensures
        r == due_of(*reminder),
{
    match reminder.get("d") {
        Some(v) => v.as_i64(),
        None => None,
    }
}

/// A reminder's title, empty when it has none.
pub fn reminder_title(reminder: &Json) -> (r: String)
    ensures
        r@ == title_of(*reminder),
{
    match reminder.get("n") {
        Some(v) => match v.as_str() {
            Some(s) => string_of(s),
            None => String::new(),
        },
        None => String::new(),
    }
}

/// A reminder's title, when it has one.
pub fn reminder_title_text(reminder: &Json) -> (r: Option<&str>)
    ensures
        r matches Some(s) ==> reminder.field("n"@) matches Some(Json::Str(t)) && t@ == s@,
        r is None ==> !(reminder.field("n"@) matches Some(Json::Str(_))),
{
    match reminder.get("n") {
        Some(v) => v.as_str(),
        None => None,
    }
}

/// A reminder's UUID.
pub fn reminder_uuid(reminder: &Json) -> (r: Option<String>)
    ensures
        r matches Some(s) ==> uuid_of(*reminder) == Some(s@),
        r is None ==> uuid_of(*reminder) is None,
{
    match reminder.get("u") {
        Some(v) => match v.as_str() {
            Some(s) => Some(string_of(s)),
            None => None,
        },
        None => None,
    }
}

/// A reminder's repeat code.
pub fn reminder_recur_code(reminder: &Json) -> (r: Option<&str>)
    ensures
        r matches Some(s) ==> recur_code_of(*reminder) == Some(s@),
        r is None ==> recur_code_of(*reminder) is None,
{
    match reminder.get("rf") {
        Some(v) => v.as_str(),
        None => None,
    }
}

/// The positions of the stored reminders in listing order.
pub fn sorted_reminders(data: &Json) -> (r: Vec<usize>)
    ensures
        r@ == listing_order(*data),
        is_stable_order(due_keys(reminder_list(*data)), false, r@),
{
    let rs = reminders_slice(data);
    let mut keys: Vec<i64> = Vec::new();
    let mut i: usize = 0;
    while i < rs.len()
        invariant
            i <= rs@.len(),
            keys@.len() == i,
            forall|k: int| 0 <= k < i ==> keys@[k] == due_key(#[trigger] rs@[k]),
        decreases rs@.len() - i,
    {
        let key = match reminder_due_ts(&rs[i]) {
            Some(d) => d,
            None => 0,
        };
        keys.push(key);
        i = i + 1;
    }
    assert(keys@ =~= due_keys(reminder_list(*data)));
    stable_order(&keys, false)
}

/// The first stored position of a reminder with this UUID.
pub fn find_uuid(rs: &[Json], u: &str) -> (r: Option<usize>)
    ensures
        r matches Some(i) ==> first_with_uuid(rs@, u@) == Some(i as int),
        r is None ==> first_with_uuid(rs@, u@) is None,
{
    let mut i: usize = 0;
    while i < rs.len()
        invariant
            i <= rs@.len(),
            forall|j: int| 0 <= j < i ==> uuid_of(#[trigger] rs@[j]) != Some(u@),
        decreases rs@.len() - i,
    {
        let found = match reminder_uuid(&rs[i]) {
            Some(v) => same_text(v.as_str(), u),
            None => false,
        };
        if found {
            proof {
                assert(is_first_uuid(rs@, u@, i as int));
                let c = choose|k: int| is_first_uuid(rs@, u@, k);
                lemma_first_uuid_unique(rs@, u@, i as int, c);
            }
            return Some(i);
        }
        i = i + 1;
    }
    proof {
        if exists|k: int| is_first_uuid(rs@, u@, k) {
            let c = choose|k: int| is_first_uuid(rs@, u@, k);
            assert(uuid_of(rs@[c]) == Some(u@));
        }
    }
    None
}

proof fn lemma_first_uuid_unique(rs: Seq<Json>, u: Seq<char>, i: int, j: int)
    requires
        is_first_uuid(rs, u, i),
        is_first_uuid(rs, u, j),
    ensures
        i == j,
{
    if i < j {
        assert(uuid_of(rs[i]) != Some(u));
    } else if j < i {
        assert(uuid_of(rs[j]) != Some(u));
    }
}

/// A reminder that holds UUID `u` is at or after the first one that does.
pub proof fn lemma_first_uuid_exists(rs: Seq<Json>, u: Seq<char>, t: int)
    requires
        0 <= t < rs.len(),
        uuid_of(rs[t]) == Some(u),
    ensures
        first_with_uuid(rs, u) matches Some(f) && f <= t,
    decreases t,
{
    if exists|j: int| 0 <= j < t && uuid_of(rs[j]) == Some(u) {
        let j = choose|j: int| 0 <= j < t && uuid_of(rs[j]) == Some(u);
        lemma_first_uuid_exists(rs, u, j);
    } else {
        assert(is_first_uuid(rs, u, t));
        let c = choose|k: int| is_first_uuid(rs, u, k);
        lemma_first_uuid_unique(rs, u, t, c);
    }
}

/// Finds the reminder numbered `index` (from 1) in the listing.
///
/// Returns the stored position of the first reminder with the same UUID
/// (which an edit removes) and the stored position of the numbered reminder.
pub fn get_reminder(data: &Json, index: usize) -> (r: Result<(usize, usize), DbError>)
    ensures
        r == reminder_at(*data, index),
        r matches Ok(p) ==> p.0 <= p.1 < reminder_list(*data).len()
            && uuid_of(reminder_list(*data)[p.0 as int]) == uuid_of(reminder_list(*data)[p.1 as int]),
{
    let sorted = sorted_reminders(data);
    if index == 0 || index > sorted.len() {
        return Err(DbError::NoReminderAt(index));
    }
    let target = sorted[index - 1];
    let rs = reminders_slice(data);
    let u = match reminder_uuid(&rs[target]) {
        Some(u) => u,
        None => return Err(DbError::MissingUuid),
    };
    proof {
        lemma_first_uuid_exists(rs@, u@, target as int);
    }
    match find_uuid(rs, u.as_str()) {
        Some(raw) => Ok((raw, target)),
        None => Err(DbError::MissingUuid),
    }
}

/// Removes the stored reminder at position `idx`; the rest of the document
/// is kept.
pub fn remove_reminder(data: &mut Json, idx: usize)
    requires
        idx < reminder_list(*old(data)).len(),
    ensures
        reminder_list(*final(data)) == reminder_list(*old(data)).remove(idx as int),
        final(data).field("re"@) matches Some(Json::Array(v))
            && v@ == reminder_list(*old(data)).remove(idx as int),
        *final(data) is Object,
        forall|k: Seq<char>| k != "re"@ ==> #[trigger] final(data).field(k) == old(data).field(k),
{
    match data {
        Json::Object(members) => {
            let pos = match find_key(members, "re") {
                Some(p) => p,
                None => return,
            };
            let ghost before = members@;
            let (key, value) = members.remove(pos);
            match value {
                Json::Array(mut v) => {
                    v.remove(idx);
                    let ghost newv = Json::Array(v);
                    members.insert(pos, (key, Json::Array(v)));
                    proof {
                        assert(members@ =~= before.update(pos as int, (before[pos as int].0, newv)));
                        lemma_replace_value(before, pos as int, newv);
                        assert forall|k: Seq<char>| k != "re"@ implies #[trigger] key_position(before, k) != Some(pos as int) by {}
                    }
                },
                _ => {
                    members.insert(pos, (key, value));
                },
            }
        },
        _ => {},
    }
}

/// Records a deletion: sets `uuid` to `ts` in the document's `dl` object,
/// creating that object when it is missing.
///
/// Refused, with the document unchanged, when the document is not an object
/// or its `dl` member is not an object.
pub fn set_tombstone(data: &mut Json, uuid: &str, ts: i64) -> (r: Result<(), DbError>)
    ensures
        !(*old(data) is Object) ==> r == Err::<(), DbError>(DbError::RootNotObject) && *final(data) == *old(data),
        (*old(data) is Object && !tombstones_writable(*old(data)))
            ==> r == Err::<(), DbError>(DbError::TombstonesNotObject) && *final(data) == *old(data),
        tombstones_writable(*old(data)) ==> {
            &&& r is Ok
            &&& *final(data) is Object
            &&& final(data).field("dl"@) matches Some(Json::Object(_))
            &&& forall|k: Seq<char>| #[trigger] tombstone(*final(data), k) == if k == uuid@ {
                Some(Json::Int(ts))
            } else {
                tombstone(*old(data), k)
            }
            &&& forall|k: Seq<char>| k != "dl"@ ==> #[trigger] final(data).field(k) == old(data).field(k)
        },
{
    match data {
        Json::Object(members) => {
            let ghost before = members@;
            match find_key(members, "dl") {
                None => {
                    let mut fresh: Vec<(String, Json)> = Vec::new();
                    set_member(&mut fresh, uuid, Json::Int(ts));
                    proof {
                        assert forall|k: Seq<char>| #[trigger] member(Seq::<(String, Json)>::empty(), k) is None by {
                            assert(!exists|i: int| is_first_key(Seq::<(String, Json)>::empty(), k, i));
                        }
                    }
                    set_member(members, "dl", Json::Object(fresh));
                    Ok(())
                },
                Some(pos) => {
                    if !members[pos].1.is_object() {
                        return Err(DbError::TombstonesNotObject);
                    }
                    let (key, value) = members.remove(pos);
                    match value {
                        Json::Object(mut m) => {
                            set_member(&mut m, uuid, Json::Int(ts));
                            let ghost newv = Json::Object(m);
                            members.insert(pos, (key, Json::Object(m)));
                            proof {
                                assert(members@ =~= before.update(pos as int, (before[pos as int].0, newv)));
                                lemma_replace_value(before, pos as int, newv);
                                assert forall|k: Seq<char>| k != "dl"@ implies #[trigger] key_position(before, k) != Some(pos as int) by {}
                            }
                            Ok(())
                        },
                        _ => {
                            members.insert(pos, (key, value));
                            Err(DbError::TombstonesNotObject)
                        },
                    }
                },
            }
        },
        _ => Err(DbError::RootNotObject),
    }
}

} // verus!
