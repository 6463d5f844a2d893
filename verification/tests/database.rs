use moneo::add::{added_message, duplicate_message, find_duplicate};
use moneo::edit::{changes_text, edit_plan, edit_target, updated_message};
use moneo::json::Json;
use moneo::listing::{log_listing, ls_listing};
use moneo::remove::{deleted_message, remove_matching, RmStop};
use moneo::reminders::{
    get_reminder, remove_reminder, reminder_due_ts, reminder_title, reminder_uuid, reminders_slice, set_tombstone,
    sorted_reminders, DbError,
};
use moneo::snapshot::{comparable_current, comparable_saved, db_unreadable, make_snapshot, same_snapshot};
use moneo::order::stable_order;

const NOW: i64 = 1700000000; // 2023-11-15 06:13:20 in Hong Kong

fn s(t: &str) -> Json {
    Json::Str(t.to_string())
}

fn obj(members: Vec<(&str, Json)>) -> Json {
    Json::Object(members.into_iter().map(|(k, v)| (k.to_string(), v)).collect())
}

fn reminder(title: &str, due: Option<i64>, uuid: Option<&str>, rf: Option<&str>) -> Json {
    let mut m = vec![("n", s(title))];
    if let Some(d) = due {
        m.push(("d", Json::Int(d)));
    }
    if let Some(u) = uuid {
        m.push(("u", s(u)));
    }
    if let Some(r) = rf {
        m.push(("rf", s(r)));
    }
    obj(m)
}

fn db(reminders: Vec<Json>) -> Json {
    obj(vec![("re", Json::Array(reminders)), ("v", Json::Int(3))])
}

fn sample() -> Json {
    db(vec![
        reminder("Pay rent", Some(NOW + 7200), Some("u1"), Some("m")),
        reminder("Buy milk", Some(NOW + 3600), Some("u2"), None),
        reminder("Someday", None, Some("u3"), None),
        reminder("Call mum", Some(NOW + 3600), Some("u4"), Some("w")),
    ])
}

fn titles(data: &Json) -> Vec<String> {
    reminders_slice(data).iter().map(reminder_title).collect()
}

#[test]
fn reminder_fields() {
    let r = reminder("Pay rent", Some(5), Some("u1"), Some("m"));
    assert_eq!(reminder_title(&r), "Pay rent");
    assert_eq!(reminder_due_ts(&r), Some(5));
    assert_eq!(reminder_uuid(&r).as_deref(), Some("u1"));
    let bare = obj(vec![("n", Json::Int(1)), ("d", s("5"))]);
    assert_eq!(reminder_title(&bare), "");
    assert_eq!(reminder_due_ts(&bare), None);
    assert_eq!(reminder_uuid(&bare), None);
    assert_eq!(reminders_slice(&Json::Null).len(), 0);
    assert_eq!(reminders_slice(&obj(vec![("re", Json::Int(1))])).len(), 0);
}

#[test]
fn listing_order_is_stable_by_due() {
    // No due time counts as 0; equal times keep stored order.
    assert_eq!(sorted_reminders(&sample()), vec![2, 1, 3, 0]);
    assert_eq!(stable_order(&vec![5, 1, 5, 1], true), vec![0, 2, 1, 3]);
    assert_eq!(stable_order(&vec![5, 1, 5, 1], false), vec![1, 3, 0, 2]);
    assert_eq!(stable_order(&vec![], false), Vec::<usize>::new());
}

#[test]
fn numbered_reminders() {
    let data = sample();
    assert_eq!(get_reminder(&data, 1), Ok((2, 2)));
    assert_eq!(get_reminder(&data, 4), Ok((0, 0)));
    assert_eq!(get_reminder(&data, 0), Err(DbError::NoReminderAt(0)));
    assert_eq!(get_reminder(&data, 5), Err(DbError::NoReminderAt(5)));
    let shared = db(vec![reminder("A", Some(9), Some("x"), None), reminder("B", Some(1), Some("x"), None)]);
    // The second reminder lists first, but the edit removes the first with its UUID.
    assert_eq!(get_reminder(&shared, 1), Ok((0, 1)));
    let no_uuid = db(vec![reminder("A", Some(9), None, None)]);
    assert_eq!(get_reminder(&no_uuid, 1), Err(DbError::MissingUuid));
}

#[test]
fn ls_table() {
    let listing = ls_listing(&sample(), NOW);
    assert_eq!(listing.bad_timestamp, None);
    assert_eq!(
        listing.lines,
        vec![
            format!("{:<4} {:<36} {:<16} Recur", "#", "Title", "Due"),
            "─".repeat(68),
            format!("{:<4} {:<36} {:<16} {}", 1, "Someday", "—", ""),
            format!("{:<4} {:<36} {:<16} {}", 2, "Buy milk", "today 07:13", ""),
            format!("{:<4} {:<36} {:<16} {}", 3, "Call mum", "today 07:13", "weekly"),
            format!("{:<4} {:<36} {:<16} {}", 4, "Pay rent", "today 08:13", "monthly"),
        ]
    );
    let empty = ls_listing(&db(vec![]), NOW);
    assert_eq!(empty.lines, vec!["No reminders.".to_string()]);
}

#[test]
fn ls_marks_overdue_and_stops_at_bad_time() {
    let data = db(vec![
        reminder("Late one with a rather long title that is cut", Some(NOW - 60), Some("a"), None),
        reminder("Broken", Some(i64::MAX), Some("b"), None),
    ]);
    let listing = ls_listing(&data, NOW);
    assert_eq!(listing.lines.len(), 3);
    assert_eq!(
        listing.lines[2],
        format!("{:<4} {:<36} {:<16} {}", 1, "Late one with a rather long title t", "today 06:12 ⚠", "")
    );
    assert_eq!(listing.bad_timestamp, Some(i64::MAX));
}

#[test]
fn log_table() {
    let data = obj(vec![(
        "lb",
        Json::Array(vec![
            obj(vec![("n", s("Buy MILK")), ("m", Json::Int(1700000000))]),
            obj(vec![("n", s("Pay rent")), ("m", Json::Int(1690000000))]),
            obj(vec![("n", s("Milk again")), ("m", Json::Int(1700000000))]),
            obj(vec![("n", s("No time"))]),
        ]),
    )]);
    let all = log_listing(&data, 20, None);
    assert_eq!(
        all,
        vec![
            format!("{:<20} {}", "Completed (HKT)", "Title"),
            "─".repeat(68),
            format!("{:<20} {}", "2023-11-15 06:13", "Buy MILK"),
            format!("{:<20} {}", "2023-11-15 06:13", "Milk again"),
            format!("{:<20} {}", "2023-07-22 12:26", "Pay rent"),
            format!("{:<20} {}", "1970-01-01 08:00", "No time"),
        ]
    );
    let milk = log_listing(&data, 1, Some("mILk"));
    assert_eq!(milk.len(), 3);
    assert_eq!(milk[2], format!("{:<20} {}", "2023-11-15 06:13", "Buy MILK"));
    assert_eq!(log_listing(&data, 5, Some("tea")), vec!["No completions found.".to_string()]);
    assert_eq!(log_listing(&data, 0, None), vec!["No completions found.".to_string()]);
}

#[test]
fn tombstones_are_recorded() {
    let mut data = sample();
    assert_eq!(set_tombstone(&mut data, "u9", 77), Ok(()));
    assert_eq!(set_tombstone(&mut data, "u8", 78), Ok(()));
    assert_eq!(set_tombstone(&mut data, "u9", 79), Ok(()));
    let dl = match &data {
        Json::Object(m) => m.iter().find(|(k, _)| k == "dl").map(|(_, v)| v).unwrap(),
        _ => unreachable!(),
    };
    assert_eq!(dl, &obj(vec![("u9", Json::Int(79)), ("u8", Json::Int(78))]));
    let mut not_object = Json::Array(vec![]);
    assert_eq!(set_tombstone(&mut not_object, "u", 1), Err(DbError::RootNotObject));
    let mut bad_dl = obj(vec![("dl", Json::Int(0))]);
    assert_eq!(set_tombstone(&mut bad_dl, "u", 1), Err(DbError::TombstonesNotObject));
    assert_eq!(bad_dl, obj(vec![("dl", Json::Int(0))]));
}

#[test]
fn removing_one_reminder_keeps_the_rest() {
    let mut data = sample();
    remove_reminder(&mut data, 1);
    assert_eq!(titles(&data), vec!["Pay rent", "Someday", "Call mum"]);
    match &data {
        Json::Object(m) => assert!(m.iter().any(|(k, v)| k == "v" && *v == Json::Int(3))),
        _ => unreachable!(),
    }
}

#[test]
fn removing_the_last_reminder_leaves_an_empty_list() {
    let mut data = db(vec![reminder("Only", Some(NOW), Some("u1"), None)]);
    remove_reminder(&mut data, 0);
    assert_eq!(data, db(vec![]));
}

#[test]
fn rm_with_a_blank_pattern_deletes_every_reminder() {
    let mut data = sample();
    let deleted = remove_matching(&mut data, "   ", 42).ok().unwrap();
    assert_eq!(deleted, vec!["Pay rent", "Buy milk", "Someday", "Call mum"]);
    let dl = obj(vec![
        ("u1", Json::Int(42)),
        ("u2", Json::Int(42)),
        ("u3", Json::Int(42)),
        ("u4", Json::Int(42)),
    ]);
    assert_eq!(data, obj(vec![("re", Json::Array(vec![])), ("v", Json::Int(3)), ("dl", dl)]));
}

#[test]
fn rm_by_title() {
    let mut data = sample();
    let deleted = remove_matching(&mut data, "  MI", 500).ok().unwrap();
    assert_eq!(deleted, vec!["Buy milk".to_string()]);
    assert_eq!(titles(&data), vec!["Pay rent", "Someday", "Call mum"]);
    let mut expected = sample();
    remove_reminder(&mut expected, 1);
    assert_eq!(set_tombstone(&mut expected, "u2", 500), Ok(()));
    assert_eq!(expected, data);
}

#[test]
fn rm_refusals() {
    let mut data = sample();
    let f = remove_matching(&mut data, "tea", 1).err().unwrap();
    assert_eq!(f.stop, RmStop::NoMatch);
    assert!(f.deleted.is_empty());
    let mut data = db(vec![reminder("tea one", None, Some("a"), None), reminder("tea two", None, None, None)]);
    let f = remove_matching(&mut data, "tea", 1).err().unwrap();
    assert_eq!(f.stop, RmStop::MissingUuid);
    assert_eq!(f.deleted, vec!["tea one".to_string()]);
    let mut data = obj(vec![
        ("re", Json::Array(vec![reminder("tea", None, Some("a"), None)])),
        ("dl", Json::Array(vec![])),
    ]);
    let f = remove_matching(&mut data, "tea", 1).err().unwrap();
    assert_eq!(f.stop, RmStop::TombstonesNotObject);
}

#[test]
fn rm_removes_first_with_same_uuid() {
    let mut data = db(vec![reminder("keep", None, Some("x"), None), reminder("milk", None, Some("x"), None)]);
    let deleted = remove_matching(&mut data, "milk", 1).ok().unwrap();
    assert_eq!(deleted, vec!["milk".to_string()]);
    assert_eq!(titles(&data), vec!["milk"]);
}

#[test]
fn rm_with_shared_uuids_never_misses() {
    let mut data = db(vec![
        reminder("milk a", None, Some("x"), None),
        reminder("keep", None, Some("x"), None),
        reminder("milk c", None, Some("x"), None),
    ]);
    let deleted = remove_matching(&mut data, "milk", 7).ok().unwrap();
    assert_eq!(deleted, vec!["milk a".to_string(), "milk c".to_string()]);
    assert_eq!(titles(&data), vec!["milk c"]);
}

#[test]
fn duplicates() {
    let data = sample();
    assert_eq!(find_duplicate(&data, "  buy MILK ", NOW + 3600 + 30), Ok(Some(1)));
    assert_eq!(find_duplicate(&data, "buy milk", NOW + 3600 + 60), Ok(None));
    assert_eq!(find_duplicate(&data, "tea", NOW), Ok(None));
    assert_eq!(find_duplicate(&data, "tea", i64::MAX), Err(i64::MAX));
    let bad = db(vec![reminder("tea", Some(i64::MIN), Some("a"), None), reminder("tea", Some(NOW), Some("b"), None)]);
    assert_eq!(find_duplicate(&bad, "tea", NOW), Err(i64::MIN));
    assert_eq!(
        duplicate_message("Buy milk", NOW + 3600, NOW).unwrap(),
        "Duplicate: 'Buy milk' already exists on that day at today 07:13. Use 'moneo edit' to change the time."
    );
    assert_eq!(
        added_message("Tea", NOW + 86400, Some("weekly"), NOW).unwrap(),
        "Added: 'Tea' due tomorrow 06:13 (repeats weekly) — synced to iPhone via CloudKit (AppleScript)"
    );
    assert_eq!(
        added_message("Tea", NOW, None, NOW).unwrap(),
        "Added: 'Tea' due today 06:13 — synced to iPhone via CloudKit (AppleScript)"
    );
    assert_eq!(added_message("Tea", i64::MAX, None, NOW), None);
}

#[test]
fn edits() {
    let data = sample();
    let target = edit_target(&data, 3).ok().unwrap();
    assert_eq!((target.raw_idx, target.title.as_str(), target.due, target.uuid.as_str()), (3, "Call mum", NOW + 3600, "u4"));
    assert_eq!(target.recur.as_deref(), Some("weekly"));
    let plan = edit_plan(&target, Some("Call dad"), Some(NOW + 86400), NOW).ok().unwrap();
    assert_eq!(plan.new_title, "Call dad");
    assert_eq!(plan.new_due, NOW + 86400);
    assert_eq!(changes_text(&plan), "title → 'Call dad', due → tomorrow 06:13");
    let plan = edit_plan(&target, None, Some(NOW), NOW).ok().unwrap();
    assert_eq!(changes_text(&plan), "due → today 06:13");
    assert_eq!(edit_plan(&target, Some("Call mum"), None, NOW).err(), Some(DbError::NothingToChange));
    assert_eq!(edit_plan(&target, None, Some(i64::MAX), NOW).err(), Some(DbError::InvalidTimestamp(i64::MAX)));
    assert_eq!(edit_target(&data, 1).err(), Some(DbError::MissingDue));
    let untitled = db(vec![obj(vec![("d", Json::Int(5)), ("u", s("z"))])]);
    assert_eq!(edit_target(&untitled, 1).err(), Some(DbError::MissingTitle));
    assert_eq!(edit_target(&data, 9).err(), Some(DbError::NoReminderAt(9)));
}

#[test]
fn snapshots() {
    let data = sample();
    let snap = make_snapshot(&data, NOW).ok().unwrap();
    assert_eq!(snap.len(), 4);
    assert_eq!(snap[0].title, "Someday");
    assert_eq!(snap[0].due, None);
    assert_eq!(snap[1].due.as_deref(), Some("today 07:13"));
    assert_eq!(snap[1].due_ts, Some(NOW + 3600));
    assert_eq!(snap[3].recur.as_deref(), Some("monthly"));
    assert_eq!(snap[3].uuid.as_deref(), Some("u1"));
    // The saved file read back compares equal to the data it came from.
    let saved: Vec<Json> = snap
        .iter()
        .map(|r| {
            let opt = |v: &Option<String>| v.as_ref().map(|t| s(t)).unwrap_or(Json::Null);
            obj(vec![
                ("title", s(&r.title)),
                ("due", opt(&r.due)),
                ("due_ts", r.due_ts.map(Json::Int).unwrap_or(Json::Null)),
                ("recur", opt(&r.recur)),
                ("uuid", opt(&r.uuid)),
            ])
        })
        .collect();
    assert!(same_snapshot(&comparable_current(&data), &comparable_saved(&saved)));
    let mut changed = sample();
    remove_reminder(&mut changed, 0);
    assert!(!same_snapshot(&comparable_current(&changed), &comparable_saved(&saved)));
    let bad = db(vec![reminder("x", Some(i64::MIN), None, None)]);
    assert_eq!(make_snapshot(&bad, NOW).err(), Some(i64::MIN));
    assert!(db_unreadable(&obj(vec![])));
    assert!(db_unreadable(&Json::Null));
    assert!(!db_unreadable(&data));
}

#[test]
fn edit_and_delete_messages() {
    assert_eq!(deleted_message("Buy milk"), "Deleted: 'Buy milk'");
    assert_eq!(
        updated_message(3, "due → today 07:13", true),
        "Updated #3: due → today 07:13 — synced to iPhone via CloudKit (AppleScript)"
    );
    assert_eq!(
        updated_message(12, "title → 'Tea'", false),
        "Updated #12: title → 'Tea' — Due editor open, please click Save manually to sync to iPhone."
    );
}

#[test]
fn trimming_removes_unicode_white_space() {
    let data = db(vec![reminder("tea", Some(NOW), Some("a"), None)]);
    assert_eq!(find_duplicate(&data, "\u{3000}\u{a0} tea\u{2029}", NOW), Ok(Some(0)));
    assert_eq!(find_duplicate(&data, "\u{200b}tea", NOW), Ok(None));
}
