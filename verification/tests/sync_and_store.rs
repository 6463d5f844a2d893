use moneo::snapshot::{commit_message, committed_message};
use moneo::store::{
    decode_database, encode_database, log_line_text, pid_from_pgrep, write_next, write_start, WriteAction, WriteEvent, WritePhase,
};
use moneo::sync::{applescript_saved, sync_url};

const NOW: i64 = 1700000000; // 2023-11-15 06:13:20 in Hong Kong, a Wednesday

#[test]
fn url_encoding() {
    let url = |t: &str| sync_url(t, 0, None).unwrap();
    assert_eq!(url("Buy milk & eggs"), "due://x-callback-url/add?title=Buy%20milk%20%26%20eggs&duedate=0");
    assert_eq!(url("a-b_c.d~e"), "due://x-callback-url/add?title=a-b_c.d~e&duedate=0");
    assert_eq!(url("é"), "due://x-callback-url/add?title=%C3%A9&duedate=0");
    assert_eq!(sync_url("x", -5, None).unwrap(), "due://x-callback-url/add?title=x&duedate=-5");
}

#[test]
fn due_urls() {
    assert_eq!(
        sync_url("Buy milk", NOW, None).unwrap(),
        "due://x-callback-url/add?title=Buy%20milk&duedate=1700000000"
    );
    assert_eq!(
        sync_url("Tea", NOW, Some("weekly")).unwrap(),
        "due://x-callback-url/add?title=Tea&duedate=1700000000&recurunit=256&recurfreq=1&recurfromdate=1700000000&recurbyday=4"
    );
    assert_eq!(
        sync_url("Tea", NOW, Some("quarterly")).unwrap(),
        "due://x-callback-url/add?title=Tea&duedate=1700000000&recurunit=8&recurfreq=3&recurfromdate=1700000000"
    );
    assert_eq!(sync_url("Tea", NOW, Some("hourly")).unwrap(), "due://x-callback-url/add?title=Tea&duedate=1700000000");
    // 2023-11-18 is a Saturday: day 7.
    assert!(sync_url("Tea", NOW + 3 * 86400, Some("weekly")).unwrap().ends_with("&recurbyday=7"));
    assert!(sync_url("Tea", NOW + 4 * 86400, Some("weekly")).unwrap().ends_with("&recurbyday=1"));
    assert_eq!(sync_url("Tea", i64::MAX, Some("weekly")), None);
    assert!(applescript_saved("ok\n"));
    assert!(!applescript_saved("timeout\n"));
}

#[test]
fn database_bytes_round_trip() {
    let plain = br#"{"re":[]}"#.to_vec();
    let packed = encode_database(&plain).unwrap();
    assert_ne!(packed, plain);
    assert_eq!(&packed[..2], &[0x1f, 0x8b]);
    assert_eq!(decode_database(&packed), Some(plain));
    assert_eq!(decode_database(b"not gzip"), None);
}

#[test]
fn pgrep_output() {
    assert_eq!(pid_from_pgrep(true, " 123\n").as_deref(), Some("123"));
    assert_eq!(pid_from_pgrep(true, " \n"), None);
    assert_eq!(pid_from_pgrep(false, "123"), None);
}

#[test]
fn log_lines_and_messages() {
    assert_eq!(log_line_text(NOW, "No changes since last snapshot."), "[2023-11-15 06:13:20] No changes since last snapshot.\n");
    assert_eq!(commit_message(4), "due: snapshot (4 reminders)");
    assert_eq!(committed_message(12), "Snapshot committed (12 reminders).");
}

#[test]
fn write_with_due_running() {
    let s = write_start();
    let (s, a) = write_next(s, WriteEvent::Begin);
    assert_eq!(a, WriteAction::CopyToBackup);
    let (s, a) = write_next(s, WriteEvent::BackupMade);
    assert_eq!(a, WriteAction::FindDue);
    let (s, a) = write_next(s, WriteEvent::DueRunning);
    assert_eq!(a, WriteAction::StopDue);
    let (mut s, a) = write_next(s, WriteEvent::Stopped);
    assert_eq!(a, WriteAction::PauseThenFindDue);
    let mut pauses = 1;
    loop {
        let (n, a) = write_next(s, WriteEvent::DueRunning);
        s = n;
        if a == WriteAction::PauseThenFindDue {
            pauses += 1;
        } else {
            assert_eq!(a, WriteAction::WriteDatabase);
            break;
        }
    }
    assert_eq!(pauses, 20);
    let (s, a) = write_next(s, WriteEvent::Written);
    assert_eq!(a, WriteAction::ReopenDue);
    let (s, a) = write_next(s, WriteEvent::Reopened);
    assert_eq!(a, WriteAction::TakeSnapshot);
    let (s, a) = write_next(s, WriteEvent::SnapshotTaken);
    assert_eq!(a, WriteAction::Done);
    assert_eq!(s.phase, WritePhase::Finished);
}

#[test]
fn write_failures() {
    let (s, _) = write_next(write_start(), WriteEvent::Begin);
    let (_, a) = write_next(s, WriteEvent::BackupFailed);
    assert_eq!(a, WriteAction::FailBackup);
    let (s, _) = write_next(s, WriteEvent::BackupMade);
    let (s, a) = write_next(s, WriteEvent::DueNotRunning);
    assert_eq!(a, WriteAction::WriteDatabase);
    let (w, a) = write_next(s, WriteEvent::Written);
    assert_eq!(a, WriteAction::TakeSnapshot);
    assert!(!w.due_was_running);
    let (s, a) = write_next(s, WriteEvent::WriteFailed);
    assert_eq!(a, WriteAction::RestoreBackup);
    assert_eq!(write_next(s, WriteEvent::Restored).1, WriteAction::FailWrite);
    assert_eq!(write_next(s, WriteEvent::RestoreFailed).1, WriteAction::FailRestore);
    assert_eq!(write_next(s, WriteEvent::Begin).1, WriteAction::Nothing);
}
