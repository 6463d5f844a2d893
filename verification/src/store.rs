//! Reading and writing the Due database file: its gzip framing, the steps of
//! a safe write (backup, stopping Due, restore on failure, restart), and
//! the snapshot log.

use vstd::prelude::*;
use std::io::Read;
use std::io::Write;
use crate::text::push_str;
use crate::text::string_of;
use crate::text::trim;
use crate::text::trimmed;
use crate::time::clock_text;
use crate::time::date_text;
use crate::time::hkt_from_ts;
use crate::time::hkt_local;
use crate::time::push_clock;
use crate::time::push_date;
use crate::time::push_two_digits;
use crate::time::two_digits;
use crate::time::in_time_range;

verus! {

/// The bytes that `flate2::read::GzDecoder` decompresses from a gzip stream.
pub uninterp spec fn gunzipped(compressed: Seq<u8>) -> Option<Seq<u8>>;

/// The gzip stream that `flate2::write::GzEncoder` writes at the default
/// compression level.
pub uninterp spec fn gzipped(plain: Seq<u8>) -> Seq<u8>;

/// Whether `flate2::write::GzEncoder`, writing into memory at the default
/// level, encodes these bytes without reporting an error; it depends on the
/// bytes alone.
pub uninterp spec fn gzip_succeeds(plain: Seq<u8>) -> bool;

/// Decompresses the database file's bytes.
///
/// Reads everything from a `flate2::read::GzDecoder` over the bytes.
/// Claimed: the result is the named `gunzipped`; nothing more.
#[verifier::external_body]
pub(crate) fn decompress(compressed: &[u8]) -> (r: Option<Vec<u8>>)
    ensures
        r matches Some(v) ==> gunzipped(compressed@) == Some(v@),
        r is None ==> gunzipped(compressed@) is None,
{
    let mut out = Vec::new();
    match flate2::read::GzDecoder::new(compressed).read_to_end(&mut out) {
        Ok(_) => Some(out),
        Err(_) => None,
    }
}

/// Compresses the database's bytes for writing.
///
/// Writes them through a `flate2::write::GzEncoder` at the default level
/// into memory and finishes the stream. Claimed: whether it succeeds is the
/// named `gzip_succeeds` of the bytes; the result, when it does, is the named
/// `gzipped`, and decompressing it gives the bytes back (a gzip stream
/// decodes to what was encoded). The source does not rule out an error from
/// the deflate backend, so success itself is not claimed.
#[verifier::external_body]
pub(crate) fn compress(plain: &[u8]) -> (r: Option<Vec<u8>>)
    ensures
        r is Some <==> gzip_succeeds(plain@),
        r matches Some(v) ==> v@ == gzipped(plain@) && gunzipped(v@) == Some(plain@),
{
    let mut encoder = flate2::write::GzEncoder::new(Vec::new(), flate2::Compression::default());
    match encoder.write_all(plain) {
        Ok(()) => match encoder.finish() {
            Ok(v) => Some(v),
            Err(_) => None,
        },
        Err(_) => None,
    }
}

/// The bytes of the database document stored in a database file (a gzip
/// stream); `None` when the file is not one.
pub fn decode_database(file: &[u8]) -> (r: Option<Vec<u8>>)
    ensures
        r matches Some(v) ==> gunzipped(file@) == Some(v@),
        r is None ==> gunzipped(file@) is None,
{
    decompress(file)
}

/// The contents of a database file for the bytes of a database document:
/// decoding them gives the document back. `None` exactly when `flate2`
/// reports an error while encoding these bytes (`gzip_succeeds`).
pub fn encode_database(document: &[u8]) -> (r: Option<Vec<u8>>)
    ensures
        r is Some <==> gzip_succeeds(document@),
        r matches Some(v) ==> v@ == gzipped(document@) && gunzipped(v@) == Some(document@),
{
    compress(document)
}

/// The process id that `pgrep -x Due` printed, when it succeeded and
/// printed something besides white space.
pub fn pid_from_pgrep(success: bool, stdout: &str) -> (r: Option<String>)
    ensures
        !success ==> r is None,
        success ==> (r is None <==> trimmed(stdout@).len() == 0),
        r matches Some(p) ==> p@ == trimmed(stdout@),
{
    if !success {
        return None;
    }
    let t = trim(stdout);
    if t.is_empty() {
        None
    } else {
        Some(string_of(t))
    }
}


/// The log line of a snapshot run: `[YYYY-MM-DD HH:MM:SS] message` and a
/// line break, in Hong Kong time.
pub open spec fn log_line_of(now: i64, message: Seq<char>) -> Seq<char> {
    let t = hkt_local(now).unwrap();
    "["@ + date_text(t) + " "@ + clock_text(t) + ":"@ + two_digits(t.second as int) + "] "@ + message + "\n"@
}

/// The line that a snapshot run appends to its log and prints.
pub fn log_line_text(now: i64, message: &str) -> (r: String)
    requires
        in_time_range(now as int),
    ensures
        r@ == log_line_of(now, message@),
{
    let t = match hkt_from_ts(now) {
        Some(t) => t,
        None => return String::new(),
    };
    let mut s = string_of("[");
    push_date(&mut s, &t);
    push_str(&mut s, " ");
    push_clock(&mut s, &t);
    push_str(&mut s, ":");
    push_two_digits(&mut s, t.second);
    push_str(&mut s, "] ");
    push_str(&mut s, message);
    push_str(&mut s, "\n");
    assert(s@ =~= log_line_of(now, message@));
    s
}

/// How many times a write waits for Due to quit before writing anyway.
pub const QUIT_POLLS: u32 = 20;

/// Where a database write stands.
#[derive(Clone, Copy, Debug, PartialEq, Eq, Structural)]
pub enum WritePhase {
    Start,
    BackingUp,
    FindingDue,
    Stopping,
    /// Waiting for Due to quit, after this many checks.
    Waiting(u32),
    Writing,
    Restoring,
    Reopening,
    Snapshotting,
    Finished,
    Failed,
}

/// A database write in progress: its phase, and whether Due was running
/// when it began.
#[derive(Clone, Copy, Debug, PartialEq, Eq, Structural)]
pub struct WriteState {
    pub phase: WritePhase,
    pub due_was_running: bool,
}

/// What the outside world reports to a database write.
#[derive(Clone, Copy, Debug, PartialEq, Eq, Structural)]
pub enum WriteEvent {
    Begin,
    BackupMade,
    BackupFailed,
    DueRunning,
    DueNotRunning,
    Stopped,
    Written,
    WriteFailed,
    Restored,
    RestoreFailed,
    Reopened,
    SnapshotTaken,
}

/// What a database write asks the outside world to do next.
#[derive(Clone, Copy, Debug, PartialEq, Eq, Structural)]
pub enum WriteAction {
    /// Copy the database file to its backup.
    CopyToBackup,
    /// Look for a running Due (`pgrep -x Due`).
    FindDue,
    /// Ask Due to quit (`kill -15`).
    StopDue,
    /// Wait 200 ms, then look for Due again.
    PauseThenFindDue,
    /// Write the compressed database.
    WriteDatabase,
    /// Copy the backup over the database file.
    RestoreBackup,
    /// Start Due again (`open -a Due`).
    ReopenDue,
    /// Commit a snapshot of the written data.
    TakeSnapshot,
    /// Stop: the backup could not be made.
    FailBackup,
    /// Stop: the write failed and the backup was restored.
    FailWrite,
    /// Stop: the write failed and so did the restore.
    FailRestore,
    /// The write is complete.
    Done,
    /// The event does not apply in this phase; nothing to do.
    Nothing,
}

/// The transition table of a database write.
pub open spec fn write_transition(s: WriteState, e: WriteEvent) -> (WriteState, WriteAction) {
    let keep = s.due_was_running;
    match (s.phase, e) {
        (WritePhase::Start, WriteEvent::Begin) =>
            (WriteState { phase: WritePhase::BackingUp, due_was_running: false }, WriteAction::CopyToBackup),
        (WritePhase::BackingUp, WriteEvent::BackupMade) =>
            (WriteState { phase: WritePhase::FindingDue, due_was_running: false }, WriteAction::FindDue),
        (WritePhase::BackingUp, WriteEvent::BackupFailed) =>
            (WriteState { phase: WritePhase::Failed, due_was_running: false }, WriteAction::FailBackup),
        (WritePhase::FindingDue, WriteEvent::DueRunning) =>
            (WriteState { phase: WritePhase::Stopping, due_was_running: true }, WriteAction::StopDue),
        (WritePhase::FindingDue, WriteEvent::DueNotRunning) =>
            (WriteState { phase: WritePhase::Writing, due_was_running: false }, WriteAction::WriteDatabase),
        (WritePhase::Stopping, WriteEvent::Stopped) =>
            (WriteState { phase: WritePhase::Waiting(0), due_was_running: keep }, WriteAction::PauseThenFindDue),
        (WritePhase::Waiting(k), WriteEvent::DueNotRunning) =>
            (WriteState { phase: WritePhase::Writing, due_was_running: keep }, WriteAction::WriteDatabase),
        (WritePhase::Waiting(k), WriteEvent::DueRunning) =>
            if k + 1 < QUIT_POLLS {
                (WriteState { phase: WritePhase::Waiting((k + 1) as u32), due_was_running: keep }, WriteAction::PauseThenFindDue)
            } else {
                (WriteState { phase: WritePhase::Writing, due_was_running: keep }, WriteAction::WriteDatabase)
            },
        (WritePhase::Writing, WriteEvent::Written) =>
            if keep {
                (WriteState { phase: WritePhase::Reopening, due_was_running: keep }, WriteAction::ReopenDue)
            } else {
                (WriteState { phase: WritePhase::Snapshotting, due_was_running: keep }, WriteAction::TakeSnapshot)
            },
        (WritePhase::Writing, WriteEvent::WriteFailed) =>
            (WriteState { phase: WritePhase::Restoring, due_was_running: keep }, WriteAction::RestoreBackup),
        (WritePhase::Restoring, WriteEvent::Restored) =>
            (WriteState { phase: WritePhase::Failed, due_was_running: keep }, WriteAction::FailWrite),
        (WritePhase::Restoring, WriteEvent::RestoreFailed) =>
            (WriteState { phase: WritePhase::Failed, due_was_running: keep }, WriteAction::FailRestore),
        (WritePhase::Reopening, WriteEvent::Reopened) =>
            (WriteState { phase: WritePhase::Snapshotting, due_was_running: keep }, WriteAction::TakeSnapshot),
        (WritePhase::Snapshotting, WriteEvent::SnapshotTaken) =>
            (WriteState { phase: WritePhase::Finished, due_was_running: keep }, WriteAction::Done),
        _ => (s, WriteAction::Nothing),
    }
}

/// The state of a write that has not begun.
pub fn write_start() -> (r: WriteState)
    ensures
        r == (WriteState { phase: WritePhase::Start, due_was_running: false }),
{
    WriteState { phase: WritePhase::Start, due_was_running: false }
}

/// The next state of a database write and what to do, given what happened.
///
/// The database is backed up first; a running Due is asked to quit and
/// waited for, at most 20 times 200 ms; then the data is written. A failed
/// write restores the backup and stops; otherwise Due is reopened if it was
/// running, and a snapshot is committed.
pub fn write_next(s: WriteState, e: WriteEvent) -> (r: (WriteState, WriteAction))
    ensures
        r == write_transition(s, e),
{
    let keep = s.due_was_running;
    match (s.phase, e) {
        (WritePhase::Start, WriteEvent::Begin) =>
            (WriteState { phase: WritePhase::BackingUp, due_was_running: false }, WriteAction::CopyToBackup),
        (WritePhase::BackingUp, WriteEvent::BackupMade) =>
            (WriteState { phase: WritePhase::FindingDue, due_was_running: false }, WriteAction::FindDue),
        (WritePhase::BackingUp, WriteEvent::BackupFailed) =>
            (WriteState { phase: WritePhase::Failed, due_was_running: false }, WriteAction::FailBackup),
        (WritePhase::FindingDue, WriteEvent::DueRunning) =>
            (WriteState { phase: WritePhase::Stopping, due_was_running: true }, WriteAction::StopDue),
        (WritePhase::FindingDue, WriteEvent::DueNotRunning) =>
            (WriteState { phase: WritePhase::Writing, due_was_running: false }, WriteAction::WriteDatabase),
        (WritePhase::Stopping, WriteEvent::Stopped) =>
            (WriteState { phase: WritePhase::Waiting(0), due_was_running: keep }, WriteAction::PauseThenFindDue),
        (WritePhase::Waiting(_), WriteEvent::DueNotRunning) =>
            (WriteState { phase: WritePhase::Writing, due_was_running: keep }, WriteAction::WriteDatabase),
        (WritePhase::Waiting(k), WriteEvent::DueRunning) =>
            if k < QUIT_POLLS - 1 {
                (WriteState { phase: WritePhase::Waiting(k + 1), due_was_running: keep }, WriteAction::PauseThenFindDue)
            } else {
                (WriteState { phase: WritePhase::Writing, due_was_running: keep }, WriteAction::WriteDatabase)
            },
        (WritePhase::Writing, WriteEvent::Written) =>
            if keep {
                (WriteState { phase: WritePhase::Reopening, due_was_running: keep }, WriteAction::ReopenDue)
            } else {
                (WriteState { phase: WritePhase::Snapshotting, due_was_running: keep }, WriteAction::TakeSnapshot)
            },
        (WritePhase::Writing, WriteEvent::WriteFailed) =>
            (WriteState { phase: WritePhase::Restoring, due_was_running: keep }, WriteAction::RestoreBackup),
        (WritePhase::Restoring, WriteEvent::Restored) =>
            (WriteState { phase: WritePhase::Failed, due_was_running: keep }, WriteAction::FailWrite),
        (WritePhase::Restoring, WriteEvent::RestoreFailed) =>
            (WriteState { phase: WritePhase::Failed, due_was_running: keep }, WriteAction::FailRestore),
        (WritePhase::Reopening, WriteEvent::Reopened) =>
            (WriteState { phase: WritePhase::Snapshotting, due_was_running: keep }, WriteAction::TakeSnapshot),
        (WritePhase::Snapshotting, WriteEvent::SnapshotTaken) =>
            (WriteState { phase: WritePhase::Finished, due_was_running: keep }, WriteAction::Done),
        _ => (s, WriteAction::Nothing),
    }
}

/// The state of a write after the events `es`, from a write that has not
/// begun.
pub open spec fn state_after(es: Seq<WriteEvent>) -> WriteState
    decreases es.len(),
{
    if es.len() == 0 {
        WriteState { phase: WritePhase::Start, due_was_running: false }
    } else {
        write_transition(state_after(es.drop_last()), es.last()).0
    }
}

/// The `k`-th event of `es` reported Due running while the write was looking
/// for it (before asking it to quit).
pub open spec fn found_due_running(es: Seq<WriteEvent>, k: int) -> bool {
    &&& 0 <= k < es.len()
    &&& state_after(es.take(k)).phase == WritePhase::FindingDue
    &&& es[k] == WriteEvent::DueRunning
}

/// A write remembers whether it found Due running: after any events, the
/// flag is set exactly when Due was reported running while the write looked
/// for it, whatever happened while waiting for it to quit.
pub proof fn lemma_write_remembers_running(es: Seq<WriteEvent>)
    ensures
        state_after(es).due_was_running <==> exists|k: int| #[trigger] found_due_running(es, k),
        match state_after(es).phase {
            WritePhase::Start | WritePhase::BackingUp | WritePhase::FindingDue => !state_after(es).due_was_running,
            _ => true,
        },
    decreases es.len(),
{
    if es.len() > 0 {
        let p = es.drop_last();
        lemma_write_remembers_running(p);
        assert forall|k: int| 0 <= k < p.len() implies #[trigger] found_due_running(es, k) == found_due_running(p, k) by {
            assert(es.take(k) =~= p.take(k));
        }
        assert(es.take(p.len() as int) =~= p);
        if state_after(es).due_was_running {
            if !state_after(p).due_was_running {
                assert(found_due_running(es, p.len() as int));
            } else {
                let k = choose|k: int| #[trigger] found_due_running(p, k);
                assert(found_due_running(es, k));
            }
        } else {
            assert forall|k: int| !#[trigger] found_due_running(es, k) by {
                if found_due_running(es, k) && k < p.len() {
                    assert(found_due_running(p, k));
                }
            }
        }
    }
}

/// After the data is written, Due is started again exactly when the write
/// found it running, whether it quit while the write waited or not.
pub proof fn lemma_written_reopens_iff_found_running(es: Seq<WriteEvent>)
    ensures
        state_after(es).phase == WritePhase::Writing ==> (
            write_transition(state_after(es), WriteEvent::Written).1 == WriteAction::ReopenDue
                <==> exists|k: int| #[trigger] found_due_running(es, k)),
{
    lemma_write_remembers_running(es);
}

/// A write state that a run can reach: waiting counts stay below the limit.
pub open spec fn reachable_write_state(s: WriteState) -> bool {
    match s.phase {
        WritePhase::Waiting(k) => k < QUIT_POLLS,
        _ => true,
    }
}

/// Every step keeps the count of waits below the limit, so a write pauses
/// for Due at most 20 times.
pub proof fn lemma_waits_bounded(s: WriteState, e: WriteEvent)
    requires
        reachable_write_state(s),
    ensures
        reachable_write_state(write_transition(s, e).0),
{
}

/// Due is started again only by a write that found it running, and only
/// after the data was written.
pub proof fn lemma_reopen_only_if_running(s: WriteState, e: WriteEvent)
    ensures
        write_transition(s, e).1 == WriteAction::ReopenDue ==> s.due_was_running && s.phase == WritePhase::Writing
            && e == WriteEvent::Written,
{
}

/// The backup is restored only after a failed write, and the data is
/// written only once the backup exists (after looking for Due).
pub proof fn lemma_restore_only_after_failed_write(s: WriteState, e: WriteEvent)
    ensures
        write_transition(s, e).1 == WriteAction::RestoreBackup ==> s.phase == WritePhase::Writing && e == WriteEvent::WriteFailed,
        write_transition(s, e).1 == WriteAction::WriteDatabase ==> match s.phase {
            WritePhase::FindingDue | WritePhase::Waiting(_) => true,
            _ => false,
        },
{
}

} // verus!
