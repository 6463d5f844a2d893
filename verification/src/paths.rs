//! Where the tool keeps its files, under the user's home directory.

use vstd::prelude::*;
use vstd::string::StrSliceExecFns;
use crate::text::push_str;
use crate::text::string_of;

verus! {

/// `rel` joined under `base` as `PathBuf::join` joins a relative path: a
/// `/` between them unless `base` is empty or already ends with one.
pub open spec fn joined(base: Seq<char>, rel: Seq<char>) -> Seq<char> {
    if base.len() == 0 || base.last() == '/' {
        base + rel
    } else {
        base + seq!['/'] + rel
    }
}

/// Joins a relative path under a directory.
pub fn join_path(base: &str, rel: &str) -> (r: String)
    ensures
        r@ == joined(base@, rel@),
{
    let mut s = string_of(base);
    let n = base.unicode_len();
    if n > 0 && base.get_char(n - 1) != '/' {
        push_str(&mut s, "/");
        proof {
            reveal_strlit("/");
        }
    }
    push_str(&mut s, rel);
    assert(s@ =~= joined(base@, rel@));
    s
}

/// The Due app's database under the home directory.
pub fn due_db_path(home: &str) -> (r: String)
    ensures
        r@ == joined(home@, "Library/Containers/com.phocusllp.duemac/Data/Library/Application Support/Due App/Due.duedb"@),
{
    join_path(home, "Library/Containers/com.phocusllp.duemac/Data/Library/Application Support/Due App/Due.duedb")
}

/// The snapshot file (a git-tracked JSON list) under the home directory.
pub fn snapshot_path(home: &str) -> (r: String)
    ensures
        r@ == joined(home@, "officina/backups/due-reminders.json"@),
{
    join_path(home, "officina/backups/due-reminders.json")
}

/// The log of snapshot runs under the home directory.
pub fn log_path(home: &str) -> (r: String)
    ensures
        r@ == joined(home@, "tmp/due-snapshot.log"@),
{
    join_path(home, "tmp/due-snapshot.log")
}

} // verus!
