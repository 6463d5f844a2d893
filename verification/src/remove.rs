//! Deleting reminders by title (`rm`).

use vstd::prelude::*;
use crate::json::Json;
use crate::reminders::first_with_uuid;
use crate::reminders::find_uuid;
use crate::reminders::reminder_list;
use crate::reminders::reminder_title;
use crate::reminders::reminder_uuid;
use crate::reminders::reminders_slice;
use crate::reminders::remove_reminder;
use crate::reminders::set_tombstone;
use crate::reminders::title_of;
use crate::reminders::tombstone;
use crate::reminders::tombstones_writable;
use crate::reminders::uuid_of;
use crate::text::contains_text;
use crate::text::push_str;
use crate::text::string_of;
use crate::text::has_substring;
use crate::text::lowercase;
use crate::text::to_lowercase;
use crate::text::trim;
use crate::text::trimmed;

verus! {

/// Why `rm` stopped.
#[derive(Clone, Copy, Debug, PartialEq, Eq, Structural)]
pub enum RmStop {
    /// No reminder's title contains the pattern.
    NoMatch,
    /// A matching reminder has no UUID.
    MissingUuid,
    /// No remaining reminder holds a matching reminder's UUID; this never
    /// happens (see `lemma_rm_finds_every_uuid`).
    UuidVanished,
    /// The document's `dl` member is not an object.
    TombstonesNotObject,
}

/// How `rm` stopped, with the titles it had deleted before.
pub struct RmFailure {
    pub stop: RmStop,
    pub deleted: Vec<String>,
}

/// A reminder's title contains the pattern, both lower-cased, the pattern
/// trimmed first.
pub open spec fn title_matches(r: Json, pattern: Seq<char>) -> bool {
    has_substring(lowercase(title_of(r)), lowercase(trimmed(pattern)))
}

/// The reminders whose titles match, in stored order.
pub open spec fn matching(rs: Seq<Json>, pattern: Seq<char>) -> Seq<Json>
    decreases rs.len(),
{
    if rs.len() == 0 {
        Seq::empty()
    } else {
        let prev = matching(rs.drop_last(), pattern);
        if title_matches(rs.last(), pattern) {
            prev.push(rs.last())
        } else {
            prev
        }
    }
}

/// The reminders left after deleting the first `j` targets in turn: each
/// deletion removes the first remaining reminder with the target's UUID and
/// records the UUID as deleted.
pub open spec fn rm_walk(rs: Seq<Json>, targets: Seq<Json>, tombstones_ok: bool, j: int) -> Result<Seq<Json>, RmStop>
    decreases j,
{
    if j <= 0 {
        Ok(rs)
    } else {
        match rm_walk(rs, targets, tombstones_ok, j - 1) {
            Err(e) => Err(e),
            Ok(cur) => match uuid_of(targets[j - 1]) {
                None => Err(RmStop::MissingUuid),
                Some(u) => match first_with_uuid(cur, u) {
                    None => Err(RmStop::UuidVanished),
                    Some(p) => if tombstones_ok {
                        Ok(cur.remove(p))
                    } else {
                        Err(RmStop::TombstonesNotObject)
                    },
                },
            },
        }
    }
}

/// The UUIDs of a list of reminders, in order.
pub open spec fn uuid_list(s: Seq<Json>) -> Seq<Option<Seq<char>>> {
    Seq::new(s.len(), |i: int| uuid_of(s[i]))
}

/// The matching reminders hold no UUID more often than all reminders do.
proof fn lemma_matching_uuids_within(rs: Seq<Json>, pattern: Seq<char>)
    ensures
        uuid_list(matching(rs, pattern)).to_multiset().subset_of(uuid_list(rs).to_multiset()),
    decreases rs.len(),
{
    broadcast use vstd::multiset::group_multiset_axioms, vstd::seq_lib::to_multiset_build;

    if rs.len() == 0 {
        assert(uuid_list(matching(rs, pattern)) =~= Seq::<Option<Seq<char>>>::empty());
        assert(uuid_list(rs) =~= Seq::<Option<Seq<char>>>::empty());
    } else {
        let prev = rs.drop_last();
        lemma_matching_uuids_within(prev, pattern);
        assert(uuid_list(rs) =~= uuid_list(prev).push(uuid_of(rs.last())));
        if title_matches(rs.last(), pattern) {
            assert(uuid_list(matching(rs, pattern)) =~= uuid_list(matching(prev, pattern)).push(uuid_of(rs.last())));
        } else {
            assert(matching(rs, pattern) == matching(prev, pattern));
        }
    }
}

/// While deleting, the reminders still to delete hold no UUID more often
/// than the reminders left do; so the walk never misses a UUID.
proof fn lemma_walk_keeps_uuids(rs: Seq<Json>, targets: Seq<Json>, tombstones_ok: bool, j: int)
    requires
        uuid_list(targets).to_multiset().subset_of(uuid_list(rs).to_multiset()),
        0 <= j <= targets.len(),
    ensures
        rm_walk(rs, targets, tombstones_ok, j) != Err::<Seq<Json>, RmStop>(RmStop::UuidVanished),
        rm_walk(rs, targets, tombstones_ok, j) matches Ok(cur)
            ==> uuid_list(targets.skip(j)).to_multiset().subset_of(uuid_list(cur).to_multiset()),
    decreases j,
{
    broadcast use vstd::multiset::group_multiset_axioms;

    if j == 0 {
        assert(targets.skip(0) =~= targets);
    } else {
        lemma_walk_keeps_uuids(rs, targets, tombstones_ok, j - 1);
        match rm_walk(rs, targets, tombstones_ok, j - 1) {
            Err(_) => {},
            Ok(cur) => match uuid_of(targets[j - 1]) {
                None => {},
                Some(u) => {
                    let rest = uuid_list(targets.skip(j));
                    assert(uuid_list(targets.skip(j - 1)) =~= rest.insert(0, Some(u)));
                    vstd::seq_lib::to_multiset_insert(rest, 0, Some(u));
                    let ids = uuid_list(cur);
                    assert(ids.to_multiset().count(Some(u)) > 0);
                    vstd::seq_lib::to_multiset_contains(ids, Some(u));
                    let t = choose|t: int| 0 <= t < ids.len() && ids[t] == Some(u);
                    crate::reminders::lemma_first_uuid_exists(cur, u, t);
                    let p = first_with_uuid(cur, u).unwrap();
                    let c = choose|i: int| crate::reminders::is_first_uuid(cur, u, i);
                    assert(crate::reminders::is_first_uuid(cur, u, c));
                    if tombstones_ok {
                        assert(uuid_list(cur.remove(p)) =~= ids.remove(p));
                        vstd::seq_lib::to_multiset_remove(ids, p);
                        assert(ids[p] == Some(u));
                    }
                },
            },
        }
    }
}

/// Deleting by title never misses a UUID: every matching reminder's UUID is
/// still held by some remaining reminder when its turn comes, so
/// `UuidVanished` cannot happen.
pub proof fn lemma_rm_finds_every_uuid(rs: Seq<Json>, pattern: Seq<char>, tombstones_ok: bool, j: int)
    requires
        0 <= j <= matching(rs, pattern).len(),
    ensures
        rm_walk(rs, matching(rs, pattern), tombstones_ok, j) != Err::<Seq<Json>, RmStop>(RmStop::UuidVanished),
{
    lemma_matching_uuids_within(rs, pattern);
    lemma_walk_keeps_uuids(rs, matching(rs, pattern), tombstones_ok, j);
}

/// When the lower-cased, trimmed pattern is empty, every reminder matches.
proof fn lemma_empty_pattern_matches_all(rs: Seq<Json>, pattern: Seq<char>)
    requires
        lowercase(trimmed(pattern)).len() == 0,
    ensures
        matching(rs, pattern) == rs,
    decreases rs.len(),
{
    if rs.len() > 0 {
        lemma_empty_pattern_matches_all(rs.drop_last(), pattern);
        let hay = lowercase(title_of(rs.last()));
        let needle = lowercase(trimmed(pattern));
        assert(hay.subrange(0, 0int + needle.len()) =~= needle);
        assert(title_matches(rs.last(), pattern));
        assert(rs.drop_last().push(rs.last()) =~= rs);
    }
}

/// One of the first `j` targets holds UUID `k`.
pub open spec fn deleted_uuid(targets: Seq<Json>, j: int, k: Seq<char>) -> bool {
    exists|i: int| 0 <= i < j && #[trigger] uuid_of(targets[i]) == Some(k)
}

/// The titles deleted are those of the first targets.
pub open spec fn titles_of_first(deleted: Seq<String>, targets: Seq<Json>) -> bool {
    &&& deleted.len() <= targets.len()
    &&& forall|i: int| 0 <= i < deleted.len() ==> (#[trigger] deleted[i])@ == title_of(targets[i])
}

/// Deletes every reminder whose title contains `pattern` (lower-cased, the
/// pattern trimmed), recording each UUID as deleted at `now`; returns the
/// titles deleted, in stored order.
///
/// For each matching reminder in turn, the first remaining reminder with its
/// UUID is removed. Stops with `NoMatch` when nothing matches; otherwise at
/// the first matching reminder without a UUID, or when deletions cannot be
/// recorded, with the titles deleted before it.
pub fn remove_matching(data: &mut Json, pattern: &str, now: i64) -> (r: Result<Vec<String>, RmFailure>)
    ensures
        trimmed(pattern@).len() == 0 ==> matching(reminder_list(*old(data)), pattern@) == reminder_list(*old(data)),
        ({
            let rs = reminder_list(*old(data));
            let targets = matching(rs, pattern@);
            let ok = tombstones_writable(*old(data));
            match r {
                Err(f) => {
                    &&& (f.stop == RmStop::NoMatch) == (targets.len() == 0)
                    &&& f.stop == RmStop::NoMatch ==> f.deleted@.len() == 0
                    &&& f.stop != RmStop::UuidVanished
                    &&& f.stop != RmStop::NoMatch ==> {
                        let j = f.deleted@.len() as int;
                        &&& j < targets.len()
                        &&& rm_walk(rs, targets, ok, j) is Ok
                        &&& rm_walk(rs, targets, ok, j + 1) == Err::<Seq<Json>, RmStop>(f.stop)
                        &&& titles_of_first(f.deleted@, targets)
                    }
                },
                Ok(deleted) => {
                    &&& targets.len() > 0
                    &&& deleted@.len() == targets.len()
                    &&& titles_of_first(deleted@, targets)
                    &&& final(data).field("re"@) matches Some(Json::Array(v))
                        && rm_walk(rs, targets, ok, targets.len() as int) == Ok::<Seq<Json>, RmStop>(v@)
                    &&& *final(data) is Object
                    &&& forall|k: Seq<char>| #[trigger] tombstone(*final(data), k) == if deleted_uuid(targets, targets.len() as int, k) {
                        Some(Json::Int(now))
                    } else {
                        tombstone(*old(data), k)
                    }
                    &&& forall|k: Seq<char>| k != "re"@ && k != "dl"@ ==> #[trigger] final(data).field(k) == old(data).field(k)
                },
            }
        }),
{
    let ghost rs = reminder_list(*old(data));
    let ghost targets = matching(rs, pattern@);
    let ghost ok = tombstones_writable(*old(data));
    let pat = to_lowercase(trim(pattern));
    proof {
        if trimmed(pattern@).len() == 0 {
            lemma_empty_pattern_matches_all(rs, pattern@);
        }
    }
    let mut uuids: Vec<Option<String>> = Vec::new();
    let mut titles: Vec<String> = Vec::new();
    let ghost mut found: Seq<Json> = Seq::empty();
    {
        let list = reminders_slice(data);
        let mut i: usize = 0;
        while i < list.len()
            invariant
                i <= list@.len(),
                list@ == rs,
                pat@ == lowercase(trimmed(pattern@)),
                trimmed(pattern@).len() == 0 ==> matching(rs, pattern@) == rs,
                found == matching(rs.take(i as int), pattern@),
                uuids@.len() == found.len(),
                titles@.len() == found.len(),
                forall|k: int| 0 <= k < found.len() ==> match #[trigger] uuids@[k] {
                    Some(u) => uuid_of(found[k]) == Some(u@),
                    None => uuid_of(found[k]) is None,
                },
                forall|k: int| 0 <= k < found.len() ==> (#[trigger] titles@[k])@ == title_of(found[k]),
            decreases list@.len() - i,
        {
            let title = reminder_title(&list[i]);
            let lower = to_lowercase(title.as_str());
            proof {
                assert(rs.take(i + 1).drop_last() =~= rs.take(i as int));
                assert(rs.take(i + 1).last() == rs[i as int]);
            }
            if contains_text(lower.as_str(), pat.as_str()) {
                uuids.push(reminder_uuid(&list[i]));
                titles.push(title);
                proof {
                    found = found.push(rs[i as int]);
                }
            }
            i = i + 1;
        }
        assert(rs.take(rs.len() as int) =~= rs);
    }
    let mut deleted: Vec<String> = Vec::new();
    let n = uuids.len();
    if n == 0 {
        return Err(RmFailure { stop: RmStop::NoMatch, deleted });
    }
    proof {
        assert(found =~= targets);
        assert(rs.len() > 0);
        assert(*old(data) is Object);
        reveal_strlit("re");
        reveal_strlit("dl");
        assert("re"@[0] == 'r' && "dl"@[0] == 'd');
        assert("re"@ != "dl"@);
    }
    let mut j: usize = 0;
    while j < n
        invariant
            n == targets.len(),
            n == uuids@.len(),
            n == titles@.len(),
            rs == reminder_list(*old(data)),
            targets == matching(rs, pattern@),
            trimmed(pattern@).len() == 0 ==> targets == rs,
            ok == tombstones_writable(*old(data)),
            "re"@ != "dl"@,
            forall|k: int| 0 <= k < n ==> match #[trigger] uuids@[k] {
                Some(u) => uuid_of(targets[k]) == Some(u@),
                None => uuid_of(targets[k]) is None,
            },
            forall|k: int| 0 <= k < n ==> (#[trigger] titles@[k])@ == title_of(targets[k]),
            j <= n,
            deleted@.len() == j,
            titles_of_first(deleted@, targets),
            rm_walk(rs, targets, ok, j as int) == Ok::<Seq<Json>, RmStop>(reminder_list(*data)),
            data.field("re"@) matches Some(Json::Array(_)),
            *data is Object,
            tombstones_writable(*data) == ok,
            forall|k: Seq<char>| #[trigger] tombstone(*data, k) == if deleted_uuid(targets, j as int, k) {
                Some(Json::Int(now))
            } else {
                tombstone(*old(data), k)
            },
            forall|k: Seq<char>| k != "re"@ && k != "dl"@ ==> #[trigger] data.field(k) == old(data).field(k),
        decreases n - j,
    {
        let u = match &uuids[j] {
            Some(u) => u,
            None => {
                return Err(RmFailure { stop: RmStop::MissingUuid, deleted });
            },
        };
        let ghost cur = reminder_list(*data);
        let found = find_uuid(reminders_slice(data), u.as_str());
        proof {
            lemma_rm_finds_every_uuid(rs, pattern@, ok, j + 1);
        }
        let pos = found.unwrap();
        proof {
            let c = choose|i: int| crate::reminders::is_first_uuid(cur, u@, i);
            assert(crate::reminders::is_first_uuid(cur, u@, c));
        }
        let ghost mid0 = *data;
        remove_reminder(data, pos);
        proof {
            assert(data.field("dl"@) == mid0.field("dl"@));
            assert forall|k: Seq<char>| #[trigger] tombstone(*data, k) == tombstone(mid0, k) by {}
        }
        let ghost mid = *data;
        match set_tombstone(data, u.as_str(), now) {
            Ok(()) => {},
            Err(_) => {
                return Err(RmFailure { stop: RmStop::TombstonesNotObject, deleted });
            },
        }
        proof {
            assert(data.field("re"@) == mid.field("re"@));
            assert forall|k: Seq<char>| #[trigger] deleted_uuid(targets, j + 1, k) == (deleted_uuid(targets, j as int, k) || k == u@) by {
                if k == u@ {
                    assert(uuid_of(targets[j as int]) == Some(k));
                }
                if deleted_uuid(targets, j + 1, k) && !deleted_uuid(targets, j as int, k) {
                    let i = choose|i: int| 0 <= i < j + 1 && #[trigger] uuid_of(targets[i]) == Some(k);
                    assert(i == j);
                }
            }
        }
        deleted.push(titles[j].clone());
        j = j + 1;
    }
    Ok(deleted)
}

/// The line printed for each deleted reminder.
pub fn deleted_message(title: &str) -> (r: String)
    ensures
        r@ == "Deleted: '"@ + title@ + "'"@,
{
    let mut s = string_of("Deleted: '");
    push_str(&mut s, title);
    push_str(&mut s, "'");
    s
}

} // verus!
