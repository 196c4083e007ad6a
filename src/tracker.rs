//! Resumption tracking: which memos of the watched directory still need
//! processing, given the marker left by the last successful run.

use vstd::prelude::*;
use vstd::string::{StrSliceExecFns, StringExecFns};

verus! {

broadcast use vstd::seq_lib::group_to_multiset_ensures;

/// Name of the marker file kept in the watched directory; it holds the path of
/// the last memo that was processed successfully.
pub const MARKER_FILE_NAME: &'static str = "last_voice_memo";

/// A file found in the watched directory.
pub struct MemoEntry {
    /// Full path of the file.
    pub path: String,
    /// Its file name within the directory.
    pub name: String,
    /// Its creation time, in nanoseconds since the Unix epoch.
    pub created: u64,
}

/// The file name a path ends with: the text after its last `/` (all of it
/// when it has none).
pub open spec fn file_name_of(path: Seq<char>) -> Seq<char>
    decreases path.len(),
{
    if path.len() == 0 || path.last() == '/' {
        Seq::empty()
    } else {
        file_name_of(path.drop_last()).push(path.last())
    }
}

proof fn lemma_file_name_from(path: Seq<char>, k: int)
    requires
        0 <= k <= path.len(),
        k == 0 || path[k - 1] == '/',
        forall|j: int| k <= j < path.len() ==> path[j] != '/',
    ensures
        file_name_of(path) == path.subrange(k, path.len() as int),
    decreases path.len(),
{
    if path.len() == k {
        assert(path.subrange(k, path.len() as int) =~= Seq::<char>::empty());
    } else {
        let p = path.drop_last();
        lemma_file_name_from(p, k);
        assert(path.subrange(k, path.len() as int) =~= p.subrange(k, p.len() as int).push(path.last()));
    }
}

impl MemoEntry {
    /// The entry for the file at `path`, created at `created`; its name is the
    /// text after the path's last `/`.
    pub fn from_path(path: String, created: u64) -> (r: MemoEntry)
        ensures
            r.path == path,
            r.name@ == file_name_of(path@),
            r.created == created,
    {
        let len = path.as_str().unicode_len();
        let mut k: usize = len;
        while k > 0 && path.as_str().get_char(k - 1) != '/'
            invariant
                k <= len,
                len == path@.len(),
                forall|j: int| k <= j < len ==> path@[j] != '/',
            decreases k,
        {
            k = k - 1;
        }
        proof {
            lemma_file_name_from(path@, k as int);
        }
        let name = String::from_str(path.as_str().substring_char(k, len));
        MemoEntry { path, name, created }
    }

    /// A copy of this entry.
    pub fn duplicate(&self) -> (r: MemoEntry)
        ensures
            r == *self,
    {
        MemoEntry { path: self.path.clone(), name: self.name.clone(), created: self.created }
    }
}

/// Whether a file name is that of the marker file.
pub open spec fn is_marker_name(name: Seq<char>) -> bool {
    name == MARKER_FILE_NAME@
}

/// Whether a file of the given name may be processed as a memo: every file but
/// the marker.
pub fn is_candidate_name(name: &String) -> (r: bool)
    ensures
        r == !is_marker_name(name@),
{
    let marker = String::from_str(MARKER_FILE_NAME);
    !(*name == marker)
}

/// Whether an entry is to be processed in a catch-up run. Without a marker
/// (a first run) every memo of the directory is; with one, those created
/// strictly after the marked memo. The marker file never is.
pub open spec fn is_pending(e: MemoEntry, mark: Option<u64>) -> bool {
    &&& !is_marker_name(e.name@)
    &&& match mark {
        None => true,
        Some(t) => e.created > t,
    }
}

/// The entries of `s` that are pending, in their order in `s`.
pub open spec fn pending(s: Seq<MemoEntry>, mark: Option<u64>) -> Seq<MemoEntry>
    decreases s.len(),
{
    if s.len() == 0 {
        Seq::empty()
    } else {
        let p = pending(s.drop_last(), mark);
        if is_pending(s.last(), mark) {
            p.push(s.last())
        } else {
            p
        }
    }
}

/// Entries in ascending order of creation time.
pub open spec fn by_creation(s: Seq<MemoEntry>) -> bool {
    forall|i: int, j: int| 0 <= i < j < s.len() ==> s[i].created <= s[j].created
}

proof fn lemma_insert_to_multiset<A>(s: Seq<A>, p: int, a: A)
    requires
        0 <= p <= s.len(),
    ensures
        s.insert(p, a).to_multiset() =~= s.to_multiset().insert(a),
{
    let t = s.insert(p, a);
    assert(t.remove(p) =~= s);
    assert(t.contains(a)) by {
        assert(t[p] == a);
    }
    assert(t.to_multiset().count(a) > 0);
}

/// The memos a catch-up run processes: the pending entries, ordered by
/// ascending creation time.
pub fn catch_up_set(entries: &Vec<MemoEntry>, mark: Option<u64>) -> (r: Vec<MemoEntry>)
    ensures
        by_creation(r@),
        r@.to_multiset() == pending(entries@, mark).to_multiset(),
        forall|k: int| 0 <= k < r@.len() ==> is_pending(#[trigger] r@[k], mark),
{
    let mut out: Vec<MemoEntry> = Vec::new();
    let mut i: usize = 0;
    while i < entries.len()
        invariant
            i <= entries@.len(),
            by_creation(out@),
            out@.to_multiset() == pending(entries@.take(i as int), mark).to_multiset(),
            forall|k: int| 0 <= k < out@.len() ==> is_pending(#[trigger] out@[k], mark),
        decreases entries@.len() - i,
    {
        let e = entries[i].duplicate();
        assert(entries@.take(i as int + 1).drop_last() =~= entries@.take(i as int));
        assert(entries@.take(i as int + 1).last() == entries@[i as int]);
        let keep = is_candidate_name(&e.name) && match mark {
            None => true,
            Some(t) => e.created > t,
        };
        if keep {
            let mut p: usize = 0;
            while p < out.len() && out[p].created <= e.created
                invariant
                    p <= out@.len(),
                    forall|k: int| 0 <= k < p ==> (#[trigger] out@[k]).created <= e.created,
                decreases out@.len() - p,
            {
                p = p + 1;
            }
            proof {
                lemma_insert_to_multiset(out@, p as int, e);
            }
            out.insert(p, e);
        }
        i = i + 1;
    }
    assert(entries@.take(entries@.len() as int) =~= entries@);
    out
}

/// The marker file is never a candidate: a scan never selects it, whatever the
/// directory holds and whatever the marker says, and an event naming it is
/// refused by `is_candidate_name`. With entries built by `MemoEntry::from_path`,
/// no selected path ends in the marker's name.
pub proof fn lemma_marker_never_pending(s: Seq<MemoEntry>, mark: Option<u64>)
    ensures
        forall|k: int| 0 <= k < pending(s, mark).len() ==> !is_marker_name(
            (#[trigger] pending(s, mark)[k]).name@,
        ),
        (forall|k: int| 0 <= k < s.len() ==> (#[trigger] s[k]).name@ == file_name_of(s[k].path@))
            ==> forall|k: int| 0 <= k < pending(s, mark).len() ==> !is_marker_name(
            file_name_of((#[trigger] pending(s, mark)[k]).path@),
        ),
    decreases s.len(),
{
    if s.len() > 0 {
        let p = pending(s.drop_last(), mark);
        lemma_marker_never_pending(s.drop_last(), mark);
        if forall|k: int| 0 <= k < s.len() ==> (#[trigger] s[k]).name@ == file_name_of(s[k].path@) {
            assert(forall|k: int| 0 <= k < s.len() - 1 ==> s.drop_last()[k] == s[k]);
        }
        assert forall|k: int| 0 <= k < pending(s, mark).len() implies !is_marker_name(
            (#[trigger] pending(s, mark)[k]).name@,
        ) by {
            if is_pending(s.last(), mark) {
                if k < p.len() {
                    assert(pending(s, mark)[k] == p[k]);
                }
            } else {
                assert(pending(s, mark)[k] == p[k]);
            }
        }
    }
}

} // verus!
