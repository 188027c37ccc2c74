//! The list of recently opened documents, most recent last, and where the
//! thumbnail of each is cached.

use vstd::prelude::*;
use crate::bundle::{uuid_hyphenated, uuid_text};
use crate::path::push_component;
use vstd::string::StringSliceAdditionalSpecFns;

verus! {

/// One recently opened document: where it lives and the name it is shown by.
pub struct RecentFileRecord {
    pub path_or_uri: String,
    pub name: String,
}

/// The view of a record: its location and its name.
pub open spec fn record_view(r: RecentFileRecord) -> (Seq<char>, Seq<char>) {
    (r.path_or_uri@, r.name@)
}

impl Clone for RecentFileRecord {
    fn clone(&self) -> (r: Self)
        ensures
            r.path_or_uri@ == self.path_or_uri@,
            r.name@ == self.name@,
    {
        RecentFileRecord { path_or_uri: self.path_or_uri.clone(), name: self.name.clone() }
    }
}

/// The recently opened documents, oldest first.
pub struct RecentFiles {
    pub files: Vec<RecentFileRecord>,
}

impl View for RecentFiles {
    type V = Seq<(Seq<char>, Seq<char>)>;

    open spec fn view(&self) -> Seq<(Seq<char>, Seq<char>)> {
        self.files@.map_values(|r: RecentFileRecord| record_view(r))
    }
}

/// The index of the first record of `files` at `path`, if any.
pub open spec fn first_index_of(files: Seq<(Seq<char>, Seq<char>)>, path: Seq<char>) -> Option<int> {
    if exists|i: int| 0 <= i < files.len() && files[i].0 == path {
        Some(
            choose|i: int|
                0 <= i < files.len() && files[i].0 == path && forall|j: int|
                    0 <= j < i ==> files[j].0 != path,
        )
    } else {
        None
    }
}

/// The list after the document at `path` was opened under `name`: its first
/// record, if there is one, moves to the end with the new name; otherwise a
/// new record is added at the end.
pub open spec fn updated_recent(
    files: Seq<(Seq<char>, Seq<char>)>,
    path: Seq<char>,
    name: Seq<char>,
) -> Seq<(Seq<char>, Seq<char>)> {
    match first_index_of(files, path) {
        Some(i) => files.remove(i).push((path, name)),
        None => files.push((path, name)),
    }
}

/// When a first record at `path` exists, `first_index_of` finds it.
proof fn lemma_first_index_of(files: Seq<(Seq<char>, Seq<char>)>, path: Seq<char>, k: int)
    requires
        0 <= k < files.len(),
        files[k].0 == path,
        forall|j: int| 0 <= j < k ==> files[j].0 != path,
    ensures
        first_index_of(files, path) == Some(k),
{
    let c = choose|i: int|
        0 <= i < files.len() && files[i].0 == path && forall|j: int|
            0 <= j < i ==> files[j].0 != path;
    assert(0 <= c < files.len() && files[c].0 == path && forall|j: int|
        0 <= j < c ==> files[j].0 != path);
    if c < k {
        assert(files[c].0 != path);
    }
    if c > k {
        assert(files[k].0 != path);
    }
}

/// Compares two strings by their text.
fn same_text(a: &String, b: &String) -> (r: bool)
    ensures
        r == (a@ == b@),
{
    a.eq(b)
}

/// The index of the first record at `path`, if any.
fn find_record(files: &Vec<RecentFileRecord>, path: &String) -> (r: Option<usize>)
    ensures
        match r {
            Some(i) => first_index_of(files@.map_values(|r: RecentFileRecord| record_view(r)), path@)
                == Some(i as int) && i < files@.len() && files@[i as int].path_or_uri@ == path@,
            None => first_index_of(files@.map_values(|r: RecentFileRecord| record_view(r)), path@)
                is None,
        },
{
    let ghost view = files@.map_values(|r: RecentFileRecord| record_view(r));
    let mut index: usize = 0;
    while index < files.len()
        invariant
            index <= files@.len(),
            view == files@.map_values(|r: RecentFileRecord| record_view(r)),
            forall|j: int| 0 <= j < index ==> view[j].0 != path@,
        decreases files@.len() - index,
    {
        proof {
            assert(view[index as int] == record_view(files@[index as int]));
        }
        if same_text(&files[index].path_or_uri, path) {
            proof {
                lemma_first_index_of(view, path@, index as int);
            }
            return Some(index);
        }
        index = index + 1;
    }
    proof {
        assert(!(exists|i: int| 0 <= i < view.len() && view[i].0 == path@));
    }
    None
}

/// Removing record `i` and pushing `rec` acts on the view in the same way.
proof fn lemma_remove_push_view(
    before: Seq<RecentFileRecord>,
    i: int,
    rec: RecentFileRecord,
)
    requires
        0 <= i < before.len(),
    ensures
        before.remove(i).push(rec).map_values(|r: RecentFileRecord| record_view(r))
            =~= before.map_values(|r: RecentFileRecord| record_view(r)).remove(i).push(
            record_view(rec),
        ),
{
    let a = before.remove(i).push(rec).map_values(|r: RecentFileRecord| record_view(r));
    let b = before.map_values(|r: RecentFileRecord| record_view(r)).remove(i).push(
        record_view(rec),
    );
    assert forall|j: int| 0 <= j < a.len() implies a[j] == b[j] by {
        if j < i {
            assert(before.remove(i)[j] == before[j]);
        } else if j < before.len() - 1 {
            assert(before.remove(i)[j] == before[j + 1]);
        }
    }
}

impl RecentFiles {
    /// Records that the document at `path_or_uri` was opened under `name`:
    /// an existing record for it moves to the end and takes the new name;
    /// otherwise a new record is added at the end.
    pub fn update(&mut self, path_or_uri: String, name: String)
        ensures
            final(self)@ == updated_recent(old(self)@, path_or_uri@, name@),
    {
        match find_record(&self.files, &path_or_uri) {
            Some(index) => {
                let rec = self.files.remove(index);
                let moved = RecentFileRecord { path_or_uri: rec.path_or_uri, name };
                proof {
                    assert(record_view(moved) == (path_or_uri@, name@));
                    lemma_remove_push_view(old(self).files@, index as int, moved);
                }
                self.files.push(moved);
            },
            None => {
                let rec = RecentFileRecord { path_or_uri, name };
                self.files.push(rec);
                proof {
                    assert(self@ =~= old(self)@.push((path_or_uri@, name@)));
                }
            },
        }
    }
}

/// The file name of the cached thumbnail of a document: the UUID formed by
/// the 128-bit XXH3 hash of its location, then `.png`.
pub open spec fn thumbnail_file_name(source: Seq<u8>) -> Seq<char> {
    uuid_text(xxh3_128_of(source)) + seq!['.', 'p', 'n', 'g']
}

/// The 128-bit XXH3 hash (default secret, seed 0) of `data`.
pub uninterp spec fn xxh3_128_of(data: Seq<u8>) -> u128;

/// Calls `xxhash_rust::xxh3::xxh3_128`; the contract only names the result:
/// the same bytes give the same hash.
#[verifier::external_body]
fn xxh3_128(data: &[u8]) -> (h: u128)
    ensures
        h == xxh3_128_of(data@),
{
    xxhash_rust::xxh3::xxh3_128(data)
}

/// Where the thumbnail whose file is named after `hash` is cached:
/// `<cache_dir>/file_thumbnails/<hash as a uuid>.png`.
pub fn thumbnail_path_for_hash(cache_dir: &str, hash: u128) -> (r: String)
    ensures
        r@ == push_component(
            push_component(cache_dir@, seq!['f', 'i', 'l', 'e', '_', 't', 'h', 'u', 'm', 'b', 'n', 'a', 'i', 'l', 's']),
            uuid_text(hash) + seq!['.', 'p', 'n', 'g'],
        ),
{
    proof {
        reveal_strlit(".png");
        reveal_strlit("file_thumbnails");
        reveal_strlit("/");
    }
    let name = uuid_hyphenated(hash).concat(".png");
    let dir = String::from_str(cache_dir);
    let len = cache_dir.unicode_len();
    let dir = if len > 0 && cache_dir.get_char(len - 1) != '/' {
        dir.concat("/").concat("file_thumbnails")
    } else {
        dir.concat("file_thumbnails")
    };
    dir.concat("/").concat(name.as_str())
}

/// Where the thumbnail of the document at `source` is cached:
/// `<cache_dir>/file_thumbnails/<hash uuid>.png`, the hash being the 128-bit
/// XXH3 hash of the location's bytes.
pub fn recent_file_thumbnail_path(cache_dir: &str, source: &str) -> (r: String)
    ensures
        r@ == push_component(
            push_component(cache_dir@, seq!['f', 'i', 'l', 'e', '_', 't', 'h', 'u', 'm', 'b', 'n', 'a', 'i', 'l', 's']),
            thumbnail_file_name(source.spec_bytes()),
        ),
{
    let hash = xxh3_128(source.as_bytes());
    thumbnail_path_for_hash(cache_dir, hash)
}

/// `path` occurs at most once among the records.
pub open spec fn at_most_once(files: Seq<(Seq<char>, Seq<char>)>, path: Seq<char>) -> bool {
    forall|i: int, j: int|
        0 <= i < files.len() && 0 <= j < files.len() && files[i].0 == path && files[j].0 == path
            ==> i == j
}

/// Reopening a document keeps one record for it: after an update the
/// document's record is the last one, under the new name, no other record
/// is at its location, the other records keep their order, and the list
/// grows only when the document was not yet in it.
pub proof fn lemma_update_keeps_one_record(
    files: Seq<(Seq<char>, Seq<char>)>,
    path: Seq<char>,
    name: Seq<char>,
)
    requires
        at_most_once(files, path),
    ensures
        ({
            let after = updated_recent(files, path, name);
            &&& after.len() > 0
            &&& after.last() == (path, name)
            &&& forall|i: int| 0 <= i < after.len() - 1 ==> after[i].0 != path
            &&& after.len() == if (exists|i: int| 0 <= i < files.len() && files[i].0 == path) {
                files.len()
            } else {
                files.len() + 1
            }
            &&& after.drop_last() =~= files.filter(|r: (Seq<char>, Seq<char>)| r.0 != path)
        }),
{
    let after = updated_recent(files, path, name);
    if exists|i: int| 0 <= i < files.len() && files[i].0 == path {
        let k = choose|i: int| 0 <= i < files.len() && files[i].0 == path;
        assert forall|j: int| 0 <= j < k implies files[j].0 != path by {}
        lemma_first_index_of(files, path, k);
        assert(after =~= files.remove(k).push((path, name)));
        assert forall|i: int| 0 <= i < after.len() - 1 implies after[i].0 != path by {
            if i < k {
                assert(after[i] == files[i]);
            } else {
                assert(after[i] == files[i + 1]);
            }
        }
        lemma_filter_skips_one(files, path, k);
    } else {
        assert(after =~= files.push((path, name)));
        lemma_filter_keeps_all(files, path);
    }
}

/// Filtering out the one record at `path` removes just that record.
proof fn lemma_filter_skips_one(files: Seq<(Seq<char>, Seq<char>)>, path: Seq<char>, k: int)
    requires
        0 <= k < files.len(),
        files[k].0 == path,
        at_most_once(files, path),
    ensures
        files.filter(|r: (Seq<char>, Seq<char>)| r.0 != path) =~= files.remove(k),
    decreases files.len(),
{
    let f = |r: (Seq<char>, Seq<char>)| r.0 != path;
    reveal_with_fuel(Seq::filter, 1);
    let init = files.drop_last();
    if k == files.len() - 1 {
        assert(files.remove(k) =~= init);
        assert forall|i: int| 0 <= i < init.len() implies init[i].0 != path by {
            assert(init[i] == files[i]);
        }
        lemma_filter_keeps_all(init, path);
    } else {
        assert(init[k] == files[k]);
        assert(at_most_once(init, path)) by {
            assert forall|i: int, j: int|
                0 <= i < init.len() && 0 <= j < init.len() && init[i].0 == path && init[j].0
                    == path implies i == j by {
                assert(init[i] == files[i]);
                assert(init[j] == files[j]);
            }
        }
        lemma_filter_skips_one(init, path, k);
        assert(files.last().0 != path);
        assert(files.remove(k) =~= init.remove(k).push(files.last()));
    }
}

/// Filtering a list without records at `path` keeps it whole.
proof fn lemma_filter_keeps_all(files: Seq<(Seq<char>, Seq<char>)>, path: Seq<char>)
    requires
        forall|i: int| 0 <= i < files.len() ==> files[i].0 != path,
    ensures
        files.filter(|r: (Seq<char>, Seq<char>)| r.0 != path) =~= files,
    decreases files.len(),
{
    reveal_with_fuel(Seq::filter, 1);
    if files.len() > 0 {
        let init = files.drop_last();
        assert forall|i: int| 0 <= i < init.len() implies init[i].0 != path by {
            assert(init[i] == files[i]);
        }
        lemma_filter_keeps_all(init, path);
        assert(files =~= init.push(files.last()));
    }
}

} // verus!
