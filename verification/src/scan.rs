//! Directory-scan logic: which scanned entries are kept, how the name to
//! path mapping is built (keys unique, last write wins), and the folder
//! listing with its lexicographically sorted output.

use vstd::prelude::*;
use vstd::seq_lib::lemma_multiset_commutative;
use crate::names::spec_extension;
use crate::names::spec_ext_match;
use crate::names::last_dot;
use crate::strings::lex_lt;
use crate::strings::lex_le;
use crate::strings::lemma_lex_total;
use crate::strings::lemma_lex_le_trans;
use crate::OrganizeError;

verus! {

/// What one directory entry is: a regular file, a directory (symlinks are
/// resolved by the caller when it stats the entry), something else, or an
/// entry whose metadata could not be read at all.
#[derive(Clone, Copy, Debug, PartialEq, Eq, Structural)]
pub enum EntryKind {
    File,
    Dir,
    Other,
    Unknown,
}

/// One entry of a non-recursive directory scan, as plain values.
#[derive(Clone, Debug)]
pub struct ScanEntry {
    pub name: String,
    pub path: String,
    pub kind: EntryKind,
}

/// A kept file: its name paired with its absolute path.
#[derive(Clone, Debug)]
pub struct FileEntry {
    pub name: String,
    pub path: String,
}

/// Mathematical model of a scan entry.
pub struct EntryModel {
    pub name: Seq<char>,
    pub path: Seq<char>,
    pub kind: EntryKind,
}

/// Mathematical model of a kept file.
pub struct FileModel {
    pub name: Seq<char>,
    pub path: Seq<char>,
}

impl View for ScanEntry {
    type V = EntryModel;

    open spec fn view(&self) -> EntryModel {
        EntryModel { name: self.name@, path: self.path@, kind: self.kind }
    }
}

impl View for FileEntry {
    type V = FileModel;

    open spec fn view(&self) -> FileModel {
        FileModel { name: self.name@, path: self.path@ }
    }
}

/// The views of a sequence of scan entries.
pub open spec fn entries_view(v: Seq<ScanEntry>) -> Seq<EntryModel> {
    v.map_values(|e: ScanEntry| e@)
}

/// The views of a sequence of kept files.
pub open spec fn files_view(v: Seq<FileEntry>) -> Seq<FileModel> {
    v.map_values(|f: FileEntry| f@)
}

/// The views of a sequence of strings.
pub open spec fn strs_view(v: Seq<String>) -> Seq<Seq<char>> {
    v.map_values(|s: String| s@)
}

/// Whether a scanned entry is kept: it is a regular file whose name has an
/// extension that matches the whitelist case-insensitively.
pub open spec fn spec_selected(e: EntryModel, exts: Seq<Seq<char>>) -> bool {
    e.kind is File && match spec_extension(e.name) {
        Some(x) => spec_ext_match(x, exts),
        None => false,
    }
}

/// A file whose name holds no `.` has no extension and is never kept,
/// whatever the whitelist holds.
pub proof fn lemma_no_extension_never_selected(e: EntryModel, exts: Seq<Seq<char>>)
    requires
        last_dot(e.name) < 0,
    ensures
        !spec_selected(e, exts),
{
}

/// The index of the first element of `m` named `name`, or `-1`.
pub open spec fn first_with_name(m: Seq<FileModel>, name: Seq<char>) -> int
    decreases m.len(),
{
    if m.len() == 0 {
        -1
    } else if m[0].name == name {
        0
    } else {
        let r = first_with_name(m.drop_first(), name);
        if r < 0 {
            -1
        } else {
            r + 1
        }
    }
}

/// What `first_with_name` returns: the first index bearing the name, or
/// `-1` when no element bears it.
pub proof fn lemma_first_with_name(m: Seq<FileModel>, name: Seq<char>)
    ensures
        first_with_name(m, name) >= 0 ==> {
            let i = first_with_name(m, name);
            0 <= i < m.len() && m[i].name == name && forall|k: int|
                0 <= k < i ==> m[k].name != name
        },
        first_with_name(m, name) < 0 ==> forall|k: int| 0 <= k < m.len() ==> m[k].name != name,
    decreases m.len(),
{
    if m.len() == 0 {
    } else if m[0].name == name {
    } else {
        lemma_first_with_name(m.drop_first(), name);
        assert forall|k: int| 1 <= k < m.len() implies m[k] == m.drop_first()[k - 1] by {}
    }
}

/// Stores `path` under `name`: replaces the existing element of that name in
/// place, or appends a new one.
pub open spec fn spec_upsert(m: Seq<FileModel>, name: Seq<char>, path: Seq<char>) -> Seq<
    FileModel,
> {
    let i = first_with_name(m, name);
    if i >= 0 {
        m.update(i, FileModel { name, path })
    } else {
        m.push(FileModel { name, path })
    }
}

/// The mapping built from a scan: kept entries in encounter order, keyed by
/// name, the last entry of a duplicated name winning.
pub open spec fn spec_collect(entries: Seq<EntryModel>, exts: Seq<Seq<char>>) -> Seq<FileModel>
    decreases entries.len(),
{
    if entries.len() == 0 {
        Seq::empty()
    } else {
        let prev = spec_collect(entries.drop_last(), exts);
        let e = entries.last();
        if spec_selected(e, exts) {
            spec_upsert(prev, e.name, e.path)
        } else {
            prev
        }
    }
}

/// No two elements bear the same name.
pub open spec fn unique_names(m: Seq<FileModel>) -> bool {
    forall|i: int, j: int| 0 <= i < j < m.len() ==> m[i].name != m[j].name
}

/// The scan mapping keys are unique.
pub proof fn lemma_collect_unique(entries: Seq<EntryModel>, exts: Seq<Seq<char>>)
    ensures
        unique_names(spec_collect(entries, exts)),
    decreases entries.len(),
{
    if entries.len() > 0 {
        lemma_collect_unique(entries.drop_last(), exts);
        let prev = spec_collect(entries.drop_last(), exts);
        let e = entries.last();
        if spec_selected(e, exts) {
            lemma_first_with_name(prev, e.name);
            let i = first_with_name(prev, e.name);
            if i >= 0 {
                let upd = prev.update(i, FileModel { name: e.name, path: e.path });
                assert forall|a: int, b: int| 0 <= a < b < upd.len() implies upd[a].name
                    != upd[b].name by {
                    assert(upd[a].name == prev[a].name);
                    assert(upd[b].name == prev[b].name);
                }
            }
        }
    }
}

/// Every element of the scan mapping comes from a kept entry of the scan:
/// same name, same path. In particular a file with no extension, never
/// being kept, never appears in it.
pub open spec fn comes_from_scan(
    entries: Seq<EntryModel>,
    exts: Seq<Seq<char>>,
    f: FileModel,
) -> bool {
    exists|k: int|
        0 <= k < entries.len() && #[trigger] spec_selected(entries[k], exts) && entries[k].name
            == f.name && entries[k].path == f.path
}

pub proof fn lemma_collect_from_selected(entries: Seq<EntryModel>, exts: Seq<Seq<char>>)
    ensures
        forall|i: int|
            0 <= i < spec_collect(entries, exts).len() ==> comes_from_scan(
                entries,
                exts,
                #[trigger] spec_collect(entries, exts)[i],
            ),
    decreases entries.len(),
{
    if entries.len() > 0 {
        lemma_collect_from_selected(entries.drop_last(), exts);
        let prev = spec_collect(entries.drop_last(), exts);
        let e = entries.last();
        let cur = spec_collect(entries, exts);
        assert forall|i: int| 0 <= i < cur.len() implies comes_from_scan(
            entries,
            exts,
            cur[i],
        ) by {
            if spec_selected(e, exts) {
                lemma_first_with_name(prev, e.name);
                let u = first_with_name(prev, e.name);
                if (u >= 0 && i == u) || (u < 0 && i == prev.len()) {
                    assert(cur[i] == FileModel { name: e.name, path: e.path });
                    assert(spec_selected(entries[entries.len() - 1], exts));
                } else {
                    assert(cur[i] == prev[i]);
                    assert(comes_from_scan(entries.drop_last(), exts, prev[i]));
                    let k = choose|k: int|
                        0 <= k < entries.drop_last().len() && #[trigger] spec_selected(
                            entries.drop_last()[k],
                            exts,
                        ) && entries.drop_last()[k].name == prev[i].name
                            && entries.drop_last()[k].path == prev[i].path;
                    assert(entries[k] == entries.drop_last()[k]);
                    assert(spec_selected(entries[k], exts));
                }
            } else {
                assert(cur[i] == prev[i]);
                assert(comes_from_scan(entries.drop_last(), exts, prev[i]));
                let k = choose|k: int|
                    0 <= k < entries.drop_last().len() && #[trigger] spec_selected(
                        entries.drop_last()[k],
                        exts,
                    ) && entries.drop_last()[k].name == prev[i].name && entries.drop_last()[k].path
                        == prev[i].path;
                assert(entries[k] == entries.drop_last()[k]);
                assert(spec_selected(entries[k], exts));
            }
        }
    }
}

/// Scans the given entries and keeps the files whose extension matches the
/// whitelist, keyed by file name, the last duplicate winning.
pub fn collect_files(entries: &Vec<ScanEntry>, extensions: &Vec<String>) -> (r: Vec<FileEntry>)
    ensures
        files_view(r@) == spec_collect(entries_view(entries@), strs_view(extensions@)),
        unique_names(files_view(r@)),
{
    let ghost exts = strs_view(extensions@);
    let ghost evs = entries_view(entries@);
    let mut out: Vec<FileEntry> = Vec::new();
    let mut i: usize = 0;
    proof {
        assert(evs.subrange(0, 0) =~= Seq::<EntryModel>::empty());
        assert(files_view(out@) =~= Seq::<FileModel>::empty());
    }
    while i < entries.len()
        invariant
            i <= entries.len(),
            exts == strs_view(extensions@),
            evs == entries_view(entries@),
            files_view(out@) == spec_collect(evs.subrange(0, i as int), exts),
            unique_names(files_view(out@)),
        decreases entries.len() - i,
    {
        proof {
            assert(evs.subrange(0, i + 1).drop_last() =~= evs.subrange(0, i as int));
            assert(evs.subrange(0, i + 1).last() == entries@[i as int]@);
        }
        let e = &entries[i];
        let keep: bool = match e.kind {
            EntryKind::File => {
                match crate::names::extract_extension(e.name.as_str()) {
                    Some(x) => crate::names::is_extension_match(x.as_str(), extensions),
                    None => false,
                }
            },
            _ => false,
        };
        assert(keep == spec_selected(e@, exts));
        if keep {
            let ghost prev = files_view(out@);
            let mut j: usize = 0;
            let mut replaced = false;
            while j < out.len() && !replaced
                invariant
                    j <= out.len(),
                    prev == files_view(out@) || replaced,
                    !replaced ==> prev == files_view(out@),
                    !replaced ==> forall|k: int| 0 <= k < j ==> prev[k].name != e.name@,
                    replaced ==> j > 0 && 0 <= j - 1 < prev.len() && prev[j - 1].name == e.name@
                        && (forall|k: int| 0 <= k < j - 1 ==> prev[k].name != e.name@)
                        && files_view(out@) == prev.update(
                        j - 1,
                        FileModel { name: e.name@, path: e.path@ },
                    ),
                decreases out.len() - j,
            {
                if out[j].name == e.name {
                    out[j] = FileEntry { name: e.name.clone(), path: e.path.clone() };
                    proof {
                        assert(files_view(out@) =~= prev.update(
                            j as int,
                            FileModel { name: e.name@, path: e.path@ },
                        ));
                    }
                    replaced = true;
                }
                j = j + 1;
            }
            if !replaced {
                out.push(FileEntry { name: e.name.clone(), path: e.path.clone() });
                proof {
                    assert(files_view(out@) =~= prev.push(
                        FileModel { name: e.name@, path: e.path@ },
                    ));
                }
            }
            proof {
                lemma_first_with_name(prev, e.name@);
                let u = first_with_name(prev, e.name@);
                if replaced {
                    assert(u == j - 1);
                } else {
                    assert(u < 0);
                }
                assert(files_view(out@) == spec_upsert(prev, e.name@, e.path@));
                lemma_collect_unique(evs.subrange(0, i + 1), exts);
            }
        }
        i = i + 1;
    }
    proof {
        assert(evs.subrange(0, entries@.len() as int) =~= evs);
    }
    out
}

/// Checks that a path both exists and is a directory, as reported by the
/// caller's metadata lookup.
pub fn validate_path(exists: bool, is_dir: bool, path: &str) -> (r: Result<(), OrganizeError>)
    ensures
        match r {
            Ok(()) => exists && is_dir,
            Err(OrganizeError::PathNotFound { path: p }) => !exists && p@ == path@,
            Err(OrganizeError::NotADirectory { path: p }) => exists && !is_dir && p@ == path@,
            Err(_) => false,
        },
{
    if !exists {
        Err(OrganizeError::PathNotFound { path: String::from_str(path) })
    } else if !is_dir {
        Err(OrganizeError::NotADirectory { path: String::from_str(path) })
    } else {
        Ok(())
    }
}

/// The names of the directory entries, in encounter order.
pub open spec fn spec_dir_names(entries: Seq<EntryModel>) -> Seq<Seq<char>>
    decreases entries.len(),
{
    if entries.len() == 0 {
        Seq::empty()
    } else {
        let prev = spec_dir_names(entries.drop_last());
        let e = entries.last();
        if e.kind is Dir {
            prev.push(e.name)
        } else {
            prev
        }
    }
}

/// Whether a sequence of strings is sorted lexicographically.
pub open spec fn sorted_strs(s: Seq<Seq<char>>) -> bool {
    forall|i: int, j: int| 0 <= i < j < s.len() ==> lex_le(s[i], s[j])
}

/// Inserting an element anywhere in a sequence adds exactly it to the
/// multiset of elements.
proof fn lemma_insert_multiset(s: Seq<Seq<char>>, i: int, a: Seq<char>)
    requires
        0 <= i <= s.len(),
    ensures
        s.insert(i, a).to_multiset() == s.to_multiset().insert(a),
{
    broadcast use vstd::seq_lib::group_to_multiset_ensures;

    let l = s.subrange(0, i);
    let r = s.subrange(i, s.len() as int);
    assert(s =~= l + r);
    assert(s.insert(i, a) =~= l.push(a) + r);
    lemma_multiset_commutative(l.push(a), r);
    lemma_multiset_commutative(l, r);
    assert(l.push(a).to_multiset() =~= l.to_multiset().insert(a));
    assert(s.insert(i, a).to_multiset() =~= s.to_multiset().insert(a));
}

/// Inserts a string into a sorted vector, keeping it sorted.
fn insert_sorted(out: &mut Vec<String>, e: String)
    requires
        sorted_strs(strs_view(old(out)@)),
    ensures
        sorted_strs(strs_view(final(out)@)),
        strs_view(final(out)@).to_multiset() == strs_view(old(out)@).to_multiset().insert(e@),
{
    let ghost pre = strs_view(out@);
    let mut p: usize = 0;
    while p < out.len() && !crate::strings::str_lt(e.as_str(), out[p].as_str())
        invariant
            p <= out.len(),
            pre == strs_view(out@),
            forall|k: int| 0 <= k < p ==> !lex_lt(e@, pre[k]),
        decreases out.len() - p,
    {
        p = p + 1;
    }
    let ghost pos = p as int;
    out.insert(p, e);
    proof {
        assert(strs_view(out@) =~= pre.insert(pos, e@));
        lemma_insert_multiset(pre, pos, e@);
        let cur = strs_view(out@);
        assert forall|i: int, j: int| 0 <= i < j < cur.len() implies lex_le(cur[i], cur[j]) by {
            if j < pos {
                assert(cur[i] == pre[i] && cur[j] == pre[j]);
            } else if i > pos {
                assert(cur[i] == pre[i - 1] && cur[j] == pre[j - 1]);
            } else if i < pos && j == pos {
                lemma_lex_total(e@, pre[i]);
            } else if i < pos && j > pos {
                assert(cur[i] == pre[i] && cur[j] == pre[j - 1]);
                assert(lex_le(pre[i], pre[j - 1]));
            } else if i == pos && j > pos {
                assert(cur[i] == e@ && cur[j] == pre[j - 1]);
                assert(lex_lt(e@, pre[pos]));
                if j - 1 > pos {
                    assert(lex_le(pre[pos], pre[j - 1]));
                    lemma_lex_le_trans(e@, pre[pos], pre[j - 1]);
                }
            }
        }
    }
}

/// Sorts the strings lexicographically by code point.
fn sort_strings(v: Vec<String>) -> (r: Vec<String>)
    ensures
        sorted_strs(strs_view(r@)),
        strs_view(r@).to_multiset() == strs_view(v@).to_multiset(),
{
    broadcast use vstd::seq_lib::group_to_multiset_ensures;

    let mut out: Vec<String> = Vec::new();
    let mut i: usize = 0;
    proof {
        assert(strs_view(v@.subrange(0, 0)) =~= Seq::<Seq<char>>::empty());
        assert(strs_view(out@) =~= Seq::<Seq<char>>::empty());
        assert(strs_view(out@).to_multiset() =~= strs_view(v@.subrange(0, 0)).to_multiset());
    }
    while i < v.len()
        invariant
            i <= v.len(),
            sorted_strs(strs_view(out@)),
            strs_view(out@).to_multiset() == strs_view(v@.subrange(0, i as int)).to_multiset(),
        decreases v.len() - i,
    {
        let e = v[i].clone();
        proof {
            assert(strs_view(v@.subrange(0, i + 1)) =~= strs_view(v@.subrange(0, i as int)).push(
                v@[i as int]@,
            ));
            strs_view(v@.subrange(0, i as int)).to_multiset_ensures();
            assert(strs_view(v@.subrange(0, i as int)).push(v@[i as int]@).to_multiset()
                =~= strs_view(v@.subrange(0, i as int)).to_multiset().insert(v@[i as int]@));
        }
        insert_sorted(&mut out, e);
        i = i + 1;
    }
    proof {
        assert(v@.subrange(0, v@.len() as int) =~= v@);
    }
    out
}

/// Lists the immediate subdirectories of a scanned folder: fails when the
/// path does not exist or is not a directory, and otherwise returns the
/// names of the entries that are directories, lexicographically sorted.
/// Entries whose metadata could not be read are silently skipped.
pub fn list_folder(path: &str, exists: bool, is_dir: bool, entries: &Vec<ScanEntry>) -> (r: Result<
    Vec<String>,
    OrganizeError,
>)
    ensures
        match r {
            Ok(names) => exists && is_dir && sorted_strs(strs_view(names@)) && strs_view(
                names@,
            ).to_multiset() == spec_dir_names(entries_view(entries@)).to_multiset(),
            Err(OrganizeError::PathNotFound { path: p }) => !exists && p@ == path@,
            Err(OrganizeError::NotADirectory { path: p }) => exists && !is_dir && p@ == path@,
            Err(_) => false,
        },
{
    broadcast use vstd::seq_lib::group_to_multiset_ensures;

    match validate_path(exists, is_dir, path) {
        Err(e) => Err(e),
        Ok(()) => {
            let ghost evs = entries_view(entries@);
            let mut names: Vec<String> = Vec::new();
            let mut i: usize = 0;
            proof {
                assert(evs.subrange(0, 0) =~= Seq::<EntryModel>::empty());
                assert(strs_view(names@) =~= Seq::<Seq<char>>::empty());
            }
            while i < entries.len()
                invariant
                    i <= entries.len(),
                    evs == entries_view(entries@),
                    strs_view(names@) == spec_dir_names(evs.subrange(0, i as int)),
                decreases entries.len() - i,
            {
                proof {
                    assert(evs.subrange(0, i + 1).drop_last() =~= evs.subrange(0, i as int));
                    assert(evs.subrange(0, i + 1).last() == entries@[i as int]@);
                }
                let e = &entries[i];
                // an entry whose metadata could not be read is ignored, and
                // scanning continues: a deliberate best-effort policy
                match e.kind {
                    EntryKind::Dir => {
                        names.push(e.name.clone());
                        proof {
                            assert(strs_view(names@) =~= spec_dir_names(
                                evs.subrange(0, i as int),
                            ).push(e.name@));
                        }
                    },
                    _ => {},
                }
                i = i + 1;
            }
            proof {
                assert(evs.subrange(0, entries@.len() as int) =~= evs);
            }
            Ok(sort_strings(names))
        },
    }
}

} // verus!
