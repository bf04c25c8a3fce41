//! Archive inspection and extraction: reads a zip central directory, rejects
//! entries that would escape the extraction root, and produces a read-only
//! summary of the archive's contents.
use crate::pathstr::ascii_lower;
use crate::pathstr::ext_of;
use crate::pathstr::extension_of;
use crate::pathstr::is_dir_name;
use crate::pathstr::join_parts;
use crate::pathstr::lower_seq;
use crate::pathstr::resolve_entry_path;
use crate::pathstr::resolved_entry_path;
use crate::pathstr::spec_is_dir_name;
use crate::pathstr::spec_join;
use crate::pathstr::views_of;
use crate::zipio::all_entries_servable;
use crate::zipio::reader_entries;
use crate::zipio::reader_entry_ok;
use crate::zipio::zip_entry_ok;
use crate::zipio::zip_parses;
use crate::zipio::ZipReader;
use crate::zipio::zip_entries_of;
use crate::zipio::zip_entry_name;
use crate::zipio::zip_extract_all;
use crate::zipio::zip_len;
use crate::zipio::zip_open;
use vstd::prelude::*;

verus! {

/// Why an archive could not be inspected or extracted.
#[derive(Debug, Clone)]
pub enum ArchiveError {
    /// The central directory cannot be parsed.
    Corrupt(String),
    /// An entry's stored path cannot be safely resolved below an extraction
    /// root; the offending name is carried.
    InvalidEntryName(String),
    /// An entry could not be materialized on disk.
    Io(String),
}

/// A read-only summary of a zip archive: the resolved relative paths of its
/// file entries in directory order, the distinct top-level path components of
/// all entries, a histogram of lowercased file extensions, and the raw entry
/// count including directories.
#[derive(Debug, Clone)]
pub struct ArchiveInfo {
    pub files: Vec<String>,
    pub top_level_dirs: Vec<String>,
    pub file_counts_by_extension: Vec<(String, usize)>,
    pub total_files: usize,
}

/// The resolved relative path an entry occupies below the extraction root.
pub open spec fn spec_entry_file_path(e: Seq<char>) -> Seq<char> {
    spec_join(resolved_entry_path(e).unwrap())
}

/// The file paths (directory entries excluded) of a list of entry names.
pub open spec fn spec_files(entries: Seq<Seq<char>>) -> Seq<Seq<char>>
    decreases entries.len(),
{
    if entries.len() == 0 {
        Seq::empty()
    } else {
        let rest = spec_files(entries.drop_last());
        if spec_is_dir_name(entries.last()) {
            rest
        } else {
            rest.push(spec_entry_file_path(entries.last()))
        }
    }
}

/// The top-level path component of an entry, if it has one.
pub open spec fn spec_top_of(e: Seq<char>) -> Option<Seq<char>> {
    match resolved_entry_path(e) {
        Some(p) => if p.len() > 0 {
            Some(p[0])
        } else {
            None
        },
        None => None,
    }
}

/// The set of distinct top-level components of a list of entry names.
pub open spec fn spec_tops(entries: Seq<Seq<char>>) -> Set<Seq<char>>
    decreases entries.len(),
{
    if entries.len() == 0 {
        Set::empty()
    } else {
        let rest = spec_tops(entries.drop_last());
        match spec_top_of(entries.last()) {
            Some(d) => rest.insert(d),
            None => rest,
        }
    }
}

/// The lowercased extension under which a file entry is counted, if any.
pub open spec fn spec_ext_key(e: Seq<char>) -> Option<Seq<char>> {
    if spec_is_dir_name(e) {
        None
    } else {
        match resolved_entry_path(e) {
            Some(p) => if p.len() > 0 {
                match ext_of(p.last()) {
                    Some(x) => Some(lower_seq(x)),
                    None => None,
                }
            } else {
                None
            },
            None => None,
        }
    }
}

/// The histogram of lowercased extensions over the file entries.
pub open spec fn spec_ext_counts(entries: Seq<Seq<char>>) -> Map<Seq<char>, nat>
    decreases entries.len(),
{
    if entries.len() == 0 {
        Map::empty()
    } else {
        let rest = spec_ext_counts(entries.drop_last());
        match spec_ext_key(entries.last()) {
            Some(k) => rest.insert(
                k,
                (if rest.dom().contains(k) {
                    rest[k]
                } else {
                    0
                }) + 1,
            ),
            None => rest,
        }
    }
}

/// Whether every entry name resolves safely below an extraction root.
pub open spec fn all_entries_safe(entries: Seq<Seq<char>>) -> bool {
    forall|i: int| 0 <= i < entries.len() ==> resolved_entry_path(#[trigger] entries[i]) is Some
}

/// Whether no two file entries land on the same path below the extraction
/// root: the resolved file paths are pairwise distinct.
pub open spec fn no_duplicate_file_paths(entries: Seq<Seq<char>>) -> bool {
    forall|a: int, b: int|
        0 <= a < b < spec_files(entries).len() ==> spec_files(entries)[a] != spec_files(
            entries,
        )[b]
}

/// The set of character sequences a list of strings holds.
pub open spec fn strings_set(s: Seq<String>) -> Set<Seq<char>>
    decreases s.len(),
{
    if s.len() == 0 {
        Set::empty()
    } else {
        strings_set(s.drop_last()).insert(s.last()@)
    }
}

/// The histogram held by a key-distinct list of pairs.
pub open spec fn counts_map(s: Seq<(String, usize)>) -> Map<Seq<char>, nat>
    decreases s.len(),
{
    if s.len() == 0 {
        Map::empty()
    } else {
        counts_map(s.drop_last()).insert(s.last().0@, s.last().1 as nat)
    }
}

impl ArchiveInfo {
    /// The file paths as character sequences.
    pub open spec fn files_view(self) -> Seq<Seq<char>> {
        views_of(self.files@)
    }

    /// The top-level components as a set.
    pub open spec fn tops_view(self) -> Set<Seq<char>> {
        strings_set(self.top_level_dirs@)
    }

    /// The extension histogram as a map.
    pub open spec fn ext_view(self) -> Map<Seq<char>, nat> {
        counts_map(self.file_counts_by_extension@)
    }

    /// Internal consistency: top-level components and histogram keys are
    /// listed once each, every count is positive and no larger than the
    /// number of files, and the raw entry count covers the files.
    pub open spec fn wf(self) -> bool {
        &&& forall|i: int, j: int|
            0 <= i < j < self.top_level_dirs@.len() ==> self.top_level_dirs@[i]@
                != self.top_level_dirs@[j]@
        &&& forall|i: int, j: int|
            0 <= i < j < self.file_counts_by_extension@.len()
                ==> self.file_counts_by_extension@[i].0@ != self.file_counts_by_extension@[j].0@
        &&& forall|i: int|
            0 <= i < self.file_counts_by_extension@.len() ==> 1 <= (
            #[trigger] self.file_counts_by_extension@[i]).1 <= self.files@.len()
        &&& self.total_files >= self.files@.len()
    }

    /// This summary describes exactly the given list of entry names.
    pub open spec fn is_summary_of(self, entries: Seq<Seq<char>>) -> bool {
        &&& self.files_view() == spec_files(entries)
        &&& self.tops_view() == spec_tops(entries)
        &&& self.ext_view() == spec_ext_counts(entries)
        &&& self.total_files == entries.len()
    }

    /// An empty summary: what an archive with no entries looks like.
    pub fn new() -> (r: ArchiveInfo)
        ensures
            r.wf(),
            r.is_summary_of(Seq::empty()),
    {
        let r = ArchiveInfo {
            files: Vec::new(),
            top_level_dirs: Vec::new(),
            file_counts_by_extension: Vec::new(),
            total_files: 0,
        };
        proof {
            assert(r.files_view() =~= spec_files(Seq::empty()));
            assert(r.tops_view() =~= spec_tops(Seq::empty()));
            assert(r.ext_view() =~= spec_ext_counts(Seq::empty()));
        }
        r
    }

    /// How many files carry the given extension, compared case-insensitively.
    pub fn count_ext(&self, ext: &str) -> (r: usize)
        requires
            self.wf(),
        ensures
            r as nat == (if self.ext_view().dom().contains(lower_seq(ext@)) {
                self.ext_view()[lower_seq(ext@)]
            } else {
                0
            }),
    {
        let key = ascii_lower(ext);
        let mut i: usize = 0;
        while i < self.file_counts_by_extension.len()
            invariant
                self.wf(),
                key@ == lower_seq(ext@),
                i <= self.file_counts_by_extension@.len(),
                forall|k: int|
                    0 <= k < i ==> (#[trigger] self.file_counts_by_extension@[k]).0@ != key@,
            decreases self.file_counts_by_extension@.len() - i,
        {
            if self.file_counts_by_extension[i].0.eq(&key) {
                proof {
                    lemma_counts_map_lookup(self.file_counts_by_extension@, i as int);
                }
                return self.file_counts_by_extension[i].1;
            }
            i += 1;
        }
        proof {
            lemma_counts_map_absent(self.file_counts_by_extension@, key@);
        }
        0
    }

    /// The single top-level directory of the archive, when the top-level
    /// component set has exactly one member.
    pub fn single_top_level_dir(&self) -> (r: Option<String>)
        ensures
            match r {
                Some(d) => self.top_level_dirs@.len() == 1 && d@ == self.top_level_dirs@[0]@,
                None => self.top_level_dirs@.len() != 1,
            },
    {
        if self.top_level_dirs.len() == 1 {
            Some(self.top_level_dirs[0].clone())
        } else {
            None
        }
    }
}

impl Default for ArchiveInfo {
    /// The summary of an archive with no entries.
    fn default() -> (r: ArchiveInfo)
        ensures
            r.wf(),
            r.is_summary_of(Seq::empty()),
    {
        ArchiveInfo::new()
    }
}

/// Looking a key up in a key-distinct pair list finds the pair's own count.
proof fn lemma_counts_map_lookup(s: Seq<(String, usize)>, i: int)
    requires
        0 <= i < s.len(),
        forall|p: int, q: int| 0 <= p < q < s.len() ==> s[p].0@ != s[q].0@,
    ensures
        counts_map(s).dom().contains(s[i].0@),
        counts_map(s)[s[i].0@] == s[i].1 as nat,
    decreases s.len(),
{
    if i < s.len() - 1 {
        lemma_counts_map_lookup(s.drop_last(), i);
    }
}

/// A key no pair carries is absent from the histogram.
proof fn lemma_counts_map_absent(s: Seq<(String, usize)>, k: Seq<char>)
    requires
        forall|p: int| 0 <= p < s.len() ==> (#[trigger] s[p]).0@ != k,
    ensures
        !counts_map(s).dom().contains(k),
    decreases s.len(),
{
    if s.len() > 0 {
        lemma_counts_map_absent(s.drop_last(), k);
    }
}


/// Membership in the set a list of strings holds.
proof fn lemma_strings_set_contains(s: Seq<String>, x: Seq<char>)
    ensures
        strings_set(s).contains(x) <==> (exists|i: int| 0 <= i < s.len() && s[i]@ == x),
    decreases s.len(),
{
    if s.len() > 0 {
        lemma_strings_set_contains(s.drop_last(), x);
        if s.last()@ == x {
            assert(s[s.len() - 1]@ == x);
        } else if exists|i: int| 0 <= i < s.len() && s[i]@ == x {
            let i = choose|i: int| 0 <= i < s.len() && s[i]@ == x;
            if i < s.len() - 1 {
                assert(s.drop_last()[i]@ == x);
            }
        }
    }
}

/// Records a top-level component, keeping the list duplicate-free.
fn insert_top(tops: &mut Vec<String>, d: &String)
    requires
        forall|i: int, j: int| 0 <= i < j < old(tops)@.len() ==> old(tops)@[i]@ != old(tops)@[j]@,
    ensures
        forall|i: int, j: int|
            0 <= i < j < final(tops)@.len() ==> final(tops)@[i]@ != final(tops)@[j]@,
        strings_set(final(tops)@) == strings_set(old(tops)@).insert(d@),
{
    let mut i: usize = 0;
    while i < tops.len()
        invariant
            i <= tops@.len(),
            tops@ == old(tops)@,
            forall|a: int, b: int| 0 <= a < b < tops@.len() ==> tops@[a]@ != tops@[b]@,
            forall|k: int| 0 <= k < i ==> (#[trigger] tops@[k])@ != d@,
        decreases tops@.len() - i,
    {
        if tops[i].eq(d) {
            proof {
                lemma_strings_set_contains(tops@, d@);
                assert(strings_set(tops@).contains(d@));
                assert(strings_set(tops@) =~= strings_set(tops@).insert(d@));
            }
            return ;
        }
        i += 1;
    }
    tops.push(d.clone());
    proof {
        assert(final(tops)@.drop_last() =~= old(tops)@);
        assert(forall|k: int| 0 <= k < old(tops)@.len() ==> (#[trigger] old(tops)@[k])@ != d@);
    }
}

/// The histogram after rewriting the count of one key.
proof fn lemma_counts_map_update(s: Seq<(String, usize)>, j: int, p: (String, usize))
    requires
        0 <= j < s.len(),
        forall|a: int, b: int| 0 <= a < b < s.len() ==> s[a].0@ != s[b].0@,
        p.0@ == s[j].0@,
    ensures
        counts_map(s.update(j, p)) == counts_map(s).insert(p.0@, p.1 as nat),
    decreases s.len(),
{
    let t = s.update(j, p);
    if j == s.len() - 1 {
        assert(t.drop_last() =~= s.drop_last());
        assert(t.last() == p);
        assert(counts_map(t) =~= counts_map(s).insert(p.0@, p.1 as nat)) by {
            assert(counts_map(t) == counts_map(s.drop_last()).insert(p.0@, p.1 as nat));
        }
    } else {
        assert(t.drop_last() =~= s.drop_last().update(j, p));
        lemma_counts_map_update(s.drop_last(), j, p);
        assert(t.last() == s.last());
        assert(s.last().0@ != p.0@) by {
            assert(s[j].0@ != s[s.len() - 1].0@);
        }
        assert(counts_map(t) =~= counts_map(s).insert(p.0@, p.1 as nat));
    }
}

/// Adds one occurrence of `key` to a key-distinct histogram whose counts are
/// bounded by `limit`.
fn bump_count(pairs: &mut Vec<(String, usize)>, key: String, limit: Ghost<int>)
    requires
        forall|a: int, b: int|
            0 <= a < b < old(pairs)@.len() ==> old(pairs)@[a].0@ != old(pairs)@[b].0@,
        forall|a: int|
            0 <= a < old(pairs)@.len() ==> 1 <= (#[trigger] old(pairs)@[a]).1 <= limit@,
        0 <= limit@ < usize::MAX,
    ensures
        forall|a: int, b: int|
            0 <= a < b < final(pairs)@.len() ==> final(pairs)@[a].0@ != final(pairs)@[b].0@,
        forall|a: int|
            0 <= a < final(pairs)@.len() ==> 1 <= (#[trigger] final(pairs)@[a]).1 <= limit@ + 1,
        counts_map(final(pairs)@) == counts_map(old(pairs)@).insert(
            key@,
            (if counts_map(old(pairs)@).dom().contains(key@) {
                counts_map(old(pairs)@)[key@]
            } else {
                0
            }) + 1,
        ),
{
    let mut i: usize = 0;
    while i < pairs.len()
        invariant
            i <= pairs@.len(),
            pairs@ == old(pairs)@,
            limit@ < usize::MAX,
            forall|a: int, b: int| 0 <= a < b < pairs@.len() ==> pairs@[a].0@ != pairs@[b].0@,
            forall|a: int| 0 <= a < pairs@.len() ==> 1 <= (#[trigger] pairs@[a]).1 <= limit@,
            forall|k: int| 0 <= k < i ==> (#[trigger] pairs@[k]).0@ != key@,
        decreases pairs@.len() - i,
    {
        if pairs[i].0.eq(&key) {
            let c = pairs[i].1;
            pairs[i] = (key, c + 1);
            proof {
                lemma_counts_map_lookup(old(pairs)@, i as int);
                lemma_counts_map_update(old(pairs)@, i as int, final(pairs)@[i as int]);
                assert(final(pairs)@ =~= old(pairs)@.update(i as int, final(pairs)@[i as int]));
            }
            return ;
        }
        i += 1;
    }
    pairs.push((key, 1));
    proof {
        lemma_counts_map_absent(old(pairs)@, key@);
        assert(final(pairs)@.drop_last() =~= old(pairs)@);
        assert(forall|k: int| 0 <= k < old(pairs)@.len() ==> (#[trigger] old(pairs)@[k]).0@ != key@);
    }
}

/// Folds one entry name into a summary under construction: on success the
/// summary describes one more entry; on failure the name cannot be safely
/// resolved and the summary is unchanged.
fn summarize_entry(info: &mut ArchiveInfo, name: &str, entries: Ghost<Seq<Seq<char>>>) -> (ok:
    bool)
    requires
        old(info).wf(),
        old(info).is_summary_of(entries@),
        old(info).total_files < usize::MAX,
    ensures
        ok ==> final(info).wf() && final(info).is_summary_of(entries@.push(name@)),
        ok == (resolved_entry_path(name@) is Some),
{
    let ghost pushed = entries@.push(name@);
    proof {
        assert(pushed.drop_last() =~= entries@);
        assert(pushed.last() == name@);
    }
    let parts = match resolve_entry_path(name) {
        Some(p) => p,
        None => { return false; },
    };
    if parts.len() > 0 {
        insert_top(&mut info.top_level_dirs, &parts[0]);
        proof {
            assert(spec_top_of(name@) == Some(parts@[0]@));
        }
    } else {
        proof {
            assert(spec_top_of(name@) is None);
        }
    }
    let is_dir = is_dir_name(name);
    if !is_dir {
        let joined = join_parts(&parts);
        proof {
            assert(joined@ == spec_entry_file_path(name@)) by {
                assert(resolved_entry_path(name@).unwrap() == views_of(parts@));
            }
        }
        info.files.push(joined);
        proof {
            assert(info.files_view() =~= spec_files(entries@).push(spec_entry_file_path(name@)));
        }
        if parts.len() > 0 {
            let last_comp = &parts[parts.len() - 1];
            match extension_of(last_comp.as_str()) {
                Some(e) => {
                    let key = ascii_lower(e.as_str());
                    proof {
                        assert(views_of(parts@).last() == parts@[parts@.len() - 1]@);
                        assert(spec_ext_key(name@) == Some(key@));
                    }
                    bump_count(
                        &mut info.file_counts_by_extension,
                        key,
                        Ghost(info.files@.len() - 1),
                    );
                },
                None => {
                    proof {
                        assert(views_of(parts@).last() == parts@[parts@.len() - 1]@);
                        assert(spec_ext_key(name@) is None);
                    }
                },
            }
        } else {
            proof {
                assert(spec_ext_key(name@) is None);
            }
        }
    } else {
        proof {
            assert(spec_ext_key(name@) is None);
        }
    }
    info.total_files += 1;
    true
}


/// Reads every entry name of an open archive and folds it into a fresh
/// summary. Succeeds exactly when every entry can be served and every name
/// resolves safely; the first unservable entry yields `Corrupt`, the first
/// unsafe name `InvalidEntryName`.
fn summarize_reader(z: &mut ZipReader, bytes: Ghost<Seq<u8>>) -> (r: Result<
    ArchiveInfo,
    ArchiveError,
>)
    requires
        reader_entries(*old(z)) == zip_entries_of(bytes@),
        forall|j: int| #[trigger] reader_entry_ok(*old(z), j) == zip_entry_ok(bytes@, j),
    ensures
        reader_entries(*final(z)) == reader_entries(*old(z)),
        match r {
            Ok(info) => {
                &&& info.wf()
                &&& info.is_summary_of(zip_entries_of(bytes@))
                &&& all_entries_safe(zip_entries_of(bytes@))
                &&& all_entries_servable(bytes@)
            },
            Err(ArchiveError::Corrupt(_)) => !all_entries_servable(bytes@),
            Err(ArchiveError::InvalidEntryName(nm)) => {
                &&& !all_entries_safe(zip_entries_of(bytes@))
                &&& resolved_entry_path(nm@) is None
                &&& zip_entries_of(bytes@).contains(nm@)
            },
            Err(ArchiveError::Io(_)) => false,
        },
{
    let n = zip_len(z);
    let mut info = ArchiveInfo::new();
    let ghost entries = zip_entries_of(bytes@);
    let mut i: usize = 0;
    while i < n
        invariant
            reader_entries(*z) == entries,
            reader_entries(*old(z)) == entries,
            forall|j: int| #[trigger] reader_entry_ok(*z, j) == zip_entry_ok(bytes@, j),
            entries == zip_entries_of(bytes@),
            n == entries.len(),
            i <= n,
            info.wf(),
            info.is_summary_of(entries.take(i as int)),
            all_entries_safe(entries.take(i as int)),
            forall|k: int| 0 <= k < i ==> zip_entry_ok(bytes@, k),
        decreases n - i,
    {
        let name = match zip_entry_name(z, i) {
            Ok(name) => name,
            Err(msg) => {
                proof {
                    assert(!zip_entry_ok(bytes@, i as int));
                }
                return Err(ArchiveError::Corrupt(msg));
            },
        };
        proof {
            assert(entries.take(i + 1).drop_last() =~= entries.take(i as int));
            assert(entries.take(i + 1).last() == entries[i as int]);
        }
        if !summarize_entry(&mut info, name.as_str(), Ghost(entries.take(i as int))) {
            proof {
                assert(entries[i as int] == name@);
            }
            return Err(ArchiveError::InvalidEntryName(name));
        }
        proof {
            assert(entries.take(i + 1) =~= entries.take(i as int).push(name@));
            assert forall|k: int| 0 <= k < i + 1 implies resolved_entry_path(
                #[trigger] entries.take(i + 1)[k],
            ) is Some by {
                if k < i {
                    assert(resolved_entry_path(entries.take(i as int)[k]) is Some);
                }
            }
        }
        i += 1;
    }
    proof {
        assert(entries.take(n as int) =~= entries);
    }
    Ok(info)
}

/// Reads the central directory of the archive bytes and summarizes it
/// without extracting anything. Succeeds exactly when the bytes parse as a
/// zip archive, every entry can be served and every entry name resolves
/// safely below an extraction root; the summary then describes the archive's
/// entries exactly. Otherwise: `Corrupt` when the parse or an entry read
/// fails, `InvalidEntryName` when a name cannot be safely resolved. Pure in
/// the bytes, so repeated calls return the same outcome.
pub fn inspect_zip(bytes: &Vec<u8>) -> (r: Result<ArchiveInfo, ArchiveError>)
    ensures
        match r {
            Ok(info) => {
                &&& info.wf()
                &&& info.is_summary_of(zip_entries_of(bytes@))
                &&& all_entries_safe(zip_entries_of(bytes@))
                &&& zip_parses(bytes@)
                &&& all_entries_servable(bytes@)
            },
            Err(ArchiveError::Corrupt(_)) => !(zip_parses(bytes@) && all_entries_servable(
                bytes@,
            )),
            Err(ArchiveError::InvalidEntryName(nm)) => {
                &&& zip_parses(bytes@)
                &&& !all_entries_safe(zip_entries_of(bytes@))
                &&& resolved_entry_path(nm@) is None
                &&& zip_entries_of(bytes@).contains(nm@)
            },
            Err(ArchiveError::Io(_)) => false,
        },
        (zip_parses(bytes@) && all_entries_servable(bytes@) && all_entries_safe(
            zip_entries_of(bytes@),
        )) ==> r is Ok,
{
    let mut z = match zip_open(bytes) {
        Ok(z) => z,
        Err(msg) => { return Err(ArchiveError::Corrupt(msg)); },
    };
    summarize_reader(&mut z, Ghost(bytes@))
}

/// Extracts every entry of the archive below `dest`, creating it if absent,
/// and returns the same summary inspection computes. All entry names are
/// validated before anything is written: an archive holding an unsafe name,
/// or two file entries landing on the same output path, is rejected with
/// `InvalidEntryName` and nothing extracted, so no file is ever placed
/// outside `dest`; an unparsable or unservable archive is rejected with
/// `Corrupt`. On a well-formed, all-safe, collision-free archive only the
/// disk can refuse, with `Io`.
pub fn extract_zip(bytes: &Vec<u8>, dest: &str) -> (r: Result<ArchiveInfo, ArchiveError>)
    ensures
        match r {
            Ok(info) => {
                &&& info.wf()
                &&& info.is_summary_of(zip_entries_of(bytes@))
                &&& all_entries_safe(zip_entries_of(bytes@))
                &&& no_duplicate_file_paths(zip_entries_of(bytes@))
                &&& zip_parses(bytes@)
                &&& all_entries_servable(bytes@)
            },
            Err(ArchiveError::Corrupt(_)) => !(zip_parses(bytes@) && all_entries_servable(
                bytes@,
            )),
            Err(ArchiveError::InvalidEntryName(nm)) => {
                &&& zip_parses(bytes@)
                &&& ((resolved_entry_path(nm@) is None && zip_entries_of(bytes@).contains(nm@)
                    && !all_entries_safe(zip_entries_of(bytes@))) || (!no_duplicate_file_paths(
                    zip_entries_of(bytes@),
                ) && spec_files(zip_entries_of(bytes@)).contains(nm@) && all_entries_safe(
                    zip_entries_of(bytes@),
                )))
            },
            Err(ArchiveError::Io(_)) => {
                &&& zip_parses(bytes@)
                &&& all_entries_servable(bytes@)
                &&& all_entries_safe(zip_entries_of(bytes@))
                &&& no_duplicate_file_paths(zip_entries_of(bytes@))
            },
        },
        (zip_parses(bytes@) && all_entries_servable(bytes@) && all_entries_safe(
            zip_entries_of(bytes@),
        ) && no_duplicate_file_paths(zip_entries_of(bytes@))) ==> (r is Ok || r matches Err(
            ArchiveError::Io(_),
        )),
{
    let mut z = match zip_open(bytes) {
        Ok(z) => z,
        Err(msg) => { return Err(ArchiveError::Corrupt(msg)); },
    };
    let info = match summarize_reader(&mut z, Ghost(bytes@)) {
        Ok(info) => info,
        Err(e) => { return Err(e); },
    };
    let ghost entries = zip_entries_of(bytes@);
    let files_len = info.files.len();
    let mut i: usize = 0;
    while i < files_len
        invariant
            entries == zip_entries_of(bytes@),
            zip_parses(bytes@),
            all_entries_servable(bytes@),
            all_entries_safe(entries),
            files_len == info.files@.len(),
            info.files_view() == spec_files(entries),
            i <= files_len,
            forall|a: int, b: int|
                0 <= a < b < files_len && a < i ==> info.files@[a]@ != info.files@[b]@,
        decreases files_len - i,
    {
        let mut j: usize = i + 1;
        while j < files_len
            invariant
                entries == zip_entries_of(bytes@),
                zip_parses(bytes@),
                all_entries_servable(bytes@),
                all_entries_safe(entries),
                files_len == info.files@.len(),
                info.files_view() == spec_files(entries),
                i < j <= files_len,
                forall|b: int| i < b < j ==> info.files@[i as int]@ != info.files@[b]@,
            decreases files_len - j,
        {
            if info.files[i].eq(&info.files[j]) {
                proof {
                    assert(spec_files(entries)[i as int] == info.files@[i as int]@);
                    assert(spec_files(entries)[j as int] == info.files@[j as int]@);
                    assert(!no_duplicate_file_paths(entries)) by {
                        assert(spec_files(entries)[i as int] == spec_files(entries)[j as int]);
                    }
                    assert(spec_files(entries).contains(info.files@[j as int]@)) by {
                        assert(spec_files(entries)[j as int] == info.files@[j as int]@);
                    }
                }
                return Err(ArchiveError::InvalidEntryName(info.files[j].clone()));
            }
            j += 1;
        }
        i += 1;
    }
    proof {
        assert forall|a: int, b: int|
            0 <= a < b < spec_files(entries).len() implies spec_files(entries)[a] != spec_files(
            entries,
        )[b] by {
            assert(spec_files(entries)[a] == info.files@[a]@);
            assert(spec_files(entries)[b] == info.files@[b]@);
        }
    }
    match zip_extract_all(&mut z, dest) {
        Ok(_) => Ok(info),
        Err(msg) => Err(ArchiveError::Io(msg)),
    }
}

/// Inspection and extraction agree on membership: two summaries of the same
/// archive bytes list exactly the same files, and so the same set of files.
pub proof fn lemma_inspect_extract_agree(a: ArchiveInfo, b: ArchiveInfo, bytes: Seq<u8>)
    requires
        a.is_summary_of(zip_entries_of(bytes)),
        b.is_summary_of(zip_entries_of(bytes)),
    ensures
        a.files_view() == b.files_view(),
        a.files_view().to_set() == b.files_view().to_set(),
        a.tops_view() == b.tops_view(),
        a.ext_view() == b.ext_view(),
{
}

/// An archive holding an entry whose name escapes the extraction root is
/// never summarized: neither inspection nor extraction can succeed on it.
pub proof fn lemma_unsafe_entry_rejected(bytes: Seq<u8>, i: int)
    requires
        0 <= i < zip_entries_of(bytes).len(),
        resolved_entry_path(zip_entries_of(bytes)[i]) is None,
    ensures
        !all_entries_safe(zip_entries_of(bytes)),
{
}


/// Membership in the top-level component set of a list of entries.
pub proof fn lemma_tops_membership(entries: Seq<Seq<char>>, d: Seq<char>)
    ensures
        spec_tops(entries).contains(d) <==> (exists|i: int|
            0 <= i < entries.len() && spec_top_of(#[trigger] entries[i]) == Some(d)),
    decreases entries.len(),
{
    if entries.len() > 0 {
        lemma_tops_membership(entries.drop_last(), d);
        if spec_top_of(entries.last()) == Some(d) {
            assert(spec_top_of(entries[entries.len() - 1]) == Some(d));
        } else if exists|i: int|
            0 <= i < entries.len() && spec_top_of(#[trigger] entries[i]) == Some(d) {
            let i = choose|i: int|
                0 <= i < entries.len() && spec_top_of(#[trigger] entries[i]) == Some(d);
            if i < entries.len() - 1 {
                assert(spec_top_of(entries.drop_last()[i]) == Some(d));
            }
        }
    }
}

/// When every entry of a non-empty archive lies below the same top-level
/// directory, the summary records exactly that one top-level component, and
/// `single_top_level_dir` reports it.
pub proof fn lemma_single_top_dir(info: ArchiveInfo, entries: Seq<Seq<char>>, d: Seq<char>)
    requires
        info.wf(),
        info.is_summary_of(entries),
        entries.len() > 0,
        forall|i: int| 0 <= i < entries.len() ==> spec_top_of(#[trigger] entries[i]) == Some(d),
    ensures
        info.tops_view() == set![d],
        info.top_level_dirs@.len() == 1,
        info.top_level_dirs@[0]@ == d,
{
    lemma_tops_membership(entries, d);
    assert(spec_top_of(entries[0]) == Some(d));
    assert(info.tops_view().contains(d));
    assert forall|x: Seq<char>| info.tops_view().contains(x) implies x == d by {
        lemma_tops_membership(entries, x);
    }
    assert(info.tops_view() =~= set![d]);
    let v = info.top_level_dirs@;
    lemma_strings_set_contains(v, d);
    let i = choose|i: int| 0 <= i < v.len() && v[i]@ == d;
    assert forall|k: int| 0 <= k < v.len() implies (#[trigger] v[k])@ == d by {
        lemma_strings_set_contains(v, v[k]@);
        assert(info.tops_view().contains(v[k]@));
    }
    assert(v.len() == 1) by {
        if v.len() >= 2 {
            assert(v[0]@ == d && v[1]@ == d);
        }
    }
}

/// Two entries below different top-level components leave the summary with at
/// least two recorded top-level directories, so no single root is reported.
pub proof fn lemma_distinct_tops(info: ArchiveInfo, entries: Seq<Seq<char>>, i: int, j: int)
    requires
        info.wf(),
        info.is_summary_of(entries),
        0 <= i < entries.len(),
        0 <= j < entries.len(),
        spec_top_of(entries[i]) is Some,
        spec_top_of(entries[j]) is Some,
        spec_top_of(entries[i]) != spec_top_of(entries[j]),
    ensures
        info.top_level_dirs@.len() >= 2,
{
    let d1 = spec_top_of(entries[i]).unwrap();
    let d2 = spec_top_of(entries[j]).unwrap();
    lemma_tops_membership(entries, d1);
    lemma_tops_membership(entries, d2);
    let v = info.top_level_dirs@;
    lemma_strings_set_contains(v, d1);
    lemma_strings_set_contains(v, d2);
    let a = choose|a: int| 0 <= a < v.len() && v[a]@ == d1;
    let b = choose|b: int| 0 <= b < v.len() && v[b]@ == d2;
    assert(a != b);
}

/// Picks the directory to expose as the content root of an extracted
/// package: the single top-level directory below the extraction root when
/// the archive has one and it exists on disk as a directory, otherwise the
/// extraction root itself.
pub fn determine_root_dir(info: &ArchiveInfo, extraction_root: &str, candidate_is_dir: bool) -> (r:
    String)
    ensures
        r@ == (if info.top_level_dirs@.len() == 1 && candidate_is_dir {
            crate::pathstr::spec_path_under(extraction_root@, info.top_level_dirs@[0]@)
        } else {
            extraction_root@
        }),
{
    match info.single_top_level_dir() {
        Some(d) => {
            if candidate_is_dir {
                crate::pathstr::path_under(extraction_root, d.as_str())
            } else {
                String::from_str(extraction_root)
            }
        },
        None => String::from_str(extraction_root),
    }
}

} // verus!
