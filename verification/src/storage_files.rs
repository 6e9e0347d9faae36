//! The files in which chapters are stored: which they are, how much room they take,
//! and which of them has to go first.
use vstd::prelude::*;
use vstd::string::*;

use crate::chapter_storage::{chapter_name, is_existing, ChapterStorage};
use crate::model::ChapterId;
use crate::paths::{components, extension_of_path, is_same_path, path_extension, path_same};
use crate::sizes::{bytes_kept, kept};
use crate::text::{lowercase_text, lowercased, optional_text, same_text, texts};

verus! {

/// What a walk through a folder tells of an entry.
#[derive(Clone, Debug, PartialEq, Eq)]
pub struct FileEntry {
    pub path: String,
    pub is_file: bool,
    /// The size in bytes, where it could be had.
    pub size: Option<u64>,
    /// When it was last modified, in nanoseconds since the start of 1970, where that
    /// could be had.
    pub modified: Option<i128>,
}

/// Whether an extension is one of those that chapters have.
pub open spec fn chapter_extension(extension: Seq<char>) -> bool {
    extension == "cbz"@ || extension == "epub"@
}

/// Whether an entry is a chapter.
pub open spec fn is_chapter(entry: FileEntry) -> bool {
    entry.is_file && (path_extension(entry.path@) matches Some(e) && chapter_extension(e))
}

/// Whether an entry is a chapter, where capital letters in its extension do not count.
pub open spec fn is_chapter_ignoring_case(entry: FileEntry) -> bool {
    entry.is_file && (path_extension(entry.path@) matches Some(e) && chapter_extension(
        lowercased(e),
    ))
}

/// Whether a path is one of a list.
pub open spec fn path_listed(list: Seq<Seq<char>>, path: Seq<char>) -> bool {
    exists|i: int| 0 <= i < list.len() && path_same(#[trigger] list[i], path)
}

/// The paths of the chapters among some entries, each once.
pub open spec fn collected(entries: Seq<FileEntry>) -> Seq<Seq<char>>
    decreases entries.len(),
{
    if entries.len() == 0 {
        Seq::empty()
    } else {
        let front = collected(entries.drop_last());
        let last = entries.last();
        if is_chapter_ignoring_case(last) && !path_listed(front, last.path@) {
            front.push(last.path@)
        } else {
            front
        }
    }
}

/// The bytes that the chapters among some entries take.
pub open spec fn chapter_bytes(entries: Seq<FileEntry>) -> int
    decreases entries.len(),
{
    if entries.len() == 0 {
        0
    } else {
        chapter_bytes(entries.drop_last()) + (if is_chapter(entries.last()) {
            match entries.last().size {
                Some(size) => size as int,
                None => 0,
            }
        } else {
            0
        })
    }
}

/// Whether an entry is a chapter of which it is known when it was modified.
pub open spec fn is_dated_chapter(entry: FileEntry) -> bool {
    is_chapter(entry) && entry.modified is Some
}

/// Whether the entry at a place is the first of the chapters that were modified
/// longest ago.
pub open spec fn oldest_at(entries: Seq<FileEntry>, i: int) -> bool {
    &&& 0 <= i < entries.len()
    &&& is_dated_chapter(entries[i])
    &&& forall|j: int|
        0 <= j < entries.len() && is_dated_chapter(#[trigger] entries[j]) ==> {
            &&& entries[i].modified->0 <= entries[j].modified->0
            &&& j < i ==> entries[i].modified->0 < entries[j].modified->0
        }
}

/// Whether an entry of the folder in memory is older than the current chapter, which
/// is another file.
pub open spec fn outdated(entry: FileEntry, current: Seq<char>, since: i128) -> bool {
    &&& entry.is_file
    &&& !path_same(entry.path@, current)
    &&& entry.size is Some
    &&& entry.modified matches Some(modified) && modified < since
}

/// The paths of the outdated entries, in order.
pub open spec fn outdated_paths(entries: Seq<FileEntry>, current: Seq<char>, since: i128) -> Seq<
    Seq<char>,
>
    decreases entries.len(),
{
    if entries.len() == 0 {
        Seq::empty()
    } else {
        let front = outdated_paths(entries.drop_last(), current, since);
        if outdated(entries.last(), current, since) {
            front.push(entries.last().path@)
        } else {
            front
        }
    }
}

/// The bytes that the outdated entries take.
pub open spec fn outdated_bytes(entries: Seq<FileEntry>, current: Seq<char>, since: i128) -> int
    decreases entries.len(),
{
    if entries.len() == 0 {
        0
    } else {
        outdated_bytes(entries.drop_last(), current, since) + (if outdated(
            entries.last(),
            current,
            since,
        ) {
            entries.last().size->0 as int
        } else {
            0
        })
    }
}

proof fn lemma_chapter_bytes_grow(entries: Seq<FileEntry>, n: int)
    requires
        0 <= n <= entries.len(),
    ensures
        0 <= chapter_bytes(entries.take(n)) <= chapter_bytes(entries),
    decreases entries.len() - n, entries.len(),
{
    if n == entries.len() {
        assert(entries.take(n) =~= entries);
        if n > 0 {
            lemma_chapter_bytes_grow(entries.drop_last(), n - 1);
            assert(entries.drop_last().take(n - 1) =~= entries.drop_last());
        }
    } else {
        lemma_chapter_bytes_grow(entries, n + 1);
        assert(entries.take(n + 1).drop_last() =~= entries.take(n));
        lemma_chapter_bytes_grow(entries.take(n), n);
        assert(entries.take(n).take(n) =~= entries.take(n));
    }
}

proof fn lemma_outdated_bytes_grow(
    entries: Seq<FileEntry>,
    current: Seq<char>,
    since: i128,
    n: int,
)
    requires
        0 <= n <= entries.len(),
    ensures
        0 <= outdated_bytes(entries.take(n), current, since) <= outdated_bytes(
            entries,
            current,
            since,
        ),
    decreases entries.len(),
{
    if entries.len() == 0 {
        assert(entries.take(n) =~= entries);
    } else if n == entries.len() {
        lemma_outdated_bytes_grow(entries.drop_last(), current, since, n - 1);
        assert(entries.take(n) =~= entries);
        assert(entries.drop_last().take(n - 1) =~= entries.drop_last());
    } else {
        lemma_outdated_bytes_grow(entries.drop_last(), current, since, n);
        assert(entries.drop_last().take(n) =~= entries.take(n));
    }
}

/// Says whether an extension is one of those that chapters have.
fn has_chapter_extension(extension: &str) -> (r: bool)
    ensures
        r == chapter_extension(extension@),
{
    same_text(extension, "cbz") || same_text(extension, "epub")
}

/// Says whether an entry is a chapter.
fn check_chapter(entry: &FileEntry) -> (r: bool)
    ensures
        r == is_chapter(*entry),
{
    if !entry.is_file {
        return false;
    }
    match extension_of_path(entry.path.as_str()) {
        Some(extension) => has_chapter_extension(extension.as_str()),
        None => false,
    }
}

/// Says whether an entry is a chapter, where capital letters in its extension do not
/// count.
fn check_chapter_ignoring_case(entry: &FileEntry) -> (r: bool)
    ensures
        r == is_chapter_ignoring_case(*entry),
        is_chapter(*entry) ==> r,
{
    if !entry.is_file {
        return false;
    }
    match extension_of_path(entry.path.as_str()) {
        Some(extension) => {
            let extension = extension.as_str();
            let small = lowercase_text(extension);
            proof {
                if chapter_extension(extension@) {
                    reveal_strlit("cbz");
                    reveal_strlit("epub");
                    assert(is_ascii(extension));
                    assert(small@ =~= extension@);
                }
            }
            has_chapter_extension(small.as_str())
        },
        None => false,
    }
}

/// Says whether a path is one of a list.
pub fn is_path_listed(list: &Vec<String>, path: &str) -> (r: bool)
    ensures
        r == path_listed(texts(list@), path@),
{
    let mut i: usize = 0;
    while i < list.len()
        invariant
            i <= list.len(),
            forall|j: int| 0 <= j < i ==> !path_same(#[trigger] texts(list@)[j], path@),
        decreases list.len() - i,
    {
        if is_same_path(list[i].as_str(), path) {
            assert(path_same(texts(list@)[i as int], path@));
            return true;
        }
        i += 1;
    }
    false
}

/// What cannot be done to make room for a chapter.
#[derive(Clone, Copy, Debug, PartialEq, Eq, Structural)]
pub struct NoChapterToEvict;

impl NoChapterToEvict {
    /// The error in words.
    pub fn message(&self) -> (r: &'static str)
        ensures
            r@ == "couldn't find any chapters to evict from storage"@,
    {
        "couldn't find any chapters to evict from storage"
    }
}

impl ChapterStorage {
    /// The paths of the chapters among the entries of the folder on the disk, each
    /// once.
    pub fn collect_all_files(&self, entries: &Vec<FileEntry>) -> (r: Vec<String>)
        ensures
            texts(r@) == collected(entries@),
            forall|i: int|
                0 <= i < entries@.len() && is_chapter(#[trigger] entries@[i]) ==> path_listed(
                    texts(r@),
                    entries@[i].path@,
                ),
    {
        let mut files: Vec<String> = Vec::new();
        let mut i: usize = 0;
        assert(texts(files@) =~= collected(entries@.take(0)));
        while i < entries.len()
            invariant
                i <= entries.len(),
                texts(files@) == collected(entries@.take(i as int)),
                forall|j: int|
                    0 <= j < i && is_chapter(#[trigger] entries@[j]) ==> is_chapter_ignoring_case(
                        entries@[j],
                    ),
            decreases entries.len() - i,
        {
            let ghost before = texts(files@);
            assert(entries@.take(i + 1).drop_last() =~= entries@.take(i as int));
            if check_chapter_ignoring_case(&entries[i]) && !is_path_listed(
                &files,
                entries[i].path.as_str(),
            ) {
                files.push(entries[i].path.clone());
                assert(texts(files@) =~= before.push(entries@[i as int].path@));
            }
            i += 1;
        }
        assert(entries@.take(i as int) =~= entries@);
        proof {
            lemma_collected(entries@);
        }
        files
    }

    /// How many bytes the chapters among the entries of the folder on the disk take.
    pub fn calculate_storage_size(&self, entries: &Vec<FileEntry>) -> (r: i64)
        requires
            chapter_bytes(entries@) <= u64::MAX,
        ensures
            r == kept(chapter_bytes(entries@)),
            r >= 0,
    {
        match sum_chapter_bytes(entries) {
            Some(total) => bytes_kept(total),
            None => 0,
        }
    }

    /// How many bytes the chapters among the entries of the folder on the disk take, and
    /// `None` where they are too many to be counted.
    pub fn checked_storage_size(&self, entries: &Vec<FileEntry>) -> (r: Option<i64>)
        ensures
            match r {
                Some(size) => {
                    &&& chapter_bytes(entries@) <= u64::MAX
                    &&& size == kept(chapter_bytes(entries@))
                    &&& size >= 0
                },
                None => chapter_bytes(entries@) > u64::MAX,
            },
    {
        if sum_chapter_bytes(entries).is_some() {
            Some(self.calculate_storage_size(entries))
        } else {
            None
        }
    }

    /// The chapter among the entries of the folder on the disk that was modified
    /// longest ago, the first of them where there are several.
    pub fn find_least_recently_modified_chapter(&self, entries: &Vec<FileEntry>) -> (r: Option<
        String,
    >)
        ensures
            match r {
                Some(path) => exists|i: int|
                    #[trigger] oldest_at(entries@, i) && path@ == entries@[i].path@,
                None => forall|i: int|
                    0 <= i < entries@.len() ==> !is_dated_chapter(#[trigger] entries@[i]),
            },
    {
        let mut best: Option<(usize, i128)> = None;
        let mut i: usize = 0;
        while i < entries.len()
            invariant
                i <= entries.len(),
                match best {
                    Some((k, modified)) => {
                        &&& oldest_at(entries@.take(i as int), k as int)
                        &&& entries@[k as int].modified == Some(modified)
                    },
                    None => forall|j: int|
                        0 <= j < i ==> !is_dated_chapter(#[trigger] entries@[j]),
                },
            decreases entries.len() - i,
        {
            let ghost now = entries@.take(i + 1);
            let ghost before = entries@.take(i as int);
            assert(forall|j: int| 0 <= j < i ==> now[j] == before[j] && before[j] == #[trigger]
                entries@[j]);
            assert(now[i as int] == entries@[i as int]);
            if check_chapter(&entries[i]) {
                if let Some(modified) = entries[i].modified {
                    match best {
                        Some((k, oldest)) => {
                            if modified < oldest {
                                best = Some((i, modified));
                            }
                        },
                        None => {
                            best = Some((i, modified));
                        },
                    }
                }
            }
            i += 1;
            assert(match best {
                Some((k, modified)) => oldest_at(now, k as int),
                None => true,
            });
        }
        assert(entries@.take(i as int) =~= entries@);
        match best {
            Some((k, _)) => {
                assert(oldest_at(entries@, k as int));
                Some(entries[k].path.clone())
            },
            None => None,
        }
    }

    /// The chapter that has to go next to make room for another.
    pub fn evict_least_recently_modified_chapter(&self, entries: &Vec<FileEntry>) -> (r: Result<
        String,
        NoChapterToEvict,
    >)
        ensures
            match r {
                Ok(path) => exists|i: int|
                    #[trigger] oldest_at(entries@, i) && path@ == entries@[i].path@,
                Err(_) => forall|i: int|
                    0 <= i < entries@.len() ==> !is_dated_chapter(#[trigger] entries@[i]),
            },
    {
        match self.find_least_recently_modified_chapter(entries) {
            Some(path) => Ok(path),
            None => Err(NoChapterToEvict),
        }
    }

    /// How many bytes it counts for that a chapter goes, where its size could be had.
    pub fn evicted_size(&self, size: Option<u64>) -> (r: i64)
        ensures
            r == kept(
                match size {
                    Some(size) => size as int,
                    None => 0,
                },
            ),
            r >= 0,
    {
        match size {
            Some(size) => bytes_kept(size),
            None => bytes_kept(0),
        }
    }

    /// The path of the current chapter in memory, where memory is on and it is there.
    pub fn current_in_memory(
        &self,
        chapter_number: &Option<String>,
        manga_title: &str,
        volume_number: &Option<String>,
        id: &ChapterId,
        is_novel: bool,
        existing: &Vec<String>,
    ) -> (r: Option<String>)
        ensures
            optional_text(r) == ({
                let path = self.chapter_path(
                    chapter_name(id@, manga_title@, *chapter_number, *volume_number),
                    is_novel,
                    true,
                );
                if self.ram_enabled && texts(existing@).contains(path) {
                    Some(path)
                } else {
                    None
                }
            }),
    {
        if !self.ram_enabled {
            return None;
        }
        let path = self.get_path_to_store_chapter(
            chapter_number,
            manga_title,
            volume_number,
            id,
            is_novel,
            true,
        );
        if is_existing(existing, path.as_str()) {
            Some(path)
        } else {
            None
        }
    }

    /// The files in memory that are older than the current chapter, and how many bytes
    /// become free when they go. Nothing goes where memory is off.
    pub fn evict_tmpfs_older_than_current(
        &self,
        current: &str,
        modified: i128,
        entries: &Vec<FileEntry>,
    ) -> (r: (Vec<String>, u64))
        requires
            outdated_bytes(entries@, current@, modified) <= u64::MAX,
        ensures
            self.ram_enabled ==> texts(r.0@) == outdated_paths(entries@, current@, modified) && r.1
                == outdated_bytes(entries@, current@, modified),
            !self.ram_enabled ==> r.0@.len() == 0 && r.1 == 0,
    {
        if !self.ram_enabled {
            return (Vec::new(), 0);
        }
        match find_outdated(entries, current, modified) {
            Some(found) => found,
            None => (Vec::new(), 0),
        }
    }

    /// The files in memory that are older than the current chapter, and how many bytes
    /// become free when they go; `None` where those are too many to be counted.
    pub fn checked_evict_tmpfs(
        &self,
        current: &str,
        modified: i128,
        entries: &Vec<FileEntry>,
    ) -> (r: Option<(Vec<String>, u64)>)
        ensures
            match r {
                Some(r) => {
                    &&& outdated_bytes(entries@, current@, modified) <= u64::MAX
                    &&& self.ram_enabled ==> texts(r.0@) == outdated_paths(
                        entries@,
                        current@,
                        modified,
                    ) && r.1 == outdated_bytes(entries@, current@, modified)
                    &&& !self.ram_enabled ==> r.0@.len() == 0 && r.1 == 0
                },
                None => outdated_bytes(entries@, current@, modified) > u64::MAX,
            },
    {
        if find_outdated(entries, current, modified).is_some() {
            Some(self.evict_tmpfs_older_than_current(current, modified, entries))
        } else {
            None
        }
    }
}

/// Adds up the bytes that the chapters among some entries take; `None` where the sum
/// does not fit.
fn sum_chapter_bytes(entries: &Vec<FileEntry>) -> (r: Option<u64>)
    ensures
        match r {
            Some(total) => total == chapter_bytes(entries@),
            None => chapter_bytes(entries@) > u64::MAX,
        },
{
    let mut total: u64 = 0;
    let mut i: usize = 0;
    while i < entries.len()
        invariant
            i <= entries.len(),
            total == chapter_bytes(entries@.take(i as int)),
        decreases entries.len() - i,
    {
        proof {
            lemma_chapter_bytes_grow(entries@, i + 1);
        }
        assert(entries@.take(i + 1).drop_last() =~= entries@.take(i as int));
        if check_chapter(&entries[i]) {
            if let Some(size) = entries[i].size {
                if size > u64::MAX - total {
                    return None;
                }
                total = total + size;
            }
        }
        i += 1;
    }
    assert(entries@.take(i as int) =~= entries@);
    Some(total)
}

/// Finds the outdated entries and adds up the bytes that they take; `None` where the
/// sum does not fit.
fn find_outdated(entries: &Vec<FileEntry>, current: &str, since: i128) -> (r: Option<
    (Vec<String>, u64),
>)
    ensures
        match r {
            Some(r) => {
                &&& texts(r.0@) == outdated_paths(entries@, current@, since)
                &&& r.1 == outdated_bytes(entries@, current@, since)
            },
            None => outdated_bytes(entries@, current@, since) > u64::MAX,
        },
{
    let mut paths: Vec<String> = Vec::new();
    let mut freed: u64 = 0;
    let mut i: usize = 0;
    assert(texts(paths@) =~= outdated_paths(entries@.take(0), current@, since));
    while i < entries.len()
        invariant
            i <= entries.len(),
            texts(paths@) == outdated_paths(entries@.take(i as int), current@, since),
            freed == outdated_bytes(entries@.take(i as int), current@, since),
        decreases entries.len() - i,
    {
        let ghost before = texts(paths@);
        proof {
            lemma_outdated_bytes_grow(entries@, current@, since, i + 1);
        }
        assert(entries@.take(i + 1).drop_last() =~= entries@.take(i as int));
        if entries[i].is_file && !is_same_path(entries[i].path.as_str(), current) {
            if let Some(size) = entries[i].size {
                if let Some(modified) = entries[i].modified {
                    if modified < since {
                        if size > u64::MAX - freed {
                            return None;
                        }
                        paths.push(entries[i].path.clone());
                        assert(texts(paths@) =~= before.push(entries@[i as int].path@));
                        freed = freed + size;
                    }
                }
            }
        }
        i += 1;
    }
    assert(entries@.take(i as int) =~= entries@);
    Some((paths, freed))
}

/// Whether a path is that of a chapter among some entries.
pub open spec fn comes_of_chapter(entries: Seq<FileEntry>, path: Seq<char>) -> bool {
    exists|i: int|
        0 <= i < entries.len() && is_chapter_ignoring_case(#[trigger] entries[i])
            && entries[i].path@ == path
}

/// What is collected are the chapters among the entries: every one of them is there,
/// nothing else is, and no path is there twice.
pub proof fn lemma_collected(entries: Seq<FileEntry>)
    ensures
        forall|i: int|
            0 <= i < entries.len() && is_chapter_ignoring_case(#[trigger] entries[i])
                ==> path_listed(collected(entries), entries[i].path@),
        forall|k: int|
            0 <= k < collected(entries).len() ==> comes_of_chapter(
                entries,
                #[trigger] collected(entries)[k],
            ),
        forall|j: int, k: int|
            0 <= j < k < collected(entries).len() ==> !path_same(
                #[trigger] collected(entries)[j],
                #[trigger] collected(entries)[k],
            ),
    decreases entries.len(),
{
    if entries.len() > 0 {
        let front = entries.drop_last();
        let before = collected(front);
        let now = collected(entries);
        lemma_collected(front);
        assert(now.len() <= before.len() + 1);
        assert forall|i: int|
            0 <= i < entries.len() && is_chapter_ignoring_case(
                #[trigger] entries[i],
            ) implies path_listed(now, entries[i].path@) by {
            if i < front.len() {
                assert(front[i] == entries[i]);
                assert(path_listed(before, front[i].path@));
                let k = choose|k: int|
                    0 <= k < before.len() && path_same(#[trigger] before[k], front[i].path@);
                assert(path_same(now[k], entries[i].path@));
            } else if path_listed(before, entries[i].path@) {
                assert(now == before);
            } else {
                assert(path_same(now[before.len() as int], entries[i].path@));
            }
        }
        assert forall|k: int| 0 <= k < now.len() implies comes_of_chapter(
            entries,
            #[trigger] now[k],
        ) by {
            if k < before.len() {
                assert(before[k] == now[k]);
                let i = choose|i: int|
                    0 <= i < front.len() && is_chapter_ignoring_case(#[trigger] front[i])
                        && front[i].path@ == before[k];
                assert(front[i] == entries[i]);
                assert(is_chapter_ignoring_case(entries[i]) && entries[i].path@ == now[k]);
            } else {
                assert(is_chapter_ignoring_case(entries[entries.len() - 1]));
                assert(entries[entries.len() - 1].path@ == now[k]);
            }
        }
        assert forall|j: int, k: int| 0 <= j < k < now.len() implies !path_same(
            #[trigger] now[j],
            #[trigger] now[k],
        ) by {
            assert(now[j] == before[j]);
            if k < before.len() {
                assert(now[k] == before[k]);
            } else {
                assert(!path_listed(before, entries.last().path@));
            }
        }
    }
}

/// What goes from memory is older than the current chapter, and the current chapter
/// itself stays.
pub proof fn lemma_current_chapter_stays(
    entries: Seq<FileEntry>,
    current: Seq<char>,
    since: i128,
    k: int,
)
    requires
        0 <= k < outdated_paths(entries, current, since).len(),
    ensures
        !path_same(outdated_paths(entries, current, since)[k], current),
        exists|i: int|
            0 <= i < entries.len() && #[trigger] outdated(entries[i], current, since)
                && entries[i].path@ == outdated_paths(entries, current, since)[k],
    decreases entries.len(),
{
    let front = entries.drop_last();
    let before = outdated_paths(front, current, since);
    if k < before.len() {
        lemma_current_chapter_stays(front, current, since, k);
        let i = choose|i: int|
            0 <= i < front.len() && #[trigger] outdated(front[i], current, since)
                && front[i].path@ == before[k];
        assert(outdated(entries[i], current, since));
    } else {
        assert(outdated(entries[entries.len() - 1], current, since));
    }
}

/// What chapters take grows with every chapter by its size: a file whose extension is cbz
/// or epub, in small letters. Anything else, and a chapter whose size is not known, takes
/// nothing.
pub proof fn lemma_chapters_add_up(entries: Seq<FileEntry>, entry: FileEntry)
    ensures
        chapter_bytes(Seq::empty()) == 0,
        entry.is_file && (path_extension(entry.path@) == Some("cbz"@) || path_extension(entry.path@)
            == Some("epub"@)) ==> (entry.size matches Some(size) ==> chapter_bytes(
            entries.push(entry),
        ) == chapter_bytes(entries) + size),
        !entry.is_file || entry.size is None || (path_extension(entry.path@) != Some("cbz"@)
            && path_extension(entry.path@) != Some("epub"@)) ==> chapter_bytes(
            entries.push(entry),
        ) == chapter_bytes(entries),
{
    assert(entries.push(entry).drop_last() =~= entries);
}

/// The chapter that has to go is one: a file with the extension of a chapter, of which it is
/// known when it was modified. No other was modified before it, and none that was modified
/// at the same moment stands before it.
pub proof fn lemma_oldest_chapter(entries: Seq<FileEntry>, i: int, j: int)
    requires
        oldest_at(entries, i),
        0 <= j < entries.len(),
        entries[j].is_file,
        path_extension(entries[j].path@) == Some("cbz"@) || path_extension(entries[j].path@) == Some(
            "epub"@,
        ),
        entries[j].modified is Some,
    ensures
        0 <= i < entries.len(),
        entries[i].is_file,
        path_extension(entries[i].path@) == Some("cbz"@) || path_extension(entries[i].path@) == Some(
            "epub"@,
        ),
        entries[i].modified is Some,
        entries[i].modified->0 <= entries[j].modified->0,
        entries[i].modified->0 == entries[j].modified->0 ==> i <= j,
{
    assert(is_dated_chapter(entries[j]));
}

/// Where there is a chapter of which it is known when it was modified, there is one that has
/// to go first.
pub proof fn lemma_dated_chapter_counts(entry: FileEntry)
    ensures
        is_dated_chapter(entry) <==> entry.is_file && entry.modified is Some && (path_extension(
            entry.path@,
        ) == Some("cbz"@) || path_extension(entry.path@) == Some("epub"@)),
{
}

/// A file in memory goes if and only if it is another one than the current chapter, was
/// modified before it, and its size is known; and what becomes free grows by its size. A
/// folder does not go.
pub proof fn lemma_older_files_go(
    entries: Seq<FileEntry>,
    entry: FileEntry,
    current: Seq<char>,
    since: i128,
)
    ensures
        outdated_paths(Seq::empty(), current, since).len() == 0,
        outdated_bytes(Seq::empty(), current, since) == 0,
        entry.is_file && components(entry.path@) != components(current) && (
        entry.modified matches Some(t) && t < since) ==> (entry.size matches Some(size) ==> {
            &&& outdated_paths(entries.push(entry), current, since) == outdated_paths(
                entries,
                current,
                since,
            ).push(entry.path@)
            &&& outdated_bytes(entries.push(entry), current, since) == outdated_bytes(
                entries,
                current,
                since,
            ) + size
        }),
        !entry.is_file || components(entry.path@) == components(current) || entry.modified is None
            || entry.size is None || entry.modified->0 >= since ==> {
            &&& outdated_paths(entries.push(entry), current, since) == outdated_paths(
                entries,
                current,
                since,
            )
            &&& outdated_bytes(entries.push(entry), current, since) == outdated_bytes(
                entries,
                current,
                since,
            )
        },
{
    assert(entries.push(entry).drop_last() =~= entries);
}

/// A file is collected where its extension is cbz or epub, whatever the case of its letters,
/// and it was not collected before; nothing else is.
pub proof fn lemma_chapter_files_are_collected(entries: Seq<FileEntry>, entry: FileEntry)
    ensures
        collected(Seq::empty()).len() == 0,
        !entry.is_file || path_extension(entry.path@) is None ==> collected(entries.push(entry))
            == collected(entries),
        entry.is_file ==> (path_extension(entry.path@) matches Some(e) ==> {
            let again = exists|i: int|
                0 <= i < collected(entries).len() && components(#[trigger] collected(entries)[i])
                    == components(entry.path@);
            &&& (lowercased(e) == "cbz"@ || lowercased(e) == "epub"@) && !again ==> collected(
                entries.push(entry),
            ) == collected(entries).push(entry.path@)
            &&& lowercased(e) != "cbz"@ && lowercased(e) != "epub"@ || again ==> collected(
                entries.push(entry),
            ) == collected(entries)
        }),
{
    assert(entries.push(entry).drop_last() =~= entries);
    let found = collected(entries);
    if exists|i: int|
        0 <= i < found.len() && components(#[trigger] found[i]) == components(entry.path@) {
        let i = choose|i: int|
            0 <= i < found.len() && components(#[trigger] found[i]) == components(entry.path@);
        assert(path_same(found[i], entry.path@));
    }
    if path_listed(found, entry.path@) {
        let i = choose|i: int|
            0 <= i < found.len() && path_same(#[trigger] found[i], entry.path@);
        assert(components(found[i]) == components(entry.path@));
    }
}

}
