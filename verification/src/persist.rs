//! Storing a chapter: room is made for it first, by letting the oldest chapters go.
use vstd::prelude::*;
use vstd::string::*;

use crate::chapter_paths::lemma_formats_differ_in_extension;
use crate::chapter_storage::{
    chapter_name, errors_path, first_existing, lemma_stored_chapter_is_found, ChapterName,
    ChapterStorage, ErrorsPathError,
};
use crate::model::ChapterId;
use crate::paths::{parent_path, path_parent};
use crate::sizes::{bytes_kept, kept, size_sum, EXACT_BYTES};
use crate::text::optional_text;

verus! {

/// How many bytes the chapters on the disk are counted to take. The count goes round
/// where it leaves the range of its type.
#[derive(Clone, Copy, Debug, PartialEq, Eq, Structural)]
pub struct CachedSize {
    pub bytes: u64,
}

/// A count that has grown, round the range of its type.
pub open spec fn grown(bytes: u64, by: u64) -> u64 {
    ((bytes + by) % 0x1_0000_0000_0000_0000) as u64
}

/// A count that has shrunk, round the range of its type.
pub open spec fn shrunk(bytes: u64, by: u64) -> u64 {
    ((bytes - by) % 0x1_0000_0000_0000_0000) as u64
}

impl CachedSize {
    /// Counts a file that has come.
    pub fn grow(&mut self, by: u64)
        ensures
            final(self).bytes == grown(old(self).bytes, by),
    {
        self.bytes = self.bytes.wrapping_add(by);
    }

    /// Counts a file that has gone.
    pub fn shrink(&mut self, by: u64)
        ensures
            final(self).bytes == shrunk(old(self).bytes, by),
    {
        self.bytes = self.bytes.wrapping_sub(by);
    }
}

/// A file that comes and goes again leaves the count as it was, whatever the count is.
pub proof fn lemma_shrink_undoes_grow(bytes: u64, by: u64)
    ensures
        shrunk(grown(bytes, by), by) == bytes,
        grown(shrunk(bytes, by), by) == bytes,
{
}

/// A chapter on its way into the storage.
#[derive(Clone, Debug, PartialEq, Eq)]
pub struct Persist {
    /// The bytes that the chapters there are take.
    pub current: i64,
    /// The bytes that the new chapter takes.
    pub chapter: i64,
    /// The bytes that all chapters may take.
    pub limit: i64,
    /// Where the new chapter goes.
    pub path: String,
}

/// What is to be done next to store a chapter.
#[derive(Clone, Debug, PartialEq, Eq)]
pub enum PersistStep {
    /// The oldest chapter has to go.
    Evict,
    /// The chapter goes to a path, below a folder that must be there.
    Store { path: String, folder: Option<String> },
}

/// What is to be done with the file for the errors of a download.
#[derive(Clone, Debug, PartialEq, Eq)]
pub enum ErrorsFile {
    Write(String),
    Remove(String),
}

impl ErrorsFile {
    /// The path of the file.
    pub open spec fn file(self) -> Seq<char> {
        match self {
            ErrorsFile::Write(file) => file@,
            ErrorsFile::Remove(file) => file@,
        }
    }
}

/// Whether there is no room for a chapter beside those there are.
pub open spec fn must_evict(current: i64, chapter: i64, limit: i64) -> bool {
    kept(current + chapter) > limit
}

/// The bytes that are left after some have gone.
pub open spec fn left_after(current: i64, evicted: i64) -> i64 {
    kept(
        if current >= evicted {
            current - evicted
        } else {
            0
        },
    )
}

/// The bytes that are left after chapters have gone one by one.
pub open spec fn left_after_all(current: i64, evicted: Seq<i64>) -> i64
    decreases evicted.len(),
{
    if evicted.len() == 0 {
        current
    } else {
        left_after(left_after_all(current, evicted.drop_last()), evicted.last())
    }
}

/// The sum of sizes.
pub open spec fn sum_of(sizes: Seq<i64>) -> int
    decreases sizes.len(),
{
    if sizes.len() == 0 {
        0
    } else {
        sum_of(sizes.drop_last()) + sizes.last()
    }
}

impl ChapterStorage {
    /// How many bytes the chapters on the disk are counted to take.
    pub fn cached_storage_size(&self, cached: &CachedSize) -> (r: i64)
        ensures
            r == kept(cached.bytes as int),
            r >= 0,
    {
        bytes_kept(cached.bytes)
    }

    /// Takes over a new count of the bytes that the chapters on the disk take.
    pub fn refresh_storage_size(&self, cached: &mut CachedSize, size: i64)
        requires
            size >= 0,
        ensures
            final(cached).bytes == size,
    {
        cached.bytes = size as u64;
    }

    /// Sets out to store a chapter, whose file has a size.
    pub fn persist_chapter(
        &self,
        chapter_number: &Option<String>,
        manga_title: &str,
        volume_number: &Option<String>,
        id: &ChapterId,
        is_novel: bool,
        use_ram: bool,
        file_size: u64,
        cached: &CachedSize,
    ) -> (r: Persist)
        ensures
            r.current == kept(cached.bytes as int),
            r.current >= 0,
            r.chapter == kept(file_size as int),
            r.chapter >= 0,
            r.limit == self.storage_size_limit,
            r.path@ == self.chapter_path(
                chapter_name(id@, manga_title@, *chapter_number, *volume_number),
                is_novel,
                use_ram,
            ),
    {
        Persist {
            current: self.cached_storage_size(cached),
            chapter: bytes_kept(file_size),
            limit: self.storage_size_limit,
            path: self.get_path_to_store_chapter(
                chapter_number,
                manga_title,
                volume_number,
                id,
                is_novel,
                use_ram,
            ),
        }
    }

    /// What is to be done with the file for the errors of a download, after its chapter
    /// was stored.
    pub fn errors_file(&self, path: &str, has_errors: bool) -> (r: Result<
        ErrorsFile,
        ErrorsPathError,
    >)
        ensures
            match errors_path(path@) {
                Ok(errors) => match r {
                    Ok(ErrorsFile::Write(file)) => has_errors && file@ == errors,
                    Ok(ErrorsFile::Remove(file)) => !has_errors && file@ == errors,
                    Err(_) => false,
                },
                Err(e) => r == Err::<ErrorsFile, ErrorsPathError>(e),
            },
    {
        match self.errors_source_path(path) {
            Ok(errors) => if has_errors {
                Ok(ErrorsFile::Write(errors))
            } else {
                Ok(ErrorsFile::Remove(errors))
            },
            Err(e) => Err(e),
        }
    }
}

impl Persist {
    /// What is to be done next: the chapter is stored where there is room for it, and
    /// else the oldest one has to go.
    pub fn next(&self) -> (r: PersistStep)
        requires
            i64::MIN <= self.current + self.chapter <= i64::MAX,
        ensures
            match r {
                PersistStep::Evict => must_evict(self.current, self.chapter, self.limit),
                PersistStep::Store { path, folder } => {
                    &&& !must_evict(self.current, self.chapter, self.limit)
                    &&& path == self.path
                    &&& optional_text(folder) == path_parent(self.path@)
                },
            },
    {
        if size_sum(self.current, self.chapter) > self.limit {
            PersistStep::Evict
        } else {
            PersistStep::Store {
                path: self.path.clone(),
                folder: parent_path(self.path.as_str()),
            }
        }
    }

    /// Notes that a chapter of a size has gone.
    pub fn evicted(&mut self, evicted: i64, cached: &mut CachedSize)
        requires
            evicted >= 0,
            old(self).current >= 0,
        ensures
            final(self).current == left_after(old(self).current, evicted),
            final(self).current >= 0,
            final(self).chapter == old(self).chapter,
            final(self).limit == old(self).limit,
            final(self).path == old(self).path,
            final(cached).bytes == shrunk(old(cached).bytes, evicted as u64),
    {
        let evicted_bytes: u64 = evicted as u64;
        let current_bytes: u64 = self.current as u64;
        self.current = bytes_kept(current_bytes.saturating_sub(evicted_bytes));
        cached.shrink(evicted_bytes);
    }

    /// Notes that the chapter is stored, in a file whose size may be known.
    pub fn stored(&self, size: Option<u64>, cached: &mut CachedSize)
        ensures
            final(cached).bytes == match size {
                Some(size) => grown(old(cached).bytes, size),
                None => old(cached).bytes,
            },
    {
        if let Some(size) = size {
            cached.grow(size);
        }
    }
}

proof fn lemma_sum_not_negative(sizes: Seq<i64>)
    requires
        forall|i: int| 0 <= i < sizes.len() ==> #[trigger] sizes[i] >= 0,
    ensures
        sum_of(sizes) >= 0,
    decreases sizes.len(),
{
    if sizes.len() > 0 {
        assert forall|i: int| 0 <= i < sizes.drop_last().len() implies #[trigger] sizes.drop_last()[
            i
        ] >= 0 by {
            assert(sizes[i] >= 0);
        }
        lemma_sum_not_negative(sizes.drop_last());
    }
}

/// What the chapters take shrinks by the sizes of those that go, down to nothing.
pub proof fn lemma_evictions_free_room(current: i64, evicted: Seq<i64>)
    requires
        0 <= current <= EXACT_BYTES,
        forall|i: int| 0 <= i < evicted.len() ==> #[trigger] evicted[i] >= 0,
    ensures
        left_after_all(current, evicted) == if current >= sum_of(evicted) {
            current - sum_of(evicted)
        } else {
            0
        },
    decreases evicted.len(),
{
    if evicted.len() > 0 {
        let front = evicted.drop_last();
        assert forall|i: int| 0 <= i < front.len() implies #[trigger] front[i] >= 0 by {
            assert(evicted[i] >= 0);
        }
        assert(evicted[evicted.len() - 1] >= 0);
        lemma_evictions_free_room(current, front);
        lemma_sum_not_negative(front);
    }
}

/// A chapter is stored only where it and the chapters there are stay within the limit.
pub proof fn lemma_storage_stays_within_limit(current: i64, chapter: i64, limit: i64)
    requires
        0 <= current + chapter <= EXACT_BYTES,
    ensures
        !must_evict(current, chapter, limit) <==> current + chapter <= limit,
{
}

/// Once enough chapters have gone, a chapter that the limit has room for is stored.
pub proof fn lemma_evictions_make_room(
    current: i64,
    chapter: i64,
    limit: i64,
    evicted: Seq<i64>,
)
    requires
        0 <= current,
        0 <= chapter <= limit,
        current + chapter <= EXACT_BYTES,
        forall|i: int| 0 <= i < evicted.len() ==> #[trigger] evicted[i] >= 0,
        sum_of(evicted) >= current + chapter - limit,
    ensures
        !must_evict(left_after_all(current, evicted), chapter, limit),
{
    lemma_evictions_free_room(current, evicted);
    lemma_sum_not_negative(evicted);
}

/// A chapter that the limit has no room for is never stored, however many others go.
pub proof fn lemma_too_large_a_chapter_is_not_stored(
    current: i64,
    chapter: i64,
    limit: i64,
    evicted: Seq<i64>,
)
    requires
        0 <= current,
        0 <= chapter,
        limit < chapter,
        current + chapter <= EXACT_BYTES,
        forall|i: int| 0 <= i < evicted.len() ==> #[trigger] evicted[i] >= 0,
    ensures
        must_evict(left_after_all(current, evicted), chapter, limit),
{
    lemma_evictions_free_room(current, evicted);
    lemma_sum_not_negative(evicted);
}

/// Where the count kept and the count worked with agree, they agree after a chapter
/// has gone that was counted in.
pub proof fn lemma_counts_agree(cached: u64, current: i64, evicted: i64)
    requires
        cached == current,
        0 <= evicted <= current <= EXACT_BYTES,
    ensures
        shrunk(cached, evicted as u64) == left_after(current, evicted),
{
}

/// What the files hold after a chapter was stored, and the file for the errors of its
/// download written or removed.
pub open spec fn files_after(
    files: Map<Seq<char>, Seq<u8>>,
    path: Seq<char>,
    chapter: Seq<u8>,
    errors: ErrorsFile,
    written: Seq<u8>,
) -> Map<Seq<char>, Seq<u8>> {
    match errors {
        ErrorsFile::Write(file) => files.insert(path, chapter).insert(file@, written),
        ErrorsFile::Remove(file) => files.insert(path, chapter).remove(file@),
    }
}

/// The file for the errors of a download is not that of the chapter, in either format.
pub proof fn lemma_errors_stand_beside_the_chapter(
    storage: ChapterStorage,
    name: ChapterName,
    is_novel: bool,
    use_ram: bool,
)
    ensures
        errors_path(storage.chapter_path(name, is_novel, use_ram)) matches Ok(errors) ==> errors
            != storage.chapter_path(name, is_novel, use_ram),
{
    let path = storage.chapter_path(name, is_novel, use_ram);
    let stem = lemma_formats_differ_in_extension(storage, name, use_ram);
    reveal_strlit(".cbz");
    reveal_strlit(".epub");
    reveal_strlit(".errors");
    reveal_strlit(".");
    if let Ok(errors) = errors_path(path) {
        assert(errors.last() == 's');
        assert(path.last() != 's');
    }
}

/// A chapter that was stored is read back: it is found at its path, its file holds what
/// was stored, and the file that is named for the errors of its download holds what was
/// written of them, or is not there where there were none. An epub is found there unless
/// a cbz of the chapter is there too.
pub proof fn lemma_persisted_chapter_is_read_back(
    storage: ChapterStorage,
    name: ChapterName,
    is_novel: bool,
    use_ram: bool,
    files: Map<Seq<char>, Seq<u8>>,
    chapter: Seq<u8>,
    errors: ErrorsFile,
    written: Seq<u8>,
    existing: Seq<Seq<char>>,
)
    requires
        errors_path(storage.chapter_path(name, is_novel, use_ram)) == Ok::<
            Seq<char>,
            ErrorsPathError,
        >(errors.file()),
        is_novel ==> !existing.contains(storage.chapter_path(name, false, use_ram)),
        forall|path: Seq<char>| #[trigger]
            existing.contains(path) <==> files_after(
                files,
                storage.chapter_path(name, is_novel, use_ram),
                chapter,
                errors,
                written,
            ).dom().contains(path),
    ensures
        ({
            let path = storage.chapter_path(name, is_novel, use_ram);
            let after = files_after(files, path, chapter, errors, written);
            &&& first_existing(storage.stored_paths(name, use_ram), existing) == Some(path)
            &&& after.dom().contains(path) && after[path] == chapter
            &&& errors is Write ==> after.dom().contains(errors.file()) && after[errors.file()]
                == written
            &&& errors is Remove ==> !after.dom().contains(errors.file())
        }),
{
    let path = storage.chapter_path(name, is_novel, use_ram);
    let after = files_after(files, path, chapter, errors, written);
    lemma_errors_stand_beside_the_chapter(storage, name, is_novel, use_ram);
    assert(after.dom().contains(path));
    assert(existing.contains(path));
    lemma_stored_chapter_is_found(storage, name, is_novel, use_ram, existing);
}

/// A count grows and shrinks by exactly the size of the file, as long as it stays within
/// the range of its type.
pub proof fn lemma_count_is_exact(bytes: u64, by: u64)
    ensures
        bytes + by <= u64::MAX ==> grown(bytes, by) == bytes + by,
        by <= bytes ==> shrunk(bytes, by) == bytes - by,
{
}

/// A chapter that has gone makes room for as much as it took, and never for more than there
/// was.
pub proof fn lemma_eviction_is_exact(current: i64, evicted: i64)
    requires
        0 <= current <= EXACT_BYTES,
        0 <= evicted,
    ensures
        evicted <= current ==> left_after(current, evicted) == current - evicted,
        evicted > current ==> left_after(current, evicted) == 0,
{
}

}
