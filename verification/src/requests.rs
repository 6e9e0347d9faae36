//! What requests ask for, and how answers are put together.
use vstd::prelude::*;
use vstd::string::*;
use vstd::std_specs::convert::{FromSpec, FromSpecImpl};

use crate::chapter_storage::{poster_path, ChapterStorage};
use crate::keyed::ListMap;
use crate::model::{ChapterId, Manga, MangaId, SourceId};
use crate::paths::{
    components, lemma_stripped_components, path_below, path_stripped, strip_path_prefix,
};
use crate::sizes::{size_text, write_size};
use crate::text::{
    joined_parts, lemma_split_joins_back, lemma_trimmed, optional_text, same_text, split_parts,
    split_text, texts, trim_text, trimmed,
};
use crate::web::{file_url, url_of_file};

verus! {

/// After how many seconds a search is cancelled.
pub const SEARCH_TIMEOUT_SECONDS: u64 = 59;

/// After how many seconds a source is stopped that handles a notification.
pub const NOTIFICATION_TIMEOUT_SECONDS: u64 = 120;

/// The parts of a path that name a manga.
#[derive(Clone, Debug, PartialEq, Eq)]
pub struct MangaChaptersPathParams {
    pub source_id: String,
    pub manga_id: String,
}

impl From<MangaChaptersPathParams> for MangaId {
    fn from(value: MangaChaptersPathParams) -> (r: MangaId) {
        MangaId { source: SourceId { text: value.source_id }, manga: value.manga_id }
    }
}

impl FromSpecImpl<MangaChaptersPathParams> for MangaId {
    open spec fn obeys_from_spec() -> bool {
        true
    }

    open spec fn from_spec(value: MangaChaptersPathParams) -> MangaId {
        MangaId { source: SourceId { text: value.source_id }, manga: value.manga_id }
    }
}

/// The parts of a path that name a chapter.
#[derive(Clone, Debug, PartialEq, Eq)]
pub struct DownloadMangaChapterParams {
    pub source_id: String,
    pub manga_id: String,
    pub chapter_id: String,
}

impl From<DownloadMangaChapterParams> for ChapterId {
    fn from(value: DownloadMangaChapterParams) -> (r: ChapterId) {
        ChapterId {
            manga: MangaId { source: SourceId { text: value.source_id }, manga: value.manga_id },
            chapter: value.chapter_id,
        }
    }
}

impl FromSpecImpl<DownloadMangaChapterParams> for ChapterId {
    open spec fn obeys_from_spec() -> bool {
        true
    }

    open spec fn from_spec(value: DownloadMangaChapterParams) -> ChapterId {
        ChapterId {
            manga: MangaId { source: SourceId { text: value.source_id }, manga: value.manga_id },
            chapter: value.chapter_id,
        }
    }
}

/// Parts without the white space at their ends.
pub open spec fn trimmed_parts(parts: Seq<Seq<char>>) -> Seq<Seq<char>> {
    parts.map_values(|part: Seq<char>| trimmed(part))
}

/// The sources that a search leaves out: a list separated by commas.
pub fn excluded_sources(exclude: &Option<String>) -> (r: Option<Vec<String>>)
    ensures
        match exclude {
            Some(list) => r matches Some(sources) && texts(sources@) == trimmed_parts(
                split_parts(list@, ','),
            ),
            None => r is None,
        },
{
    match exclude {
        Some(list) => {
            let parts = split_text(list.as_str(), ',');
            let ghost all = texts(parts@);
            let mut sources: Vec<String> = Vec::new();
            let mut i: usize = 0;
            assert(texts(sources@) =~= trimmed_parts(all.take(0)));
            while i < parts.len()
                invariant
                    i <= parts.len(),
                    all == texts(parts@),
                    texts(sources@) == trimmed_parts(all.take(i as int)),
                decreases parts.len() - i,
            {
                let ghost before = texts(sources@);
                let part = trim_text(parts[i].as_str());
                sources.push(part);
                assert(texts(sources@) =~= before.push(part@));
                assert(trimmed_parts(all.take(i + 1)) =~= trimmed_parts(all.take(i as int)).push(
                    trimmed(all[i as int]),
                ));
                i += 1;
            }
            assert(all.take(i as int) =~= all);
            Some(sources)
        },
        None => None,
    }
}

/// Which page of a search is asked for: the first unless it is said otherwise, and
/// never one before it.
pub fn requested_page(page: Option<i32>) -> (r: i32)
    ensures
        r == match page {
            Some(page) => if page >= 1 {
                page
            } else {
                1
            },
            None => 1,
        },
{
    match page {
        Some(page) => if page >= 1 {
            page
        } else {
            1
        },
        None => 1,
    }
}

/// What is allowed when databases are brought in step.
#[derive(Clone, Copy, Debug, PartialEq, Eq, Structural)]
pub struct SyncConsent {
    pub accept_migrate_local: bool,
    pub accept_replace_remote: bool,
}

/// What is allowed when databases are brought in step: nothing but what is said to be.
pub fn sync_consent(args: &Vec<bool>) -> (r: SyncConsent)
    ensures
        r.accept_migrate_local == (args@.len() > 0 && args@[0]),
        r.accept_replace_remote == (args@.len() > 1 && args@[1]),
{
    SyncConsent {
        accept_migrate_local: args.len() > 0 && args[0],
        accept_replace_remote: args.len() > 1 && args[1],
    }
}

/// Says whether files are asked for that belong to no chapter.
pub fn invalid_mode(invalid: &str) -> (r: bool)
    ensures
        r == (invalid@ == "true"@),
{
    same_text(invalid, "true")
}

/// Says whether a chapter is downloaded to memory: where that is settled, unless it is
/// to be read offline.
pub fn download_to_memory(offline: Option<bool>, ram_storage_enabled: bool) -> (r: bool)
    ensures
        r == (offline != Some(true) && ram_storage_enabled),
{
    match offline {
        Some(offline) => !offline && ram_storage_enabled,
        None => ram_storage_enabled,
    }
}

/// How many pages are requested at once: four unless it is settled otherwise.
pub fn concurrent_pages(settled: Option<usize>) -> (r: usize)
    ensures
        r == match settled {
            Some(n) => n,
            None => 4,
        },
{
    match settled {
        Some(n) => n,
        None => 4,
    }
}

/// Says whether a chapter is taken out of memory rather than off the disk.
pub fn revoke_from_memory(use_ram: Option<bool>) -> (r: bool)
    ensures
        r == (use_ram == Some(true)),
{
    match use_ram {
        Some(use_ram) => use_ram,
        None => false,
    }
}

/// Files that could be deleted.
#[derive(Clone, Debug, PartialEq, Eq)]
pub struct FileSummary {
    pub filenames: Vec<String>,
    pub total_size: u64,
    pub total_text: String,
}

/// What is left of paths below a folder; those that are not below it are left out.
pub open spec fn names_below(paths: Seq<Seq<char>>, folder: Seq<char>) -> Seq<Seq<char>>
    decreases paths.len(),
{
    if paths.len() == 0 {
        Seq::empty()
    } else {
        let front = names_below(paths.drop_last(), folder);
        match path_stripped(paths.last(), folder) {
            Some(name) => front.push(name),
            None => front,
        }
    }
}

/// The sum of the sizes that are known.
pub open spec fn known_bytes(sizes: Seq<Option<u64>>) -> int
    decreases sizes.len(),
{
    if sizes.len() == 0 {
        0
    } else {
        known_bytes(sizes.drop_last()) + match sizes.last() {
            Some(size) => size as int,
            None => 0,
        }
    }
}

proof fn lemma_known_bytes_grow(sizes: Seq<Option<u64>>, n: int)
    requires
        0 <= n <= sizes.len(),
    ensures
        0 <= known_bytes(sizes.take(n)) <= known_bytes(sizes),
    decreases sizes.len(),
{
    if sizes.len() == 0 {
        assert(sizes.take(n) =~= sizes);
    } else if n == sizes.len() {
        lemma_known_bytes_grow(sizes.drop_last(), n - 1);
        assert(sizes.take(n) =~= sizes);
        assert(sizes.drop_last().take(n - 1) =~= sizes.drop_last());
    } else {
        lemma_known_bytes_grow(sizes.drop_last(), n);
        assert(sizes.drop_last().take(n) =~= sizes.take(n));
    }
}

/// Sums up files that could be deleted: their names below the folder on the disk, and
/// how much room they take, by the sizes of those whose size is known.
pub fn file_summary(
    paths: &Vec<String>,
    downloads_path: &str,
    sizes: &Vec<Option<u64>>,
) -> (r: FileSummary)
    requires
        known_bytes(sizes@) <= u64::MAX,
    ensures
        texts(r.filenames@) == names_below(texts(paths@), downloads_path@),
        r.total_size == known_bytes(sizes@),
        r.total_text@ == size_text(r.total_size),
{
    let ghost all = texts(paths@);
    let mut filenames: Vec<String> = Vec::new();
    let mut i: usize = 0;
    assert(texts(filenames@) =~= names_below(all.take(0), downloads_path@));
    while i < paths.len()
        invariant
            i <= paths.len(),
            all == texts(paths@),
            texts(filenames@) == names_below(all.take(i as int), downloads_path@),
        decreases paths.len() - i,
    {
        let ghost before = texts(filenames@);
        assert(all.take(i + 1).drop_last() =~= all.take(i as int));
        if let Some(name) = strip_path_prefix(paths[i].as_str(), downloads_path) {
            filenames.push(name);
            assert(texts(filenames@) =~= before.push(name@));
        }
        i += 1;
    }
    assert(all.take(i as int) =~= all);
    let mut total_size: u64 = 0;
    let mut i: usize = 0;
    while i < sizes.len()
        invariant
            i <= sizes.len(),
            known_bytes(sizes@) <= u64::MAX,
            total_size == known_bytes(sizes@.take(i as int)),
        decreases sizes.len() - i,
    {
        proof {
            lemma_known_bytes_grow(sizes@, i + 1);
        }
        assert(sizes@.take(i + 1).drop_last() =~= sizes@.take(i as int));
        if let Some(size) = sizes[i] {
            total_size = total_size + size;
        }
        i += 1;
    }
    assert(sizes@.take(i as int) =~= sizes@);
    let total_text = write_size(total_size);
    FileSummary { filenames, total_size, total_text }
}

/// The URL of a file: that of its path, or else that of its path in full, where it
/// could be had.
pub open spec fn file_url_of(path: Seq<char>, canonical: Option<Seq<char>>) -> Option<Seq<char>> {
    match url_of_file(path) {
        Some(url) => Some(url),
        None => match canonical {
            Some(canonical) => url_of_file(canonical),
            None => None,
        },
    }
}

/// The URL of a file, where `canonical` is its path in full, if that could be had.
pub fn path_to_file_url(path: &str, canonical: &Option<String>) -> (r: Option<String>)
    ensures
        optional_text(r) == file_url_of(path@, optional_text(*canonical)),
        path@.len() > 0 && path@[0] == '/' ==> r is Some,
{
    match file_url(path) {
        Some(url) => Some(url),
        None => match canonical {
            Some(canonical) => file_url(canonical.as_str()),
            None => None,
        },
    }
}

/// The cover that is shown for a manga that has one: the poster that is kept for it, or
/// none.
pub open spec fn poster_cover(
    storage: ChapterStorage,
    id: (Seq<char>, Seq<char>),
    existing: Seq<Seq<char>>,
    canonical: Map<Seq<char>, String>,
) -> Option<Seq<char>> {
    let path = poster_path(storage.downloads_folder_path@, id);
    if existing.contains(path) {
        file_url_of(
            path,
            if canonical.dom().contains(path) {
                Some(canonical[path]@)
            } else {
                None
            },
        )
    } else {
        None
    }
}

/// Whether a manga shows as it did, but for its cover, which is the poster kept for it
/// where it had one.
pub open spec fn shows_poster(
    storage: ChapterStorage,
    existing: Seq<Seq<char>>,
    canonical: Map<Seq<char>, String>,
    before: Manga,
    after: Manga,
) -> bool {
    &&& after.source_information == before.source_information
    &&& after.information.id == before.information.id
    &&& after.information.title == before.information.title
    &&& after.information.author == before.information.author
    &&& after.information.artist == before.information.artist
    &&& after.state == before.state
    &&& after.unread_chapters_count == before.unread_chapters_count
    &&& after.last_read == before.last_read
    &&& after.in_library == before.in_library
    &&& optional_text(after.information.cover_url) == (if before.information.cover_url is Some {
        poster_cover(storage, before.information.id@, existing, canonical)
    } else {
        None
    })
}

/// The poster kept for a manga, as a URL.
fn find_poster_cover(
    storage: &ChapterStorage,
    id: &MangaId,
    existing: &Vec<String>,
    canonical: &ListMap<String, String>,
) -> (r: Option<String>)
    requires
        canonical.wf(),
    ensures
        optional_text(r) == poster_cover(*storage, id@, texts(existing@), canonical@),
{
    match storage.poster_exists(id, existing) {
        Some(path) => {
            let full = match canonical.get(&path) {
                Some(full) => Some(full.clone()),
                None => None,
            };
            path_to_file_url(path.as_str(), &full)
        },
        None => None,
    }
}

/// Puts the posters that are kept in the place of the covers of mangas, where a view
/// shows posters. `existing` are the paths at which there are files, and `canonical`
/// the paths in full that could be had.
pub fn show_posters(
    mangas: Vec<Manga>,
    base_view: bool,
    chapter_storage: &ChapterStorage,
    existing: &Vec<String>,
    canonical: &ListMap<String, String>,
) -> (r: Vec<Manga>)
    requires
        canonical.wf(),
    ensures
        base_view ==> r@ == mangas@,
        !base_view ==> r@.len() == mangas@.len() && forall|i: int|
            0 <= i < r@.len() ==> shows_poster(
                *chapter_storage,
                texts(existing@),
                canonical@,
                mangas@[i],
                #[trigger] r@[i],
            ),
{
    if base_view {
        return mangas;
    }
    let mut r: Vec<Manga> = Vec::new();
    for manga in it: mangas
        invariant
            canonical.wf(),
            it.seq() == mangas@,
            r@.len() == it.index(),
            forall|i: int|
                0 <= i < r@.len() ==> shows_poster(
                    *chapter_storage,
                    texts(existing@),
                    canonical@,
                    mangas@[i],
                    #[trigger] r@[i],
                ),
    {
        let mut shown = manga;
        if shown.information.cover_url.is_some() {
            shown.information.cover_url = find_poster_cover(
                chapter_storage,
                &shown.information.id,
                existing,
                canonical,
            );
        }
        r.push(shown);
    }
    r
}

/// A manga that had no cover gets none, and a poster is shown only where one is kept.
pub proof fn lemma_no_poster_without_cover(
    storage: ChapterStorage,
    existing: Seq<Seq<char>>,
    canonical: Map<Seq<char>, String>,
    before: Manga,
    after: Manga,
)
    requires
        shows_poster(storage, existing, canonical, before, after),
    ensures
        after.information.cover_url is Some ==> before.information.cover_url is Some
            && existing.contains(
            poster_path(storage.downloads_folder_path@, before.information.id@),
        ),
{
}

/// The names that are summed up are those of the paths below the folder, in order: what a
/// path has behind the folder, and nothing for a path that is not below it.
pub proof fn lemma_names_below(paths: Seq<Seq<char>>, folder: Seq<char>, path: Seq<char>)
    ensures
        path_below(path, folder) ==> names_below(paths.push(path), folder).len() == names_below(
            paths,
            folder,
        ).len() + 1 && components(folder) + components(names_below(paths.push(path), folder).last())
            == components(path),
        !path_below(path, folder) ==> names_below(paths.push(path), folder) == names_below(
            paths,
            folder,
        ),
        names_below(paths, folder).is_prefix_of(names_below(paths.push(path), folder)),
        names_below(Seq::empty(), folder).len() == 0,
{
    assert(paths.push(path).drop_last() =~= paths);
    lemma_stripped_components(path, folder);
    assert(names_below(paths, folder) =~= names_below(paths.push(path), folder).take(
        names_below(paths, folder).len() as int,
    ));
}

/// Files take up as much room as one part of them and the other part do together. One file
/// takes its size, or nothing where that is not known.
pub proof fn lemma_sizes_add_up(a: Seq<Option<u64>>, b: Seq<Option<u64>>, size: u64)
    ensures
        known_bytes(a + b) == known_bytes(a) + known_bytes(b),
        known_bytes(seq![Some(size)]) == size,
        known_bytes(seq![None]) == 0,
        known_bytes(Seq::empty()) == 0,
    decreases b.len(),
{
    reveal_with_fuel(known_bytes, 2);
    assert(seq![Some(size)].drop_last() =~= Seq::empty());
    assert(seq![None::<u64>].drop_last() =~= Seq::empty());
    if b.len() == 0 {
        assert(a + b =~= a);
    } else {
        lemma_sizes_add_up(a, b.drop_last(), size);
        assert((a + b).drop_last() =~= a + b.drop_last());
    }
}

/// The URL of a file is that of its path where it has one, and only else that of its path
/// in full.
pub proof fn lemma_path_comes_before_its_full_form(path: Seq<char>, canonical: Option<Seq<char>>)
    ensures
        url_of_file(path) is Some ==> file_url_of(path, canonical) == url_of_file(path),
        url_of_file(path) is None ==> (canonical matches Some(full) ==> file_url_of(path, canonical)
            == url_of_file(full)),
        url_of_file(path) is None && canonical is None ==> file_url_of(path, canonical) is None,
{
}

/// A manga that has a cover shows its own poster where that is kept, and no cover where it
/// is not. Everything else of it is shown as it is.
pub proof fn lemma_poster_is_shown_where_it_is_kept(
    storage: ChapterStorage,
    existing: Seq<Seq<char>>,
    canonical: Map<Seq<char>, String>,
    before: Manga,
    after: Manga,
)
    requires
        shows_poster(storage, existing, canonical, before, after),
    ensures
        ({
            let poster = poster_path(storage.downloads_folder_path@, before.information.id@);
            &&& before.information.cover_url is None ==> after.information.cover_url is None
            &&& !existing.contains(poster) ==> after.information.cover_url is None
            &&& before.information.cover_url is Some && existing.contains(poster) ==> (
            url_of_file(poster) matches Some(url) ==> (after.information.cover_url matches Some(
                shown,
            ) && shown@ == url))
        }),
        after.information.id == before.information.id,
        after.information.title == before.information.title,
        after.information.author == before.information.author,
        after.information.artist == before.information.artist,
        after.source_information == before.source_information,
        after.state == before.state,
        after.unread_chapters_count == before.unread_chapters_count,
        after.last_read == before.last_read,
        after.in_library == before.in_library,
{
}

/// The sources that a search leaves out are as many as the list has parts, and each is the
/// part without the white space at its ends. A list without a comma names one source.
pub proof fn lemma_excluded_sources(list: Seq<char>, i: int)
    requires
        0 <= i < split_parts(list, ',').len(),
    ensures
        trimmed_parts(split_parts(list, ',')).len() == split_parts(list, ',').len(),
        trimmed_parts(split_parts(list, ','))[i] == trimmed(split_parts(list, ',')[i]),
        !trimmed_parts(split_parts(list, ','))[i].contains(','),
        joined_parts(split_parts(list, ','), ',') == list,
{
    let part = split_parts(list, ',')[i];
    lemma_split_joins_back(list, ',');
    let cut = lemma_trimmed(part);
    if trimmed(part).contains(',') {
        let k = choose|k: int| 0 <= k < trimmed(part).len() && trimmed(part)[k] == ',';
        assert(part[cut.0 + k] == ',');
    }
}

/// The parts of a path name a manga by its source and its id there, and a chapter by its id
/// in that manga, each by the part that is called so.
pub proof fn lemma_path_parts_name_what_they_say(
    manga: MangaChaptersPathParams,
    chapter: DownloadMangaChapterParams,
)
    ensures
        <MangaId as FromSpec<MangaChaptersPathParams>>::obeys_from_spec(),
        <ChapterId as FromSpec<DownloadMangaChapterParams>>::obeys_from_spec(),
        <MangaId as FromSpec<MangaChaptersPathParams>>::from_spec(manga)@ == (
            manga.source_id@,
            manga.manga_id@,
        ),
        <ChapterId as FromSpec<DownloadMangaChapterParams>>::from_spec(chapter)@ == (
            chapter.source_id@,
            chapter.manga_id@,
            chapter.chapter_id@,
        ),
{
}

}
