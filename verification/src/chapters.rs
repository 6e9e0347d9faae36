//! Chapters, between the database and the files in which they are stored.
use vstd::prelude::*;
use vstd::string::*;

use crate::chapter_storage::{
    chapter_name, errors_path, first_existing, is_existing, legacy_path, lemma_first_existing,
    ChapterName, ChapterStorage,
};
use crate::database::Database;
use crate::model::{Chapter, ChapterId, ChapterInformation, ChapterState, MangaId};
use crate::paths::{path_extension, path_same};
use crate::queries::{
    answers_cached_chapters, answers_descriptions, answers_read_chapters,
};
use crate::rows::{
    text_or, CachedChapterRow, CachedChapterView, ChapterInformationsRow, DescriptionView,
    ReadChapterRow,
};
use crate::sql;
use crate::statement::{manga_binds, manga_statement, no_binds, statement, Statement};
use crate::storage_files::{
    collected, is_path_listed, lemma_collected, path_listed, FileEntry,
};
use crate::tables::Tables;
use crate::text::{copy_text, lowercased, optional_text, texts};
use crate::web::{parse_optional_url, url_if_any, url_parsed};

verus! {

/// What the file of a cached chapter is named after.
pub open spec fn cached_name(row: CachedChapterRow) -> ChapterName {
    chapter_name(
        (row.source_id@, row.manga_id@, row.chapter_id@),
        text_or(row.manga_title, "Unknown"@),
        row.chapter_number,
        row.volume_number,
    )
}

/// Whether a chapter is stored.
pub open spec fn is_stored(
    storage: ChapterStorage,
    name: ChapterName,
    use_ram: bool,
    existing: Seq<Seq<char>>,
) -> bool {
    first_existing(storage.stored_paths(name, use_ram), existing) is Some
}

/// Whether a row says this of a chapter, with the files there are.
pub open spec fn row_is_chapter(
    row: CachedChapterRow,
    storage: ChapterStorage,
    ram_mode_enabled: bool,
    existing: Seq<Seq<char>>,
    r: Chapter,
) -> bool {
    &&& r.information.id@ == (row.source_id@, row.manga_id@, row.chapter_id@)
    &&& r.information.title == row.title
    &&& r.information.scanlator == row.scanlator
    &&& r.information.chapter_number == row.chapter_number
    &&& r.information.volume_number == row.volume_number
    &&& r.information.last_updated == row.last_updated
    &&& optional_text(r.information.thumbnail) == url_if_any(optional_text(row.thumbnail))
    &&& r.information.lang == row.lang
    &&& r.information.url is None
    &&& r.information.locked == Some(row.locked)
    &&& r.state == ChapterState { read: row.read == Some(true), last_read: row.last_read }
    &&& r.on_tmpfs == (ram_mode_enabled && is_stored(storage, cached_name(row), true, existing))
    &&& r.downloaded == (is_stored(storage, cached_name(row), false, existing) || r.on_tmpfs)
}

/// Whether two descriptions of chapters say the same.
pub open spec fn same_description(a: ChapterInformation, b: ChapterInformation) -> bool {
    &&& a.id@ == b.id@
    &&& optional_text(a.title) == optional_text(b.title)
    &&& optional_text(a.scanlator) == optional_text(b.scanlator)
    &&& optional_text(a.chapter_number) == optional_text(b.chapter_number)
    &&& optional_text(a.volume_number) == optional_text(b.volume_number)
    &&& a.last_updated == b.last_updated
    &&& optional_text(a.thumbnail) == optional_text(b.thumbnail)
    &&& optional_text(a.lang) == optional_text(b.lang)
    &&& optional_text(a.url) == optional_text(b.url)
    &&& a.locked == b.locked
}

/// Whether a row about a cached chapter has the columns of a row with its description.
pub open spec fn same_columns(cached: CachedChapterView, described: DescriptionView) -> bool {
    &&& cached.id == described.id
    &&& cached.title == described.title
    &&& cached.scanlator == described.scanlator
    &&& cached.chapter_number == described.chapter_number
    &&& cached.volume_number == described.volume_number
    &&& cached.last_updated == described.last_updated
    &&& cached.thumbnail == described.thumbnail
    &&& cached.lang == described.lang
    &&& cached.locked == (described.locked != 0)
}

/// The files that belong to a chapter on the disk, in one of its two formats: its own,
/// and the one for the errors of its download.
pub open spec fn files_in_format(
    storage: ChapterStorage,
    name: ChapterName,
    is_novel: bool,
) -> Seq<Seq<char>> {
    let path = storage.chapter_path(name, is_novel, false);
    match errors_path(path) {
        Ok(errors) => seq![path, errors],
        Err(_) => seq![path],
    }
}

/// The files that belong to a chapter on the disk.
pub open spec fn files_of_chapter(storage: ChapterStorage, name: ChapterName) -> Seq<Seq<char>> {
    files_in_format(storage, name, false) + files_in_format(storage, name, true)
}

/// The files that belong to chapters on the disk, one chapter behind the other.
pub open spec fn files_of_chapters(storage: ChapterStorage, names: Seq<ChapterName>) -> Seq<
    Seq<char>,
>
    decreases names.len(),
{
    if names.len() == 0 {
        Seq::empty()
    } else {
        files_of_chapters(storage, names.drop_last()) + files_of_chapter(storage, names.last())
    }
}

/// Those of some paths at which there are files, in order.
pub open spec fn existing_only(paths: Seq<Seq<char>>, existing: Seq<Seq<char>>) -> Seq<Seq<char>>
    decreases paths.len(),
{
    if paths.len() == 0 {
        Seq::empty()
    } else {
        let front = existing_only(paths.drop_last(), existing);
        if existing.contains(paths.last()) {
            front.push(paths.last())
        } else {
            front
        }
    }
}

/// The paths that are not among others, in order.
pub open spec fn not_listed(paths: Seq<Seq<char>>, others: Seq<Seq<char>>) -> Seq<Seq<char>>
    decreases paths.len(),
{
    if paths.len() == 0 {
        Seq::empty()
    } else {
        let front = not_listed(paths.drop_last(), others);
        if path_listed(others, paths.last()) {
            front
        } else {
            front.push(paths.last())
        }
    }
}

/// What the files of known chapters are looked for under.
pub open spec fn known_names(rows: Seq<ChapterInformationsRow>) -> Seq<ChapterName> {
    rows.map_values(
        |row: ChapterInformationsRow|
            chapter_name(
                (row.source_id@, row.manga_id@, row.chapter_id@),
                "Unknown Manga"@,
                row.chapter_number,
                row.volume_number,
            ),
    )
}

/// What the files of chapters that have been read are looked for under.
pub open spec fn read_names(rows: Seq<ReadChapterRow>) -> Seq<ChapterName> {
    rows.map_values(
        |row: ReadChapterRow|
            chapter_name(
                (row.source_id@, row.manga_id@, row.chapter_id@),
                text_or(row.manga_title, "Unknown Manga"@),
                row.chapter_number,
                row.volume_number,
            ),
    )
}

/// What is looked for when files are cleaned up.
#[derive(Clone, Debug, PartialEq, Eq)]
pub enum CleanUp {
    /// Files of the folder on the disk that belong to no chapter of the database.
    Orphans { entries: Vec<FileEntry>, rows: Vec<ChapterInformationsRow> },
    /// Files of chapters that have been read.
    Read { rows: Vec<ReadChapterRow> },
}

impl CleanUp {
    /// The files that the chapters of the database would have.
    pub open spec fn chapter_files(self, storage: ChapterStorage) -> Seq<Seq<char>> {
        match self {
            CleanUp::Orphans { entries, rows } => files_of_chapters(storage, known_names(rows@)),
            CleanUp::Read { rows } => files_of_chapters(storage, read_names(rows@)),
        }
    }

    /// The files that are found.
    pub open spec fn found(self, storage: ChapterStorage, existing: Seq<Seq<char>>) -> Seq<
        Seq<char>,
    > {
        let files = existing_only(self.chapter_files(storage), existing);
        match self {
            CleanUp::Orphans { entries, rows } => not_listed(collected(entries@), files),
            CleanUp::Read { rows } => files,
        }
    }
}

/// The title, or another one where it is absent.
fn title_or<'a>(title: &'a Option<String>, other: &'a str) -> (r: &'a str)
    ensures
        r@ == text_or(*title, other@),
{
    match title {
        Some(title) => title.as_str(),
        None => other,
    }
}

/// Reads a chapter from a row, with the files there are.
fn read_chapter(
    row: &CachedChapterRow,
    storage: &ChapterStorage,
    ram_mode_enabled: bool,
    existing: &Vec<String>,
) -> (r: Chapter)
    ensures
        row_is_chapter(*row, *storage, ram_mode_enabled, texts(existing@), r),
{
    let id = ChapterId::from_strings(
        row.source_id.clone(),
        row.manga_id.clone(),
        row.chapter_id.clone(),
    );
    let title = title_or(&row.manga_title, "Unknown");
    let stored = storage.get_stored_chapter(
        &row.chapter_number,
        title,
        &row.volume_number,
        &id,
        false,
        existing,
    );
    let on_tmpfs = ram_mode_enabled && storage.get_stored_chapter(
        &row.chapter_number,
        title,
        &row.volume_number,
        &id,
        true,
        existing,
    ).is_some();
    let read = match row.read {
        Some(read) => read,
        None => false,
    };
    let information = ChapterInformation {
        id,
        title: copy_text(&row.title),
        scanlator: copy_text(&row.scanlator),
        chapter_number: copy_text(&row.chapter_number),
        volume_number: copy_text(&row.volume_number),
        last_updated: row.last_updated,
        thumbnail: parse_optional_url(&row.thumbnail),
        lang: copy_text(&row.lang),
        url: None,
        locked: Some(row.locked),
    };
    Chapter {
        information,
        state: ChapterState { read, last_read: row.last_read },
        downloaded: stored.is_some() || on_tmpfs,
        on_tmpfs,
    }
}

/// Adds the files that belong to a chapter on the disk, in one of its formats.
fn add_files_in_format(
    files: &mut Vec<String>,
    storage: &ChapterStorage,
    chapter_number: &Option<String>,
    manga_title: &str,
    volume_number: &Option<String>,
    id: &ChapterId,
    is_novel: bool,
)
    ensures
        texts(final(files)@) == texts(old(files)@) + files_in_format(
            *storage,
            chapter_name(id@, manga_title@, *chapter_number, *volume_number),
            is_novel,
        ),
{
    let path = storage.get_path_to_store_chapter(
        chapter_number,
        manga_title,
        volume_number,
        id,
        is_novel,
        false,
    );
    let errors = storage.errors_source_path(path.as_str());
    files.push(path);
    if let Ok(errors) = errors {
        files.push(errors);
    }
    assert(texts(files@) =~= texts(old(files)@) + files_in_format(
        *storage,
        chapter_name(id@, manga_title@, *chapter_number, *volume_number),
        is_novel,
    ));
}

/// Adds the files that belong to a chapter on the disk.
fn add_files(
    files: &mut Vec<String>,
    storage: &ChapterStorage,
    chapter_number: &Option<String>,
    manga_title: &str,
    volume_number: &Option<String>,
    id: &ChapterId,
)
    ensures
        texts(final(files)@) == texts(old(files)@) + files_of_chapter(
            *storage,
            chapter_name(id@, manga_title@, *chapter_number, *volume_number),
        ),
{
    add_files_in_format(files, storage, chapter_number, manga_title, volume_number, id, false);
    add_files_in_format(files, storage, chapter_number, manga_title, volume_number, id, true);
    assert(texts(files@) =~= texts(old(files)@) + files_of_chapter(
        *storage,
        chapter_name(id@, manga_title@, *chapter_number, *volume_number),
    ));
}

/// Lists the files that known chapters would have.
#[verifier::rlimit(40)]
fn known_files(storage: &ChapterStorage, rows: &Vec<ChapterInformationsRow>) -> (r: Vec<String>)
    ensures
        texts(r@) == files_of_chapters(*storage, known_names(rows@)),
{
    let ghost names = known_names(rows@);
    let mut files: Vec<String> = Vec::new();
    let mut i: usize = 0;
    assert(texts(files@) =~= files_of_chapters(*storage, names.take(0)));
    while i < rows.len()
        invariant
            i <= rows.len(),
            names == known_names(rows@),
            texts(files@) == files_of_chapters(*storage, names.take(i as int)),
        decreases rows.len() - i,
    {
        let row = &rows[i];
        let id = ChapterId::from_strings(
            row.source_id.clone(),
            row.manga_id.clone(),
            row.chapter_id.clone(),
        );
        add_files(
            &mut files,
            storage,
            &row.chapter_number,
            "Unknown Manga",
            &row.volume_number,
            &id,
        );
        i += 1;
        assert(names.take(i as int).drop_last() =~= names.take(i - 1));
    }
    assert(names.take(i as int) =~= names);
    files
}

/// Lists the files that chapters that have been read would have.
#[verifier::rlimit(40)]
fn read_files(storage: &ChapterStorage, rows: &Vec<ReadChapterRow>) -> (r: Vec<String>)
    ensures
        texts(r@) == files_of_chapters(*storage, read_names(rows@)),
{
    let ghost names = read_names(rows@);
    let mut files: Vec<String> = Vec::new();
    let mut i: usize = 0;
    assert(texts(files@) =~= files_of_chapters(*storage, names.take(0)));
    while i < rows.len()
        invariant
            i <= rows.len(),
            names == read_names(rows@),
            texts(files@) == files_of_chapters(*storage, names.take(i as int)),
        decreases rows.len() - i,
    {
        let row = &rows[i];
        let id = ChapterId::from_strings(
            row.source_id.clone(),
            row.manga_id.clone(),
            row.chapter_id.clone(),
        );
        add_files(
            &mut files,
            storage,
            &row.chapter_number,
            title_or(&row.manga_title, "Unknown Manga"),
            &row.volume_number,
            &id,
        );
        i += 1;
        assert(names.take(i as int).drop_last() =~= names.take(i - 1));
    }
    assert(names.take(i as int) =~= names);
    files
}

/// Keeps those of some paths at which there are files.
fn keep_existing(paths: &Vec<String>, existing: &Vec<String>) -> (r: Vec<String>)
    ensures
        texts(r@) == existing_only(texts(paths@), texts(existing@)),
{
    let ghost all = texts(paths@);
    let mut r: Vec<String> = Vec::new();
    let mut i: usize = 0;
    assert(texts(r@) =~= existing_only(all.take(0), texts(existing@)));
    while i < paths.len()
        invariant
            i <= paths.len(),
            all == texts(paths@),
            texts(r@) == existing_only(all.take(i as int), texts(existing@)),
        decreases paths.len() - i,
    {
        let ghost before = texts(r@);
        assert(all.take(i + 1).drop_last() =~= all.take(i as int));
        if is_existing(existing, paths[i].as_str()) {
            r.push(paths[i].clone());
            assert(texts(r@) =~= before.push(all[i as int]));
        }
        i += 1;
    }
    assert(all.take(i as int) =~= all);
    r
}

/// Keeps those of some paths that are not among others.
fn keep_not_listed(paths: &Vec<String>, others: &Vec<String>) -> (r: Vec<String>)
    ensures
        texts(r@) == not_listed(texts(paths@), texts(others@)),
{
    let ghost all = texts(paths@);
    let mut r: Vec<String> = Vec::new();
    let mut i: usize = 0;
    assert(texts(r@) =~= not_listed(all.take(0), texts(others@)));
    while i < paths.len()
        invariant
            i <= paths.len(),
            all == texts(paths@),
            texts(r@) == not_listed(all.take(i as int), texts(others@)),
        decreases paths.len() - i,
    {
        let ghost before = texts(r@);
        assert(all.take(i + 1).drop_last() =~= all.take(i as int));
        if !is_path_listed(others, paths[i].as_str()) {
            r.push(paths[i].clone());
            assert(texts(r@) =~= before.push(all[i as int]));
        }
        i += 1;
    }
    assert(all.take(i as int) =~= all);
    r
}

impl Database {
    /// Asks for the cached chapters of a manga.
    pub fn find_cached_chapters_statement(&self, manga_id: &MangaId) -> (r: Statement)
        ensures
            r.is(sql::FIND_CHAPTERS@, manga_binds(manga_id@)),
            forall|tables: Tables, rows: Seq<CachedChapterView>| #[trigger]
                answers_cached_chapters(r@, tables, rows) ==> tables.answers_cached(
                    manga_id@,
                    rows,
                ),
    {
        manga_statement(sql::FIND_CHAPTERS, manga_id)
    }

    /// The paths at which a cached chapter may be stored, on the disk or in memory.
    pub fn cached_chapter_paths(
        &self,
        row: &CachedChapterRow,
        chapter_storage: &ChapterStorage,
        use_ram: bool,
    ) -> (r: Vec<String>)
        ensures
            texts(r@) == chapter_storage.stored_paths(cached_name(*row), use_ram),
    {
        let id = ChapterId::from_strings(
            row.source_id.clone(),
            row.manga_id.clone(),
            row.chapter_id.clone(),
        );
        chapter_storage.stored_chapter_paths(
            &row.chapter_number,
            title_or(&row.manga_title, "Unknown"),
            &row.volume_number,
            &id,
            use_ram,
        )
    }

    /// The cached chapters of a manga, each with whether it is stored, where `existing`
    /// are the paths at which there are files.
    pub fn find_cached_chapters(
        &self,
        rows: &Vec<CachedChapterRow>,
        chapter_storage: &ChapterStorage,
        ram_mode_enabled: bool,
        existing: &Vec<String>,
    ) -> (r: Vec<Chapter>)
        ensures
            r@.len() == rows@.len(),
            forall|i: int|
                0 <= i < r@.len() ==> row_is_chapter(
                    rows@[i],
                    *chapter_storage,
                    ram_mode_enabled,
                    texts(existing@),
                    #[trigger] r@[i],
                ),
    {
        let mut r: Vec<Chapter> = Vec::new();
        let mut i: usize = 0;
        while i < rows.len()
            invariant
                i <= rows.len(),
                r@.len() == i,
                forall|j: int|
                    0 <= j < i ==> row_is_chapter(
                        rows@[j],
                        *chapter_storage,
                        ram_mode_enabled,
                        texts(existing@),
                        #[trigger] r@[j],
                    ),
            decreases rows.len() - i,
        {
            r.push(read_chapter(&rows[i], chapter_storage, ram_mode_enabled, existing));
            i += 1;
        }
        r
    }

    /// Asks for the chapters whose files are looked for.
    pub fn find_orphan_or_read_files_statement(&self, invalid_mode: bool) -> (r: Statement)
        ensures
            r.is(
                if invalid_mode {
                    sql::ALL_CHAPTER_INFORMATIONS@
                } else {
                    sql::READ_CHAPTERS@
                },
                Seq::empty(),
            ),
            invalid_mode ==> forall|
                tables: Tables,
                rows: Seq<DescriptionView>,
                k: (Seq<char>, Seq<char>, Seq<char>),
            |
                #![trigger answers_descriptions(r@, tables, rows), tables.chapters.dom().contains(k)]
                answers_descriptions(r@, tables, rows) && tables.chapters.dom().contains(k)
                    ==> rows.contains(tables.chapters[k]),
            !invalid_mode ==> forall|tables: Tables, rows: Seq<ReadChapterRow>, i: int|
                #![trigger answers_read_chapters(r@, tables, rows), rows[i]]
                answers_read_chapters(r@, tables, rows) && 0 <= i < rows.len() ==> tables.is_read(
                    (rows[i].source_id@, rows[i].manga_id@, rows[i].chapter_id@),
                ),
            !invalid_mode ==> forall|
                tables: Tables,
                rows: Seq<ReadChapterRow>,
                id: (Seq<char>, Seq<char>, Seq<char>),
            |
                #![trigger answers_read_chapters(r@, tables, rows), tables.is_read(id)]
                answers_read_chapters(r@, tables, rows) && tables.is_read(id) ==> exists|i: int|
                    0 <= i < rows.len() && ((#[trigger] rows[i]).source_id@, rows[i].manga_id@, rows[
                        i
                    ].chapter_id@) == id,
    {
        if invalid_mode {
            statement(sql::ALL_CHAPTER_INFORMATIONS, no_binds())
        } else {
            statement(sql::READ_CHAPTERS, no_binds())
        }
    }

    /// The files that the chapters of the database would have, of which it has to be
    /// found out whether they are there.
    pub fn orphan_or_read_candidates(
        &self,
        chapter_storage: &ChapterStorage,
        clean_up: &CleanUp,
    ) -> (r: Vec<String>)
        ensures
            texts(r@) == clean_up.chapter_files(*chapter_storage),
    {
        match clean_up {
            CleanUp::Orphans { entries, rows } => known_files(chapter_storage, rows),
            CleanUp::Read { rows } => read_files(chapter_storage, rows),
        }
    }

    /// Files that belong to no chapter of the database, or that belong to chapters that
    /// have been read, where `existing` are the paths at which there are files.
    pub fn find_orphan_or_read_files(
        &self,
        chapter_storage: &ChapterStorage,
        clean_up: &CleanUp,
        existing: &Vec<String>,
    ) -> (r: Vec<String>)
        ensures
            texts(r@) == clean_up.found(*chapter_storage, texts(existing@)),
    {
        let candidates = self.orphan_or_read_candidates(chapter_storage, clean_up);
        let files = keep_existing(&candidates, existing);
        match clean_up {
            CleanUp::Orphans { entries, rows } => {
                let all = chapter_storage.collect_all_files(entries);
                keep_not_listed(&all, &files)
            },
            CleanUp::Read { rows } => files,
        }
    }
}

/// The paths that are kept for having files are those paths that have files.
pub proof fn lemma_existing_only(paths: Seq<Seq<char>>, existing: Seq<Seq<char>>, path: Seq<char>)
    ensures
        existing_only(paths, existing).contains(path) <==> paths.contains(path)
            && existing.contains(path),
    decreases paths.len(),
{
    if paths.len() > 0 {
        let front = paths.drop_last();
        let before = existing_only(front, existing);
        let now = existing_only(paths, existing);
        lemma_existing_only(front, existing, path);
        if before.contains(path) {
            let k = choose|k: int| 0 <= k < before.len() && before[k] == path;
            assert(now[k] == path);
        }
        if front.contains(path) {
            let k = choose|k: int| 0 <= k < front.len() && front[k] == path;
            assert(paths[k] == path);
        }
        if now.contains(path) && !before.contains(path) {
            let k = choose|k: int| 0 <= k < now.len() && now[k] == path;
            if k < before.len() {
                assert(before[k] == path);
            }
            assert(paths[paths.len() - 1] == path);
        }
        if paths.contains(path) && !front.contains(path) {
            let k = choose|k: int| 0 <= k < paths.len() && paths[k] == path;
            if k < front.len() {
                assert(front[k] == path);
            }
            if existing.contains(path) {
                assert(now[now.len() - 1] == path);
            }
        }
    }
}

/// The paths that are kept for not being among others are those paths that are not.
pub proof fn lemma_not_listed(paths: Seq<Seq<char>>, others: Seq<Seq<char>>, path: Seq<char>)
    ensures
        not_listed(paths, others).contains(path) <==> paths.contains(path) && !path_listed(
            others,
            path,
        ),
    decreases paths.len(),
{
    if paths.len() > 0 {
        let front = paths.drop_last();
        let before = not_listed(front, others);
        let now = not_listed(paths, others);
        lemma_not_listed(front, others, path);
        if before.contains(path) {
            let k = choose|k: int| 0 <= k < before.len() && before[k] == path;
            assert(now[k] == path);
        }
        if front.contains(path) {
            let k = choose|k: int| 0 <= k < front.len() && front[k] == path;
            assert(paths[k] == path);
        }
        if now.contains(path) && !before.contains(path) {
            let k = choose|k: int| 0 <= k < now.len() && now[k] == path;
            if k < before.len() {
                assert(before[k] == path);
            }
            assert(paths[paths.len() - 1] == path);
        }
        if paths.contains(path) && !front.contains(path) {
            let k = choose|k: int| 0 <= k < paths.len() && paths[k] == path;
            if k < front.len() {
                assert(front[k] == path);
            }
            if !path_listed(others, path) {
                assert(now[now.len() - 1] == path);
            }
        }
    }
}

/// A file is an orphan if and only if it is a chapter in the folder and not a file,
/// that is there, of a chapter of the database. A file is found as that of a chapter
/// that has been read if and only if it is one of its files, and there.
pub proof fn lemma_found_files(
    storage: ChapterStorage,
    clean_up: CleanUp,
    existing: Seq<Seq<char>>,
    path: Seq<char>,
)
    ensures
        clean_up.found(storage, existing).contains(path) <==> match clean_up {
            CleanUp::Orphans { entries, rows } => collected(entries@).contains(path) && !exists|
                file: Seq<char>,
            | #[trigger]
                clean_up.chapter_files(storage).contains(file) && existing.contains(file)
                    && path_same(file, path),
            CleanUp::Read { rows } => clean_up.chapter_files(storage).contains(path)
                && existing.contains(path),
        },
{
    let candidates = clean_up.chapter_files(storage);
    let files = existing_only(candidates, existing);
    lemma_existing_only(candidates, existing, path);
    if let CleanUp::Orphans { entries, rows } = clean_up {
        lemma_not_listed(collected(entries@), files, path);
        if path_listed(files, path) {
            let k = choose|k: int| 0 <= k < files.len() && path_same(#[trigger] files[k], path);
            assert(files.contains(files[k]));
            lemma_existing_only(candidates, existing, files[k]);
        }
        if exists|file: Seq<char>| #[trigger]
            candidates.contains(file) && existing.contains(file) && path_same(file, path) {
            let file = choose|file: Seq<char>| #[trigger]
                candidates.contains(file) && existing.contains(file) && path_same(file, path);
            lemma_existing_only(candidates, existing, file);
            let k = choose|k: int| 0 <= k < files.len() && files[k] == file;
            assert(path_same(files[k], path));
        }
    }
}

/// A chapter that is stored in memory counts as downloaded.
pub proof fn lemma_in_memory_is_downloaded(
    row: CachedChapterRow,
    storage: ChapterStorage,
    ram_mode_enabled: bool,
    existing: Seq<Seq<char>>,
    chapter: Chapter,
)
    requires
        row_is_chapter(row, storage, ram_mode_enabled, existing, chapter),
    ensures
        chapter.on_tmpfs ==> chapter.downloaded && ram_mode_enabled,
{
}

/// A row about a cached chapter and a row with its description that have the same columns
/// say the same of the chapter.
pub proof fn lemma_same_columns_say_the_same(
    row: CachedChapterRow,
    storage: ChapterStorage,
    ram_mode_enabled: bool,
    existing: Seq<Seq<char>>,
    chapter: Chapter,
    described: ChapterInformationsRow,
    information: ChapterInformation,
)
    requires
        same_columns(row@, described@),
        row_is_chapter(row, storage, ram_mode_enabled, existing, chapter),
        described.says(information),
    ensures
        same_description(chapter.information, information),
{
}

/// A chapter shows as downloaded if and only if there is a file where the chapter is stored:
/// under its own id, the title of its manga, its number and its volume, as a cbz or as an
/// epub, in the layout of today or the older one; or in memory, where memory counts. It
/// shows as being in memory if and only if it is there.
pub proof fn lemma_downloaded_where_it_is_stored(
    row: CachedChapterRow,
    storage: ChapterStorage,
    ram_mode_enabled: bool,
    existing: Seq<Seq<char>>,
    chapter: Chapter,
)
    requires
        row_is_chapter(row, storage, ram_mode_enabled, existing, chapter),
    ensures
        ({
            let name = ChapterName {
                id: (row.source_id@, row.manga_id@, row.chapter_id@),
                manga_title: match row.manga_title {
                    Some(title) => title@,
                    None => "Unknown"@,
                },
                chapter_number: match row.chapter_number {
                    Some(number) => Some(number@),
                    None => None,
                },
                volume_number: match row.volume_number {
                    Some(number) => Some(number@),
                    None => None,
                },
            };
            let downloads = storage.downloads_folder_path@;
            &&& chapter.on_tmpfs <==> ram_mode_enabled && (existing.contains(
                storage.chapter_path(name, false, true),
            ) || existing.contains(storage.chapter_path(name, true, true)))
            &&& chapter.downloaded <==> chapter.on_tmpfs || existing.contains(
                storage.chapter_path(name, false, false),
            ) || existing.contains(storage.chapter_path(name, true, false)) || existing.contains(
                legacy_path(downloads, name.id, false),
            ) || existing.contains(legacy_path(downloads, name.id, true))
        }),
{
    let name = cached_name(row);
    lemma_found_at_a_path(storage, name, false, existing);
    lemma_found_at_a_path(storage, name, true, existing);
}

/// A chapter is stored where there is a file at one of its paths.
proof fn lemma_found_at_a_path(
    storage: ChapterStorage,
    name: ChapterName,
    use_ram: bool,
    existing: Seq<Seq<char>>,
)
    ensures
        is_stored(storage, name, use_ram, existing) <==> (existing.contains(
            storage.chapter_path(name, false, use_ram),
        ) || existing.contains(storage.chapter_path(name, true, use_ram)) || (!use_ram && (
        existing.contains(legacy_path(storage.downloads_folder_path@, name.id, false))
            || existing.contains(legacy_path(storage.downloads_folder_path@, name.id, true))))),
{
    let paths = storage.stored_paths(name, use_ram);
    lemma_first_existing(paths, existing);
    assert(paths[0] == storage.chapter_path(name, false, use_ram));
    assert(paths[1] == storage.chapter_path(name, true, use_ram));
    if !use_ram {
        assert(paths[2] == legacy_path(storage.downloads_folder_path@, name.id, false));
        assert(paths[3] == legacy_path(storage.downloads_folder_path@, name.id, true));
    }
}

/// What is shown of a cached chapter is what its row holds, each column in its own place.
/// A chapter without a state has not been read; a thumbnail at no URL is not shown.
pub proof fn lemma_cached_chapter_columns(
    row: CachedChapterRow,
    storage: ChapterStorage,
    ram_mode_enabled: bool,
    existing: Seq<Seq<char>>,
    chapter: Chapter,
)
    requires
        row_is_chapter(row, storage, ram_mode_enabled, existing, chapter),
    ensures
        chapter.information.id@.0 == row.source_id@,
        chapter.information.id@.1 == row.manga_id@,
        chapter.information.id@.2 == row.chapter_id@,
        chapter.information.title == row.title,
        chapter.information.scanlator == row.scanlator,
        chapter.information.chapter_number == row.chapter_number,
        chapter.information.volume_number == row.volume_number,
        chapter.information.last_updated == row.last_updated,
        chapter.information.lang == row.lang,
        chapter.information.url is None,
        chapter.information.locked == Some(row.locked),
        row.thumbnail is None ==> chapter.information.thumbnail is None,
        row.thumbnail matches Some(t) ==> optional_text(chapter.information.thumbnail)
            == url_parsed(t@),
        chapter.state.read <==> row.read == Some(true),
        chapter.state.last_read == row.last_read,
{
}

/// A file that a chapter of the database has is no orphan, as long as the chapter is looked
/// for under the title that stands for one that is not known, its own numbers and its own
/// id.
pub proof fn lemma_file_of_known_chapter_is_no_orphan(
    storage: ChapterStorage,
    entries: Vec<FileEntry>,
    rows: Vec<ChapterInformationsRow>,
    existing: Seq<Seq<char>>,
    k: int,
    is_novel: bool,
    path: Seq<char>,
)
    requires
        0 <= k < rows@.len(),
        path == storage.chapter_path(
            ChapterName {
                id: (rows@[k].source_id@, rows@[k].manga_id@, rows@[k].chapter_id@),
                manga_title: "Unknown Manga"@,
                chapter_number: match rows@[k].chapter_number {
                    Some(number) => Some(number@),
                    None => None,
                },
                volume_number: match rows@[k].volume_number {
                    Some(number) => Some(number@),
                    None => None,
                },
            },
            is_novel,
            false,
        ),
        existing.contains(path),
    ensures
        !(CleanUp::Orphans { entries, rows }).found(storage, existing).contains(path),
        errors_path(path) matches Ok(errors) ==> (existing.contains(errors) ==> !(
        CleanUp::Orphans { entries, rows }).found(storage, existing).contains(errors)),
{
    let names = known_names(rows@);
    let clean_up = CleanUp::Orphans { entries, rows };
    lemma_files_of_one_chapter(storage, names, k, is_novel);
    lemma_found_files(storage, clean_up, existing, path);
    assert(clean_up.chapter_files(storage).contains(path));
    if let Ok(errors) = errors_path(path) {
        assert(clean_up.chapter_files(storage).contains(errors));
        lemma_found_files(storage, clean_up, existing, errors);
    }
}

/// A chapter in the folder that no chapter of the database has is an orphan.
pub proof fn lemma_file_of_no_chapter_is_an_orphan(
    storage: ChapterStorage,
    entries: Vec<FileEntry>,
    rows: Vec<ChapterInformationsRow>,
    existing: Seq<Seq<char>>,
    i: int,
)
    requires
        0 <= i < entries@.len(),
        entries@[i].is_file,
        path_extension(entries@[i].path@) matches Some(e) && (lowercased(e) == "cbz"@
            || lowercased(e) == "epub"@),
        rows@.len() == 0,
    ensures
        exists|path: Seq<char>| #[trigger]
            (CleanUp::Orphans { entries, rows }).found(storage, existing).contains(path)
                && path_same(path, entries@[i].path@),
{
    let clean_up = CleanUp::Orphans { entries, rows };
    lemma_collected(entries@);
    let all = collected(entries@);
    assert(path_listed(all, entries@[i].path@));
    let k = choose|k: int| 0 <= k < all.len() && path_same(#[trigger] all[k], entries@[i].path@);
    assert(known_names(rows@).len() == 0);
    assert(clean_up.chapter_files(storage) =~= Seq::empty());
    lemma_found_files(storage, clean_up, existing, all[k]);
    assert(all.contains(all[k]));
}

/// The files of a chapter that has been read are found, its own and the one for the errors
/// of its download, in both formats: under the title of its manga, its numbers and its id.
pub proof fn lemma_files_of_read_chapter_are_found(
    storage: ChapterStorage,
    rows: Vec<ReadChapterRow>,
    existing: Seq<Seq<char>>,
    k: int,
    is_novel: bool,
    path: Seq<char>,
)
    requires
        0 <= k < rows@.len(),
        path == storage.chapter_path(
            ChapterName {
                id: (rows@[k].source_id@, rows@[k].manga_id@, rows@[k].chapter_id@),
                manga_title: match rows@[k].manga_title {
                    Some(title) => title@,
                    None => "Unknown Manga"@,
                },
                chapter_number: match rows@[k].chapter_number {
                    Some(number) => Some(number@),
                    None => None,
                },
                volume_number: match rows@[k].volume_number {
                    Some(number) => Some(number@),
                    None => None,
                },
            },
            is_novel,
            false,
        ),
    ensures
        (CleanUp::Read { rows }).found(storage, existing).contains(path) <==> existing.contains(
            path,
        ),
        errors_path(path) matches Ok(errors) ==> ((CleanUp::Read { rows }).found(
            storage,
            existing,
        ).contains(errors) <==> existing.contains(errors)),
{
    let names = read_names(rows@);
    let clean_up = CleanUp::Read { rows };
    lemma_files_of_one_chapter(storage, names, k, is_novel);
    lemma_found_files(storage, clean_up, existing, path);
    if let Ok(errors) = errors_path(path) {
        lemma_found_files(storage, clean_up, existing, errors);
    }
}

/// Where nothing has been read, no file is found for having been read.
pub proof fn lemma_nothing_read_nothing_found(
    storage: ChapterStorage,
    rows: Vec<ReadChapterRow>,
    existing: Seq<Seq<char>>,
)
    requires
        rows@.len() == 0,
    ensures
        (CleanUp::Read { rows }).found(storage, existing).len() == 0,
{
    assert(read_names(rows@).len() == 0);
    assert((CleanUp::Read { rows }).chapter_files(storage) =~= Seq::empty());
}

/// The files of a chapter are among those of all chapters.
proof fn lemma_files_of_one_chapter(
    storage: ChapterStorage,
    names: Seq<ChapterName>,
    k: int,
    is_novel: bool,
)
    requires
        0 <= k < names.len(),
    ensures
        files_of_chapters(storage, names).contains(
            storage.chapter_path(names[k], is_novel, false),
        ),
        errors_path(storage.chapter_path(names[k], is_novel, false)) matches Ok(errors)
            ==> files_of_chapters(storage, names).contains(errors),
    decreases names.len(),
{
    let path = storage.chapter_path(names[k], is_novel, false);
    let front = files_of_chapters(storage, names.drop_last());
    let last = files_of_chapter(storage, names.last());
    let all = files_of_chapters(storage, names);
    if k < names.len() - 1 {
        lemma_files_of_one_chapter(storage, names.drop_last(), k, is_novel);
        let i = choose|i: int| 0 <= i < front.len() && front[i] == path;
        assert(all[i] == path);
        if let Ok(errors) = errors_path(path) {
            let i = choose|i: int| 0 <= i < front.len() && front[i] == errors;
            assert(all[i] == errors);
        }
    } else {
        let own = files_in_format(storage, names[k], is_novel);
        let start = front.len() + (if is_novel {
            files_in_format(storage, names[k], false).len() as int
        } else {
            0
        });
        assert(own[0] == path);
        assert(all[start] == path);
        if let Ok(errors) = errors_path(path) {
            assert(own[1] == errors);
            assert(all[start + 1] == errors);
        }
    }
}

}
