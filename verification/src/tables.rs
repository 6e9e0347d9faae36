//! The tables of the database, and what the statements of the library mean for them: what
//! SQL says of queries and of upserts, on tables as maps. What is proved here holds of
//! every database that does what SQL says.
use vstd::prelude::*;
use vstd::string::*;

use crate::chapter_storage::ChapterStorage;
use crate::chapters::{
    lemma_same_columns_say_the_same, row_is_chapter, same_columns, same_description,
};
use crate::database::{preferred_scanlator, read_state_binds, unread_of, ReadStateChange};
use crate::details::details_binds;
use crate::library::{
    ids_differ, lemma_listed_keeps_order, lemma_reversed_rows_show_reversed,
    lemma_same_rows_show_permuted, lemma_shown_mangas, listed, permuted_mangas, reversed_mangas,
    show_as, shows_as, source_with_id,
};
use crate::model::{
    Chapter, ChapterInformation, ChapterState, LibrarySortingMode, Manga, MangaState,
    SourceInformation,
};
use crate::ordered::{ascending_by, descending_by, lemma_one_order, lemma_other_way_round};
use crate::rows::{
    cached_rows, description_rows, CachedChapterRow, CachedChapterView, ChapterInformationsRow,
    DescriptionView, LibraryRowView, UnreadChaptersRow,
};
use crate::source;
use crate::sql;
use crate::statement::{BindView, Statement};

verus! {

/// What `manga_informations` holds of a manga.
pub struct MangaColumns {
    pub title: Option<Seq<char>>,
    pub author: Option<Seq<char>>,
    pub artist: Option<Seq<char>>,
    pub cover_url: Option<Seq<char>>,
}

/// The tables, each by its primary key.
pub struct Tables {
    /// `manga_library`: the row id of each manga.
    pub library: Map<(Seq<char>, Seq<char>), int>,
    /// `manga_informations`.
    pub mangas: Map<(Seq<char>, Seq<char>), MangaColumns>,
    /// `manga_state`: the scanlator that the reader prefers.
    pub preferred: Map<(Seq<char>, Seq<char>), Option<Seq<char>>>,
    /// `chapter_informations`.
    pub chapters: Map<(Seq<char>, Seq<char>, Seq<char>), DescriptionView>,
    /// `chapter_state`.
    pub states: Map<(Seq<char>, Seq<char>, Seq<char>), ChapterState>,
}

/// Whether a chapter is one of a manga.
pub open spec fn of_manga(
    chapter: (Seq<char>, Seq<char>, Seq<char>),
    manga: (Seq<char>, Seq<char>),
) -> bool {
    chapter.0 == manga.0 && chapter.1 == manga.1
}

/// Whether a chapter passes for the scanlator that is preferred.
pub open spec fn passes(own: Option<Seq<char>>, preferred: Option<Seq<char>>) -> bool {
    preferred is None || own == preferred || own is None
}

/// Whether a number is the greatest of a set.
pub open spec fn is_greatest(set: Set<int>, x: int) -> bool {
    set.contains(x) && forall|y: int| set.contains(y) ==> y <= x
}

/// `MAX`: the greatest of a set of numbers, and nothing of an empty one.
pub open spec fn greatest(set: Set<int>) -> Option<int> {
    if exists|x: int| is_greatest(set, x) {
        Some(choose|x: int| is_greatest(set, x))
    } else {
        None
    }
}

/// `COALESCE`: a number, or another one where it is absent.
pub open spec fn or_else(x: Option<int>, other: int) -> int {
    match x {
        Some(x) => x,
        None => other,
    }
}

impl Tables {
    /// The scanlator that is preferred for a manga, as the library is joined with it.
    pub open spec fn preferred_for(self, manga: (Seq<char>, Seq<char>)) -> Option<Seq<char>> {
        if self.preferred.dom().contains(manga) {
            self.preferred[manga]
        } else {
            None
        }
    }

    /// Whether this is what `find_manga_state` finds for a manga.
    pub open spec fn settles(self, manga: (Seq<char>, Seq<char>), state: Option<MangaState>) -> bool {
        &&& state is Some <==> self.preferred.dom().contains(manga)
        &&& state is Some ==> preferred_scanlator(state) == self.preferred[manga]
    }

    /// `filtered` of `COUNT_UNREAD_CHAPTERS`: the chapters of a manga that pass for a
    /// scanlator.
    pub open spec fn filtered(
        self,
        manga: (Seq<char>, Seq<char>),
        scanlator: Option<Seq<char>>,
    ) -> Set<(Seq<char>, Seq<char>, Seq<char>)> {
        Set::new(
            |k: (Seq<char>, Seq<char>, Seq<char>)|
                self.chapters.dom().contains(k) && of_manga(k, manga) && passes(
                    self.chapters[k].scanlator,
                    scanlator,
                ),
        )
    }

    /// Whether a chapter has been read.
    pub open spec fn is_read(self, k: (Seq<char>, Seq<char>, Seq<char>)) -> bool {
        self.states.dom().contains(k) && self.states[k].read
    }

    /// `max_read` of `COUNT_UNREAD_CHAPTERS`: the greatest number of a chapter that has
    /// been read, or -1. Numbers are compared by their ranks.
    pub open spec fn max_read(
        self,
        rank: spec_fn(Seq<char>) -> int,
        manga: (Seq<char>, Seq<char>),
        scanlator: Option<Seq<char>>,
    ) -> int {
        or_else(
            greatest(
                Set::new(
                    |v: int|
                        exists|k: (Seq<char>, Seq<char>, Seq<char>)| #[trigger]
                            self.filtered(manga, scanlator).contains(k) && self.is_read(k) && (
                            self.chapters[k].chapter_number matches Some(n) && rank(n) == v),
                ),
            ),
            rank("-1"@),
        )
    }

    /// The chapters that `COUNT_UNREAD_CHAPTERS` counts.
    pub open spec fn counted(
        self,
        rank: spec_fn(Seq<char>) -> int,
        manga: (Seq<char>, Seq<char>),
        scanlator: Option<Seq<char>>,
    ) -> Set<(Seq<char>, Seq<char>, Seq<char>)> {
        self.filtered(manga, scanlator).filter(
            |k: (Seq<char>, Seq<char>, Seq<char>)|
                self.chapters[k].chapter_number matches Some(n) && rank(n) > self.max_read(
                    rank,
                    manga,
                    scanlator,
                ),
        )
    }

    /// Whether a row answers `COUNT_UNREAD_CHAPTERS`.
    pub open spec fn answers_count(
        self,
        rank: spec_fn(Seq<char>) -> int,
        manga: (Seq<char>, Seq<char>),
        scanlator: Option<Seq<char>>,
        row: UnreadChaptersRow,
    ) -> bool {
        &&& row.count == Some(self.counted(rank, manga, scanlator).len() as i64)
        &&& row.has_chapters == Some(
            exists|k: (Seq<char>, Seq<char>, Seq<char>)| #[trigger]
                self.filtered(manga, scanlator).contains(k),
        )
    }

    /// `last_read` of `READ_PROGRESS`: the greatest number of a chapter of a manga that
    /// has been read.
    pub open spec fn last_read_chapter(
        self,
        rank: spec_fn(Seq<char>) -> int,
        manga: (Seq<char>, Seq<char>),
    ) -> Option<int> {
        greatest(
            Set::new(
                |v: int|
                    exists|k: (Seq<char>, Seq<char>, Seq<char>)|
                        {
                            &&& #[trigger] self.chapters.dom().contains(k)
                            &&& self.states.dom().contains(k)
                            &&& of_manga(k, manga)
                            &&& passes(self.chapters[k].scanlator, self.preferred_for(manga))
                            &&& self.states[k].read
                            &&& self.chapters[k].chapter_number matches Some(n) && rank(n) == v
                        },
            ),
        )
    }

    /// `last_time_interacted` of `READ_PROGRESS`: when a chapter of a manga was last read.
    pub open spec fn last_time_interacted(self, manga: (Seq<char>, Seq<char>)) -> Option<int> {
        greatest(
            Set::new(
                |v: int|
                    exists|k: (Seq<char>, Seq<char>, Seq<char>)|
                        {
                            &&& #[trigger] self.chapters.dom().contains(k)
                            &&& self.states.dom().contains(k)
                            &&& of_manga(k, manga)
                            &&& passes(self.chapters[k].scanlator, self.preferred_for(manga))
                            &&& self.states[k].last_read matches Some(t) && t == v
                        },
            ),
        )
    }

    /// The chapters that `LIBRARY_MANGAS` counts for a manga.
    pub open spec fn counted_in_library(
        self,
        rank: spec_fn(Seq<char>) -> int,
        manga: (Seq<char>, Seq<char>),
    ) -> Set<(Seq<char>, Seq<char>, Seq<char>)> {
        Set::new(
            |k: (Seq<char>, Seq<char>, Seq<char>)|
                {
                    &&& self.chapters.dom().contains(k)
                    &&& of_manga(k, manga)
                    &&& passes(self.chapters[k].scanlator, self.preferred_for(manga))
                    &&& self.chapters[k].chapter_number matches Some(n) && rank(n) > or_else(
                        self.last_read_chapter(rank, manga),
                        rank("-1"@),
                    )
                },
        )
    }

    /// The row of `LIBRARY_MANGAS` for a manga.
    pub open spec fn library_row(
        self,
        rank: spec_fn(Seq<char>) -> int,
        manga: (Seq<char>, Seq<char>),
    ) -> LibraryRowView {
        LibraryRowView {
            id: manga,
            title: self.mangas[manga].title,
            author: self.mangas[manga].author,
            artist: self.mangas[manga].artist,
            cover_url: self.mangas[manga].cover_url,
            unread_chapters_count: Some(self.counted_in_library(rank, manga).len() as i64),
            last_read: match self.last_time_interacted(manga) {
                Some(t) => Some(t as i64),
                None => None,
            },
        }
    }

    /// Whether a manga of the library is listed: one that has a description.
    pub open spec fn in_list(self, manga: (Seq<char>, Seq<char>)) -> bool {
        self.library.dom().contains(manga) && self.mangas.dom().contains(manga)
    }

    /// Whether rows answer the query for the library in a sorting mode: one row for each
    /// manga that is listed, and by row ids where the mode says so. Of the other modes only
    /// the rows are said, not their order.
    pub open spec fn answers_library(
        self,
        rank: spec_fn(Seq<char>) -> int,
        mode: LibrarySortingMode,
        rows: Seq<LibraryRowView>,
    ) -> bool {
        &&& rows.no_duplicates()
        &&& forall|row: LibraryRowView| #[trigger]
            rows.contains(row) <==> self.in_list(row.id) && row == self.library_row(rank, row.id)
        &&& mode is Ascending ==> ascending_by(rows, |row: LibraryRowView| self.library[row.id])
        &&& mode is Descending ==> descending_by(rows, |row: LibraryRowView| self.library[row.id])
    }

    /// Whether rows answer `FIND_CHAPTER_INFORMATIONS`: the descriptions of the chapters of
    /// a manga, in their order.
    pub open spec fn answers_descriptions(
        self,
        manga: (Seq<char>, Seq<char>),
        rows: Seq<DescriptionView>,
    ) -> bool {
        &&& rows.no_duplicates()
        &&& forall|row: DescriptionView| #[trigger]
            rows.contains(row) <==> self.chapters.dom().contains(row.id) && of_manga(row.id, manga)
                && self.chapters[row.id] == row
        &&& forall|i: int, j: int|
            0 <= i < j < rows.len() ==> (#[trigger] rows[i]).manga_order <= (
            #[trigger] rows[j]).manga_order
    }

    /// The row of `FIND_CHAPTERS` for a description.
    pub open spec fn cached_row(self, described: DescriptionView) -> CachedChapterView {
        let manga = (described.id.0, described.id.1);
        CachedChapterView {
            id: described.id,
            title: described.title,
            scanlator: described.scanlator,
            chapter_number: described.chapter_number,
            volume_number: described.volume_number,
            last_updated: described.last_updated,
            thumbnail: described.thumbnail,
            lang: described.lang,
            locked: described.locked != 0,
            manga_title: if self.mangas.dom().contains(manga) {
                self.mangas[manga].title
            } else {
                None
            },
            read: if self.states.dom().contains(described.id) {
                Some(self.states[described.id].read)
            } else {
                None
            },
            last_read: if self.states.dom().contains(described.id) {
                self.states[described.id].last_read
            } else {
                None
            },
        }
    }

    /// Whether rows answer `FIND_CHAPTERS`: those of the descriptions of the chapters of a
    /// manga, in their order.
    pub open spec fn answers_cached(
        self,
        manga: (Seq<char>, Seq<char>),
        rows: Seq<CachedChapterView>,
    ) -> bool {
        exists|described: Seq<DescriptionView>| #[trigger]
            self.answers_descriptions(manga, described) && rows == described.map_values(
                |d: DescriptionView| self.cached_row(d),
            )
    }

    /// Whether no two chapters of a manga have the same place.
    pub open spec fn places_differ(self, manga: (Seq<char>, Seq<char>)) -> bool {
        forall|
            a: (Seq<char>, Seq<char>, Seq<char>),
            b: (Seq<char>, Seq<char>, Seq<char>),
        |
            #![trigger self.chapters[a], self.chapters[b]]
            self.chapters.dom().contains(a) && self.chapters.dom().contains(b) && of_manga(a, manga)
                && of_manga(b, manga) && a != b ==> self.chapters[a].manga_order
                != self.chapters[b].manga_order
    }

    /// What `find_chapter_state` gives for a chapter, and where that is nothing, what a
    /// chapter has that nothing was done with.
    pub open spec fn state_or_none(self, k: (Seq<char>, Seq<char>, Seq<char>)) -> ChapterState {
        if self.states.dom().contains(k) {
            self.states[k]
        } else {
            ChapterState { read: false, last_read: None }
        }
    }
}

proof fn lemma_library_rows_differ(
    tables: Tables,
    rank: spec_fn(Seq<char>) -> int,
    mode: LibrarySortingMode,
    rows: Seq<LibraryRowView>,
)
    requires
        tables.answers_library(rank, mode, rows),
    ensures
        ids_differ(rows),
{
    assert forall|i: int, j: int| 0 <= i < j < rows.len() implies (#[trigger] rows[i]).id != (
    #[trigger] rows[j]).id by {
        assert(rows.contains(rows[i]));
        assert(rows.contains(rows[j]));
        assert(rows[i] != rows[j]);
    }
}

/// On the same tables and with the same sources, the library in descending order is the
/// library in ascending order from the last manga to the first.
pub proof fn lemma_descending_is_ascending_reversed(
    tables: Tables,
    rank: spec_fn(Seq<char>) -> int,
    ascending: Seq<LibraryRowView>,
    descending: Seq<LibraryRowView>,
    sources: Seq<SourceInformation>,
    a: Seq<Manga>,
    d: Seq<Manga>,
)
    requires
        tables.answers_library(rank, LibrarySortingMode::Ascending, ascending),
        tables.answers_library(rank, LibrarySortingMode::Descending, descending),
        show_as(ascending, sources, true, a),
        show_as(descending, sources, true, d),
    ensures
        reversed_mangas(d, a),
{
    assert forall|row: LibraryRowView| ascending.contains(row) <==> descending.contains(row) by {}
    lemma_other_way_round(ascending, descending, |row: LibraryRowView| tables.library[row.id]);
    lemma_reversed_rows_show_reversed(ascending, sources, true, a, d);
}

/// On the same tables and with the same sources, the library in any two sorting modes is
/// the same mangas, none of them twice. They are exactly the mangas of the library that
/// have a description and a source that is installed, and each is marked as being in the
/// library.
pub proof fn lemma_modes_permute_the_library(
    tables: Tables,
    rank: spec_fn(Seq<char>) -> int,
    a_mode: LibrarySortingMode,
    b_mode: LibrarySortingMode,
    a_rows: Seq<LibraryRowView>,
    b_rows: Seq<LibraryRowView>,
    sources: Seq<SourceInformation>,
    a: Seq<Manga>,
    b: Seq<Manga>,
    id: (Seq<char>, Seq<char>),
)
    requires
        tables.answers_library(rank, a_mode, a_rows),
        tables.answers_library(rank, b_mode, b_rows),
        show_as(a_rows, sources, true, a),
        show_as(b_rows, sources, true, b),
    ensures
        permuted_mangas(a, b),
        (exists|i: int| 0 <= i < a.len() && (#[trigger] a[i]).information.id@ == id) <==> (
        tables.in_list(id) && source_with_id(sources, id.0) is Some),
        forall|i: int| 0 <= i < a.len() ==> (#[trigger] a[i]).in_library,
{
    assert forall|row: LibraryRowView| a_rows.contains(row) <==> b_rows.contains(row) by {}
    lemma_library_rows_differ(tables, rank, a_mode, a_rows);
    lemma_library_rows_differ(tables, rank, b_mode, b_rows);
    lemma_same_rows_show_permuted(a_rows, b_rows, sources, true, a, b);
    lemma_shown_mangas(a_rows, sources, true, a, id);
    if exists|i: int| 0 <= i < a_rows.len() && (#[trigger] a_rows[i]).id == id {
        let i = choose|i: int| 0 <= i < a_rows.len() && (#[trigger] a_rows[i]).id == id;
        assert(a_rows.contains(a_rows[i]));
    }
    if tables.in_list(id) {
        let row = tables.library_row(rank, id);
        assert(row.id == id);
        assert(a_rows.contains(row));
        let i = choose|i: int| 0 <= i < a_rows.len() && a_rows[i] == row;
        assert(a_rows[i].id == id);
    }
}

proof fn lemma_same_chapters_counted(
    tables: Tables,
    rank: spec_fn(Seq<char>) -> int,
    manga: (Seq<char>, Seq<char>),
)
    ensures
        tables.counted(rank, manga, tables.preferred_for(manga)) == tables.counted_in_library(
            rank,
            manga,
        ),
{
    let scanlator = tables.preferred_for(manga);
    let alone = Set::new(
        |v: int|
            exists|k: (Seq<char>, Seq<char>, Seq<char>)| #[trigger]
                tables.filtered(manga, scanlator).contains(k) && tables.is_read(k) && (
                tables.chapters[k].chapter_number matches Some(n) && rank(n) == v),
    );
    let joined = Set::new(
        |v: int|
            exists|k: (Seq<char>, Seq<char>, Seq<char>)|
                {
                    &&& #[trigger] tables.chapters.dom().contains(k)
                    &&& tables.states.dom().contains(k)
                    &&& of_manga(k, manga)
                    &&& passes(tables.chapters[k].scanlator, scanlator)
                    &&& tables.states[k].read
                    &&& tables.chapters[k].chapter_number matches Some(n) && rank(n) == v
                },
    );
    assert forall|v: int| alone.contains(v) == joined.contains(v) by {
        if alone.contains(v) {
            let k = choose|k: (Seq<char>, Seq<char>, Seq<char>)| #[trigger]
                tables.filtered(manga, scanlator).contains(k) && tables.is_read(k) && (
                tables.chapters[k].chapter_number matches Some(n) && rank(n) == v);
            assert(tables.chapters.dom().contains(k));
        }
        if joined.contains(v) {
            let k = choose|k: (Seq<char>, Seq<char>, Seq<char>)|
                {
                    &&& #[trigger] tables.chapters.dom().contains(k)
                    &&& tables.states.dom().contains(k)
                    &&& of_manga(k, manga)
                    &&& passes(tables.chapters[k].scanlator, scanlator)
                    &&& tables.states[k].read
                    &&& tables.chapters[k].chapter_number matches Some(n) && rank(n) == v
                };
            assert(tables.filtered(manga, scanlator).contains(k));
        }
    }
    assert(alone =~= joined);
    assert(tables.counted(rank, manga, scanlator) =~= tables.counted_in_library(rank, manga));
}

/// On the same tables, the number of unread chapters that the library shows of a manga is
/// the one that is counted for the manga alone, and 0 where nothing is counted since the
/// manga has no chapters.
pub proof fn lemma_library_counts_as_counted_alone(
    tables: Tables,
    rank: spec_fn(Seq<char>) -> int,
    mode: LibrarySortingMode,
    rows: Seq<LibraryRowView>,
    sources: Seq<SourceInformation>,
    mangas: Seq<Manga>,
    i: int,
    state: Option<MangaState>,
    counted: UnreadChaptersRow,
)
    requires
        tables.answers_library(rank, mode, rows),
        show_as(rows, sources, true, mangas),
        0 <= i < mangas.len(),
        tables.settles(mangas[i].information.id@, state),
        tables.answers_count(
            rank,
            mangas[i].information.id@,
            preferred_scanlator(state),
            counted,
        ),
    ensures
        mangas[i].unread_chapters_count == Some(
            match unread_of(counted) {
                Some(count) => count,
                None => 0,
            },
        ),
{
    let manga = mangas[i];
    let id = manga.information.id@;
    let shown = listed(rows, sources);
    assert(shows_as(shown[i], sources, true, manga));
    lemma_listed_keeps_order(rows, sources, 0);
    assert(rows.contains(shown[i]));
    assert(shown[i] == tables.library_row(rank, id));
    assert(preferred_scanlator(state) == tables.preferred_for(id));
    lemma_same_chapters_counted(tables, rank, id);
    let scanlator = tables.preferred_for(id);
    if counted.has_chapters == Some(false) {
        assert(tables.counted(rank, id, scanlator) =~= Set::empty());
    }
}

proof fn lemma_descriptions_ascend(
    tables: Tables,
    manga: (Seq<char>, Seq<char>),
    rows: Seq<DescriptionView>,
)
    requires
        tables.answers_descriptions(manga, rows),
        tables.places_differ(manga),
    ensures
        ascending_by(rows, |d: DescriptionView| d.manga_order as int),
{
    let place = |d: DescriptionView| d.manga_order as int;
    assert forall|i: int, j: int| 0 <= i < j < rows.len() implies place(#[trigger] rows[i]) < place(
        #[trigger] rows[j],
    ) by {
        assert(rows.contains(rows[i]));
        assert(rows.contains(rows[j]));
        assert(rows[i] != rows[j]);
        assert(tables.chapters[rows[i].id] == rows[i]);
        assert(tables.chapters[rows[j].id] == rows[j]);
    }
}

/// On the same tables, the cached chapters of a manga are the cached descriptions of its
/// chapters, as many and in the same order, each with its state. A chapter without one has
/// not been read. No two chapters of the manga may have the same place.
pub proof fn lemma_cached_chapters_are_descriptions_with_states(
    tables: Tables,
    manga: (Seq<char>, Seq<char>),
    rows: Seq<CachedChapterRow>,
    storage: ChapterStorage,
    ram_mode_enabled: bool,
    existing: Seq<Seq<char>>,
    chapters: Seq<Chapter>,
    described: Seq<ChapterInformationsRow>,
    informations: Seq<ChapterInformation>,
)
    requires
        tables.places_differ(manga),
        tables.answers_cached(manga, cached_rows(rows)),
        tables.answers_descriptions(manga, description_rows(described)),
        chapters.len() == rows.len(),
        forall|i: int|
            0 <= i < chapters.len() ==> row_is_chapter(
                rows[i],
                storage,
                ram_mode_enabled,
                existing,
                #[trigger] chapters[i],
            ),
        informations.len() == described.len(),
        forall|i: int|
            0 <= i < informations.len() ==> described[i].says(#[trigger] informations[i]),
    ensures
        chapters.len() == informations.len(),
        forall|i: int|
            0 <= i < chapters.len() ==> {
                &&& same_description((#[trigger] chapters[i]).information, informations[i])
                &&& chapters[i].state == tables.state_or_none(chapters[i].information.id@)
            },
{
    let views = description_rows(described);
    let joined = choose|joined: Seq<DescriptionView>| #[trigger]
        tables.answers_descriptions(manga, joined) && cached_rows(rows) == joined.map_values(
            |d: DescriptionView| tables.cached_row(d),
        );
    let place = |d: DescriptionView| d.manga_order as int;
    lemma_descriptions_ascend(tables, manga, views);
    lemma_descriptions_ascend(tables, manga, joined);
    assert forall|d: DescriptionView| views.contains(d) <==> joined.contains(d) by {}
    lemma_one_order(views, joined, place);
    assert(cached_rows(rows).len() == joined.len());
    assert forall|i: int| 0 <= i < chapters.len() implies {
        &&& same_description((#[trigger] chapters[i]).information, informations[i])
        &&& chapters[i].state == tables.state_or_none(chapters[i].information.id@)
    } by {
        assert(cached_rows(rows)[i] == rows[i]@);
        assert(rows[i]@ == tables.cached_row(joined[i]));
        assert(views[i] == described[i]@);
        assert(same_columns(rows[i]@, described[i]@));
        assert(described[i].says(informations[i]));
        lemma_same_columns_say_the_same(
            rows[i],
            storage,
            ram_mode_enabled,
            existing,
            chapters[i],
            described[i],
            informations[i],
        );
    }
}

/// The text that is bound.
pub open spec fn bound_text(bind: BindView) -> Seq<char> {
    match bind {
        BindView::Text(t) => t,
        _ => Seq::empty(),
    }
}

/// `manga_details` after `UPSERT_MANGA_DETAILS`: the first two values are the key, and the
/// others take the place of every other column.
pub open spec fn details_upserted(
    table: Map<(Seq<char>, Seq<char>), Seq<BindView>>,
    binds: Seq<BindView>,
) -> Map<(Seq<char>, Seq<char>), Seq<BindView>> {
    table.insert((bound_text(binds[0]), bound_text(binds[1])), binds.skip(2))
}

/// Once the details of a manga were written there is one row for it, under the id with
/// which they were written whatever they say of it themselves. Its columns are what was
/// written, nothing in the place of something among it, and no other row has changed.
/// Writing the same again changes nothing.
pub proof fn lemma_details_are_written_once(
    table: Map<(Seq<char>, Seq<char>), Seq<BindView>>,
    id: (Seq<char>, Seq<char>),
    manga: source::Manga,
    write: Statement,
)
    requires
        write.is(sql::UPSERT_MANGA_DETAILS@, details_binds(id, manga)),
    ensures
        ({
            let after = details_upserted(table, write@.1);
            &&& after.dom() == table.dom().insert(id)
            &&& after[id] == details_binds(id, manga).skip(2)
            &&& forall|other: (Seq<char>, Seq<char>)|
                other != id && table.dom().contains(other) ==> #[trigger] after[other]
                    == table[other]
            &&& details_upserted(after, write@.1) == after
        }),
{
    let binds = details_binds(id, manga);
    assert(bound_text(binds[0]) == id.0);
    assert(bound_text(binds[1]) == id.1);
    let after = details_upserted(table, binds);
    assert(after.dom() =~= table.dom().insert(id));
    assert(details_upserted(after, binds) =~= after);
}

/// Whether a truth value is bound, and true.
pub open spec fn bound_true(bind: BindView) -> bool {
    bind == BindView::Boolean(true)
}

/// `chapter_state` after chapters were marked, one row of four values behind the other. A
/// row that is there keeps when the chapter was last read, where it is marked as read; one
/// that is new has no such time.
pub open spec fn states_marked(
    states: Map<(Seq<char>, Seq<char>, Seq<char>), ChapterState>,
    binds: Seq<BindView>,
) -> Map<(Seq<char>, Seq<char>, Seq<char>), ChapterState>
    decreases binds.len(),
{
    if binds.len() < 4 {
        states
    } else {
        let n = binds.len() - 4;
        let before = states_marked(states, binds.take(n));
        let key = (bound_text(binds[n]), bound_text(binds[n + 1]), bound_text(binds[n + 2]));
        let read = bound_true(binds[n + 3]);
        before.insert(
            key,
            ChapterState {
                read,
                last_read: if read && before.dom().contains(key) {
                    before[key].last_read
                } else {
                    None
                },
            },
        )
    }
}

/// `chapter_state` after the statement of a change, where there is one.
pub open spec fn states_after(
    states: Map<(Seq<char>, Seq<char>, Seq<char>), ChapterState>,
    change: ReadStateChange,
) -> Map<(Seq<char>, Seq<char>, Seq<char>), ChapterState> {
    match change.write {
        Some(write) => states_marked(states, write@.1),
        None => states,
    }
}

/// The state of a chapter that was marked.
pub open spec fn marked_state(
    states: Map<(Seq<char>, Seq<char>, Seq<char>), ChapterState>,
    id: (Seq<char>, Seq<char>, Seq<char>),
    read: bool,
) -> ChapterState {
    ChapterState {
        read,
        last_read: if read && states.dom().contains(id) {
            states[id].last_read
        } else {
            None
        },
    }
}

/// A chapter that was marked has the state that the mark gives it, and one that was not has
/// the state that it had.
pub proof fn lemma_states_marked(
    states: Map<(Seq<char>, Seq<char>, Seq<char>), ChapterState>,
    ids: Seq<(Seq<char>, Seq<char>, Seq<char>)>,
    read: bool,
    k: (Seq<char>, Seq<char>, Seq<char>),
)
    ensures
        ({
            let after = states_marked(states, read_state_binds(ids, read));
            if ids.contains(k) {
                after.dom().contains(k) && after[k] == marked_state(states, k, read)
            } else {
                after.dom().contains(k) == states.dom().contains(k) && (states.dom().contains(k)
                    ==> after[k] == states[k])
            }
        }),
    decreases ids.len(),
{
    let binds = read_state_binds(ids, read);
    if ids.len() == 0 {
        assert(binds.len() == 0);
    } else {
        let front = ids.drop_last();
        let last = ids.last();
        let n = binds.len() - 4;
        lemma_states_marked(states, front, read, k);
        assert(binds.take(n) =~= read_state_binds(front, read));
        assert(binds[n] == BindView::Text(last.0));
        assert(binds[n + 1] == BindView::Text(last.1));
        assert(binds[n + 2] == BindView::Text(last.2));
        assert(binds[n + 3] == BindView::Boolean(read));
        if front.contains(k) {
            let i = choose|i: int| 0 <= i < front.len() && front[i] == k;
            assert(ids[i] == k);
        }
        if ids.contains(k) && !front.contains(k) {
            let i = choose|i: int| 0 <= i < ids.len() && ids[i] == k;
            if i < front.len() {
                assert(front[i] == k);
            }
        }
        assert(ids[ids.len() - 1] == last);
    }
}

/// Once chapters were marked, each of them has a state that says whether it has been read.
/// When it was last read is what it was, where it is marked as read, and nothing where it
/// is marked as unread or had no state. No other chapter has changed. What is counted then
/// is what is counted for the manga on the tables as they are now.
pub proof fn lemma_marking_chapters(
    tables: Tables,
    rank: spec_fn(Seq<char>) -> int,
    manga: (Seq<char>, Seq<char>),
    ids: Seq<(Seq<char>, Seq<char>, Seq<char>)>,
    read: bool,
    change: ReadStateChange,
    scanlator: Option<Seq<char>>,
    counted: UnreadChaptersRow,
    counted_later: UnreadChaptersRow,
)
    requires
        change.marks(manga, ids, read),
        (Tables { states: states_after(tables.states, change), ..tables }).answers_count(
            rank,
            manga,
            scanlator,
            counted,
        ),
        (Tables { states: states_after(tables.states, change), ..tables }).answers_count(
            rank,
            manga,
            scanlator,
            counted_later,
        ),
    ensures
        ({
            let after = states_after(tables.states, change);
            &&& forall|k: (Seq<char>, Seq<char>, Seq<char>)|
                ids.contains(k) ==> after.dom().contains(k) && #[trigger] after[k] == marked_state(
                    tables.states,
                    k,
                    read,
                )
            &&& forall|k: (Seq<char>, Seq<char>, Seq<char>)|
                !ids.contains(k) ==> #[trigger] after.dom().contains(k)
                    == tables.states.dom().contains(k) && (tables.states.dom().contains(k)
                    ==> after[k] == tables.states[k])
            &&& ids.len() == 0 ==> after == tables.states
            &&& unread_of(counted) == unread_of(counted_later)
        }),
{
    let after = states_after(tables.states, change);
    if ids.len() > 0 {
        assert(after == states_marked(tables.states, read_state_binds(ids, read)));
    }
    assert forall|k: (Seq<char>, Seq<char>, Seq<char>)| ids.contains(
        k,
    ) implies after.dom().contains(k) && #[trigger] after[k] == marked_state(
        tables.states,
        k,
        read,
    ) by {
        lemma_states_marked(tables.states, ids, read, k);
    }
    assert forall|k: (Seq<char>, Seq<char>, Seq<char>)| !ids.contains(
        k,
    ) implies #[trigger] after.dom().contains(k) == tables.states.dom().contains(k) && (
    tables.states.dom().contains(k) ==> after[k] == tables.states[k]) by {
        if ids.len() > 0 {
            lemma_states_marked(tables.states, ids, read, k);
        }
    }
}

}
