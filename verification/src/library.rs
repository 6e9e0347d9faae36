//! The mangas of the library and of playlists, as the reader sees them.
use vstd::prelude::*;
use vstd::string::*;

use crate::database::Database;
use crate::model::{
    LibrarySortingMode, Manga, MangaId, MangaInformation, MangaState, SourceId, SourceInformation,
};
use crate::effects::Store;
use crate::ordered::same_items;
use crate::queries::{
    answers_library_mangas, answers_playlist_mangas, library_question, playlist_question,
};
use crate::rows::{library_rows, LibraryRowView, MangaLibraryRowWithReadCount};
use crate::sql::{LIBRARY_MANGAS, PLAYLIST_MANGAS, READ_PROGRESS};
use crate::statement::{bind_integer, bind_views, no_binds, BindView, Statement};
use crate::tables::Tables;
use crate::text::{concat3, optional_text};
use crate::web::{parse_optional_url, url_if_any, url_parsed};

verus! {

/// The clause that sorts the library.
pub open spec fn library_order(mode: LibrarySortingMode) -> Seq<char> {
    match mode {
        LibrarySortingMode::Ascending => "ORDER BY ml.rowid"@,
        LibrarySortingMode::Descending => "ORDER BY ml.rowid DESC"@,
        LibrarySortingMode::TitleAsc => "ORDER BY mi.title COLLATE NOCASE ASC"@,
        LibrarySortingMode::TitleDesc => "ORDER BY mi.title COLLATE NOCASE DESC"@,
        LibrarySortingMode::UnreadAsc => "ORDER BY unread_chapters_count ASC"@,
        LibrarySortingMode::UnreadDesc => "ORDER BY unread_chapters_count DESC"@,
        LibrarySortingMode::LastReadAsc => "ORDER BY lti.last_read_time ASC NULLS LAST"@,
        LibrarySortingMode::LastReadDesc => "ORDER BY lti.last_read_time DESC NULLS LAST"@,
        LibrarySortingMode::SourceAsc =>
            "ORDER BY ml.source_id COLLATE NOCASE ASC, mi.title COLLATE NOCASE ASC"@,
        LibrarySortingMode::SourceDesc =>
            "ORDER BY ml.source_id COLLATE NOCASE DESC, mi.title COLLATE NOCASE DESC"@,
    }
}

/// Writes the clause that sorts the library.
fn write_library_order(mode: LibrarySortingMode) -> (r: &'static str)
    ensures
        r@ == library_order(mode),
{
    match mode {
        LibrarySortingMode::Ascending => "ORDER BY ml.rowid",
        LibrarySortingMode::Descending => "ORDER BY ml.rowid DESC",
        LibrarySortingMode::TitleAsc => "ORDER BY mi.title COLLATE NOCASE ASC",
        LibrarySortingMode::TitleDesc => "ORDER BY mi.title COLLATE NOCASE DESC",
        LibrarySortingMode::UnreadAsc => "ORDER BY unread_chapters_count ASC",
        LibrarySortingMode::UnreadDesc => "ORDER BY unread_chapters_count DESC",
        LibrarySortingMode::LastReadAsc => "ORDER BY lti.last_read_time ASC NULLS LAST",
        LibrarySortingMode::LastReadDesc => "ORDER BY lti.last_read_time DESC NULLS LAST",
        LibrarySortingMode::SourceAsc =>
            "ORDER BY ml.source_id COLLATE NOCASE ASC, mi.title COLLATE NOCASE ASC",
        LibrarySortingMode::SourceDesc =>
            "ORDER BY ml.source_id COLLATE NOCASE DESC, mi.title COLLATE NOCASE DESC",
    }
}

/// The clause that sorts a playlist.
pub open spec fn playlist_order(mode: LibrarySortingMode) -> Seq<char> {
    match mode {
        LibrarySortingMode::Ascending => "ORDER BY pm.rowid"@,
        LibrarySortingMode::Descending => "ORDER BY pm.rowid DESC"@,
        LibrarySortingMode::TitleAsc => "ORDER BY mi.title COLLATE NOCASE ASC"@,
        LibrarySortingMode::TitleDesc => "ORDER BY mi.title COLLATE NOCASE DESC"@,
        LibrarySortingMode::UnreadAsc => "ORDER BY 7 ASC"@,
        LibrarySortingMode::UnreadDesc => "ORDER BY 7 DESC"@,
        LibrarySortingMode::LastReadAsc => "ORDER BY lti.last_read_time ASC NULLS LAST"@,
        LibrarySortingMode::LastReadDesc => "ORDER BY lti.last_read_time DESC NULLS LAST"@,
        LibrarySortingMode::SourceAsc =>
            "ORDER BY pm.source_id COLLATE NOCASE ASC, mi.title COLLATE NOCASE ASC"@,
        LibrarySortingMode::SourceDesc =>
            "ORDER BY pm.source_id COLLATE NOCASE DESC, mi.title COLLATE NOCASE DESC"@,
    }
}

/// Writes the clause that sorts a playlist.
fn write_playlist_order(mode: LibrarySortingMode) -> (r: &'static str)
    ensures
        r@ == playlist_order(mode),
{
    match mode {
        LibrarySortingMode::Ascending => "ORDER BY pm.rowid",
        LibrarySortingMode::Descending => "ORDER BY pm.rowid DESC",
        LibrarySortingMode::TitleAsc => "ORDER BY mi.title COLLATE NOCASE ASC",
        LibrarySortingMode::TitleDesc => "ORDER BY mi.title COLLATE NOCASE DESC",
        LibrarySortingMode::UnreadAsc => "ORDER BY 7 ASC",
        LibrarySortingMode::UnreadDesc => "ORDER BY 7 DESC",
        LibrarySortingMode::LastReadAsc => "ORDER BY lti.last_read_time ASC NULLS LAST",
        LibrarySortingMode::LastReadDesc => "ORDER BY lti.last_read_time DESC NULLS LAST",
        LibrarySortingMode::SourceAsc =>
            "ORDER BY pm.source_id COLLATE NOCASE ASC, mi.title COLLATE NOCASE ASC",
        LibrarySortingMode::SourceDesc =>
            "ORDER BY pm.source_id COLLATE NOCASE DESC, mi.title COLLATE NOCASE DESC",
    }
}

/// The first source of a list that has an id.
pub open spec fn source_with_id(sources: Seq<SourceInformation>, id: Seq<char>) -> Option<
    SourceInformation,
>
    decreases sources.len(),
{
    if sources.len() == 0 {
        None
    } else {
        match source_with_id(sources.drop_last(), id) {
            Some(source) => Some(source),
            None => if sources.last().id@ == id {
                Some(sources.last())
            } else {
                None
            },
        }
    }
}

/// Finds the first source of a list that has an id.
pub fn find_source(sources: &Vec<SourceInformation>, id: &SourceId) -> (r: Option<
    SourceInformation,
>)
    ensures
        r == source_with_id(sources@, id@),
{
    let mut i: usize = 0;
    while i < sources.len()
        invariant
            i <= sources.len(),
            source_with_id(sources@.take(i as int), id@) is None,
        decreases sources.len() - i,
    {
        proof {
            lemma_source_found_stays(sources@, id@, i + 1);
        }
        assert(sources@.take(i + 1).drop_last() =~= sources@.take(i as int));
        if sources[i].id.text == id.text {
            return Some(sources[i].copy());
        }
        i += 1;
    }
    assert(sources@.take(i as int) =~= sources@);
    None
}

/// A source that is found in the first sources of a list is the one found in all.
proof fn lemma_source_found_stays(sources: Seq<SourceInformation>, id: Seq<char>, n: int)
    requires
        0 <= n <= sources.len(),
    ensures
        source_with_id(sources.take(n), id) matches Some(source) ==> source_with_id(sources, id)
            == Some(source),
    decreases sources.len(),
{
    if n == sources.len() {
        assert(sources.take(n) =~= sources);
    } else {
        lemma_source_found_stays(sources.drop_last(), id, n);
        assert(sources.drop_last().take(n) =~= sources.take(n));
    }
}

/// The source that is found for an id is the first of the list that has it.
pub proof fn lemma_source_with_id(sources: Seq<SourceInformation>, id: Seq<char>, i: int)
    requires
        0 <= i < sources.len(),
        sources[i].id@ == id,
        forall|j: int| 0 <= j < i ==> (#[trigger] sources[j]).id@ != id,
    ensures
        source_with_id(sources, id) == Some(sources[i]),
{
    let front = sources.take(i + 1);
    assert(front.drop_last() =~= sources.take(i));
    lemma_no_source_with_id(sources.take(i), id);
    lemma_source_found_stays(sources, id, i + 1);
}

/// No source is found for an id that none of the list has.
pub proof fn lemma_no_source_with_id(sources: Seq<SourceInformation>, id: Seq<char>)
    requires
        forall|j: int| 0 <= j < sources.len() ==> (#[trigger] sources[j]).id@ != id,
    ensures
        source_with_id(sources, id) is None,
    decreases sources.len(),
{
    if sources.len() > 0 {
        lemma_no_source_with_id(sources.drop_last(), id);
    }
}

/// The rows whose source is installed, in order.
pub open spec fn listed(
    rows: Seq<LibraryRowView>,
    sources: Seq<SourceInformation>,
) -> Seq<LibraryRowView>
    decreases rows.len(),
{
    if rows.len() == 0 {
        rows
    } else {
        let front = listed(rows.drop_last(), sources);
        if source_with_id(sources, rows.last().id.0) is Some {
            front.push(rows.last())
        } else {
            front
        }
    }
}

/// Whether a row shows as this manga.
pub open spec fn shows_as(
    row: LibraryRowView,
    sources: Seq<SourceInformation>,
    in_library: bool,
    manga: Manga,
) -> bool {
    &&& source_with_id(sources, row.id.0) == Some(manga.source_information)
    &&& manga.information.id@ == row.id
    &&& optional_text(manga.information.title) == row.title
    &&& optional_text(manga.information.author) == row.author
    &&& optional_text(manga.information.artist) == row.artist
    &&& optional_text(manga.information.cover_url) == url_if_any(row.cover_url)
    &&& manga.state.preferred_scanlator is None
    &&& manga.unread_chapters_count == match row.unread_chapters_count {
        Some(count) => Some(count as usize),
        None => None,
    }
    &&& manga.last_read == row.last_read
    &&& manga.in_library == in_library
}

/// Whether rows show as these mangas, one for each row whose source is installed.
pub open spec fn show_as(
    rows: Seq<LibraryRowView>,
    sources: Seq<SourceInformation>,
    in_library: bool,
    mangas: Seq<Manga>,
) -> bool {
    &&& mangas.len() == listed(rows, sources).len()
    &&& forall|i: int|
        0 <= i < mangas.len() ==> shows_as(
            listed(rows, sources)[i],
            sources,
            in_library,
            #[trigger] mangas[i],
        )
}

/// Turns a row into the manga that it shows as, where its source is installed.
fn show_row(
    row: &MangaLibraryRowWithReadCount,
    sources: &Vec<SourceInformation>,
    in_library: bool,
) -> (r: Option<Manga>)
    ensures
        match r {
            Some(manga) => shows_as(row@, sources@, in_library, manga),
            None => source_with_id(sources@, row.source_id@) is None,
        },
{
    let source_id = SourceId::new(row.source_id.clone());
    match find_source(sources, &source_id) {
        Some(source_information) => {
            let information = MangaInformation {
                id: MangaId::from_strings(row.source_id.clone(), row.manga_id.clone()),
                title: crate::text::copy_text(&row.title),
                author: crate::text::copy_text(&row.author),
                artist: crate::text::copy_text(&row.artist),
                cover_url: parse_optional_url(&row.cover_url),
            };
            let unread_chapters_count = match row.unread_chapters_count {
                Some(count) => Some(
                    #[verifier::truncate]
                    (count as usize),
                ),
                None => None,
            };
            Some(
                Manga {
                    source_information,
                    information,
                    state: MangaState::default(),
                    unread_chapters_count,
                    last_read: row.last_read,
                    in_library,
                },
            )
        },
        None => None,
    }
}

/// Turns rows into the mangas that they show as.
fn show_rows(
    rows: &Vec<MangaLibraryRowWithReadCount>,
    sources: &Vec<SourceInformation>,
    in_library: bool,
) -> (r: Vec<Manga>)
    ensures
        show_as(library_rows(rows@), sources@, in_library, r@),
{
    let mut mangas: Vec<Manga> = Vec::new();
    let mut i: usize = 0;
    while i < rows.len()
        invariant
            i <= rows.len(),
            show_as(library_rows(rows@).take(i as int), sources@, in_library, mangas@),
        decreases rows.len() - i,
    {
        let ghost views = library_rows(rows@);
        assert(views.take(i + 1).drop_last() =~= views.take(i as int));
        if let Some(manga) = show_row(&rows[i], sources, in_library) {
            mangas.push(manga);
        }
        i += 1;
    }
    assert(library_rows(rows@).take(i as int) =~= library_rows(rows@));
    mangas
}

impl Database {
    /// Asks for the mangas of the library with their unread chapters. Every sorting
    /// mode asks for the same rows, in its own order.
    pub fn get_manga_library_with_read_count_statement(
        &self,
        library_sorting_mode: LibrarySortingMode,
    ) -> (r: Statement)
        ensures
            r.is(
                READ_PROGRESS@ + LIBRARY_MANGAS@ + library_order(library_sorting_mode),
                Seq::<BindView>::empty(),
            ),
            forall|tables: Tables, rank: spec_fn(Seq<char>) -> int, rows: Seq<LibraryRowView>| #[trigger]
                answers_library_mangas(r@, tables, rank, rows) ==> {
                    &&& rows.no_duplicates()
                    &&& forall|row: LibraryRowView| #[trigger]
                        rows.contains(row) <==> tables.in_list(row.id) && row == tables.library_row(
                            rank,
                            row.id,
                        )
                },
    {
        let order = write_library_order(library_sorting_mode);
        assert(library_question(order@) == READ_PROGRESS@ + LIBRARY_MANGAS@ + order@);
        Statement { sql: concat3(READ_PROGRESS, LIBRARY_MANGAS, order), binds: no_binds() }
    }

    /// The mangas of the library. One whose source is not installed is left out.
    pub fn get_manga_library_with_read_count(
        &self,
        rows: &Vec<MangaLibraryRowWithReadCount>,
        sources: &Vec<SourceInformation>,
    ) -> (r: Vec<Manga>)
        ensures
            show_as(library_rows(rows@), sources@, true, r@),
    {
        show_rows(rows, sources, true)
    }

    /// Asks for the mangas of a playlist with their unread chapters. Every sorting
    /// mode asks for the same rows, in its own order.
    pub fn get_manga_library_in_playlist_with_read_count_statement(
        &self,
        playlist_id: i64,
        library_sorting_mode: LibrarySortingMode,
    ) -> (r: Statement)
        ensures
            r.is(
                READ_PROGRESS@ + PLAYLIST_MANGAS@ + playlist_order(library_sorting_mode),
                seq![BindView::Integer(playlist_id)],
            ),
            forall|
                store: Store,
                tables: Tables,
                rank: spec_fn(Seq<char>) -> int,
                rows: Seq<LibraryRowView>,
                row: LibraryRowView,
            |
                #![trigger answers_playlist_mangas(r@, store, tables, rank, rows), rows.contains(row)]
                answers_playlist_mangas(r@, store, tables, rank, rows) ==> (rows.contains(row)
                    <==> store.members.contains((playlist_id, row.id))
                    && tables.mangas.dom().contains(row.id) && row == tables.library_row(
                    rank,
                    row.id,
                )),
    {
        let order = write_playlist_order(library_sorting_mode);
        assert(playlist_question(order@) == READ_PROGRESS@ + PLAYLIST_MANGAS@ + order@);
        let mut binds = no_binds();
        bind_integer(&mut binds, playlist_id);
        assert(bind_views(binds@) =~= seq![BindView::Integer(playlist_id)]);
        Statement { sql: concat3(READ_PROGRESS, PLAYLIST_MANGAS, order), binds }
    }

    /// The mangas of a playlist. One whose source is not installed is left out.
    pub fn get_manga_library_in_playlist_with_read_count(
        &self,
        rows: &Vec<MangaLibraryRowWithReadCount>,
        sources: &Vec<SourceInformation>,
    ) -> (r: Vec<Manga>)
        ensures
            show_as(library_rows(rows@), sources@, false, r@),
    {
        show_rows(rows, sources, false)
    }
}

/// The mangas shown are rows in the order of the rows: each row whose source is
/// installed shows once, and the mangas of a longer list begin with those of a
/// shorter one.
pub proof fn lemma_listed_keeps_order(
    rows: Seq<LibraryRowView>,
    sources: Seq<SourceInformation>,
    n: int,
)
    requires
        0 <= n <= rows.len(),
    ensures
        listed(rows, sources) == listed(rows.take(n), sources) + listed(rows.skip(n), sources),
        listed(rows, sources).len() <= rows.len(),
        forall|i: int|
            0 <= i < listed(rows, sources).len() ==> rows.contains(
                #[trigger] listed(rows, sources)[i],
            ),
    decreases rows.len(),
{
    if rows.len() == 0 {
        assert(rows.take(n) =~= rows);
        assert(rows.skip(n) =~= rows);
        assert(listed(rows, sources) =~= rows + rows);
    } else {
        let front = rows.drop_last();
        if n == rows.len() {
            lemma_listed_keeps_order(front, sources, n - 1);
            assert(rows.take(n) =~= rows);
            assert(rows.skip(n) =~= Seq::empty());
            assert(listed(rows, sources) =~= listed(rows, sources) + Seq::empty());
        } else {
            lemma_listed_keeps_order(front, sources, n);
            assert(front.take(n) =~= rows.take(n));
            assert(rows.skip(n).drop_last() =~= front.skip(n));
            assert(listed(rows, sources) =~= listed(rows.take(n), sources) + listed(
                rows.skip(n),
                sources,
            ));
        }
        assert forall|i: int| 0 <= i < listed(rows, sources).len() implies rows.contains(
            #[trigger] listed(rows, sources)[i],
        ) by {
            let before = listed(front, sources);
            if i < before.len() {
                assert(listed(rows, sources)[i] == before[i]);
                assert(front.contains(before[i]));
                let k = choose|k: int| 0 <= k < front.len() && front[k] == before[i];
                assert(rows[k] == before[i]);
            } else {
                assert(rows[rows.len() - 1] == listed(rows, sources)[i]);
            }
        }
    }
}

/// Whether two mangas say the same.
pub open spec fn same_manga(a: Manga, b: Manga) -> bool {
    &&& a.source_information == b.source_information
    &&& a.information.id@ == b.information.id@
    &&& optional_text(a.information.title) == optional_text(b.information.title)
    &&& optional_text(a.information.author) == optional_text(b.information.author)
    &&& optional_text(a.information.artist) == optional_text(b.information.artist)
    &&& optional_text(a.information.cover_url) == optional_text(b.information.cover_url)
    &&& optional_text(a.state.preferred_scanlator) == optional_text(b.state.preferred_scanlator)
    &&& a.unread_chapters_count == b.unread_chapters_count
    &&& a.last_read == b.last_read
    &&& a.in_library == b.in_library
}

/// Whether no two rows are about one manga.
pub open spec fn ids_differ(rows: Seq<LibraryRowView>) -> bool {
    forall|i: int, j: int|
        0 <= i < j < rows.len() ==> (#[trigger] rows[i]).id != (#[trigger] rows[j]).id
}

/// Whether one list of mangas is another one from the last to the first.
pub open spec fn reversed_mangas(a: Seq<Manga>, b: Seq<Manga>) -> bool {
    &&& a.len() == b.len()
    &&& forall|i: int| 0 <= i < a.len() ==> same_manga(#[trigger] a[i], b[b.len() - 1 - i])
}

/// Whether a manga is one of a list.
pub open spec fn manga_listed(list: Seq<Manga>, manga: Manga) -> bool {
    exists|i: int| 0 <= i < list.len() && same_manga(#[trigger] list[i], manga)
}

/// Whether one list of mangas is another one in another order: as long, with the same
/// mangas, and none of them twice.
pub open spec fn permuted_mangas(a: Seq<Manga>, b: Seq<Manga>) -> bool {
    &&& a.len() == b.len()
    &&& forall|i: int| 0 <= i < a.len() ==> manga_listed(b, #[trigger] a[i])
    &&& forall|i: int| 0 <= i < b.len() ==> manga_listed(a, #[trigger] b[i])
    &&& forall|i: int, j: int|
        0 <= i < j < a.len() ==> (#[trigger] a[i]).information.id@ != (
        #[trigger] a[j]).information.id@
    &&& forall|i: int, j: int|
        0 <= i < j < b.len() ==> (#[trigger] b[i]).information.id@ != (
        #[trigger] b[j]).information.id@
}

/// Rows from the last to the first show as their mangas from the last to the first.
pub proof fn lemma_reversed_rows_show_reversed(
    rows: Seq<LibraryRowView>,
    sources: Seq<SourceInformation>,
    in_library: bool,
    mangas: Seq<Manga>,
    reversed: Seq<Manga>,
)
    requires
        show_as(rows, sources, in_library, mangas),
        show_as(rows.reverse(), sources, in_library, reversed),
    ensures
        reversed_mangas(reversed, mangas),
{
    lemma_listed_reversed(rows, sources);
    let shown = listed(rows, sources);
    let back = listed(rows.reverse(), sources);
    assert forall|i: int| 0 <= i < reversed.len() implies same_manga(
        #[trigger] reversed[i],
        mangas[mangas.len() - 1 - i],
    ) by {
        assert(back[i] == shown[shown.len() - 1 - i]);
        assert(shows_as(back[i], sources, in_library, reversed[i]));
        let j = mangas.len() - 1 - i;
        assert(shows_as(shown[j], sources, in_library, mangas[j]));
    }
}

proof fn lemma_listed_reversed(
    rows: Seq<LibraryRowView>,
    sources: Seq<SourceInformation>,
)
    ensures
        listed(rows.reverse(), sources) == listed(rows, sources).reverse(),
    decreases rows.len(),
{
    if rows.len() == 0 {
        assert(rows.reverse() =~= rows);
        assert(listed(rows, sources).reverse() =~= listed(rows, sources));
    } else {
        let front = rows.drop_last();
        let back = rows.reverse();
        lemma_listed_reversed(front, sources);
        lemma_listed_keeps_order(back, sources, 1);
        assert(back.skip(1) =~= front.reverse());
        let first = back.take(1);
        assert(first =~= seq![rows.last()]);
        assert(first.drop_last() =~= Seq::<LibraryRowView>::empty());
        assert(listed(first.drop_last(), sources) =~= first.drop_last());
        assert(listed(back, sources) =~= listed(rows, sources).reverse());
    }
}

proof fn lemma_listed_ids_differ(
    rows: Seq<LibraryRowView>,
    sources: Seq<SourceInformation>,
)
    requires
        ids_differ(rows),
    ensures
        ids_differ(listed(rows, sources)),
    decreases rows.len(),
{
    if rows.len() > 0 {
        let front = rows.drop_last();
        let before = listed(front, sources);
        let now = listed(rows, sources);
        lemma_listed_ids_differ(front, sources);
        lemma_listed_keeps_order(front, sources, 0);
        assert forall|i: int, j: int| 0 <= i < j < now.len() implies (#[trigger] now[i]).id
            != (#[trigger] now[j]).id by {
            assert(now[i] == before[i]);
            if j < before.len() {
                assert(now[j] == before[j]);
            } else {
                assert(front.contains(before[i]));
                let k = choose|k: int| 0 <= k < front.len() && front[k] == before[i];
                assert(rows[k] == before[i]);
                assert(now[j] == rows[rows.len() - 1]);
            }
        }
    }
}

proof fn lemma_listed_contains(
    rows: Seq<LibraryRowView>,
    sources: Seq<SourceInformation>,
    row: LibraryRowView,
)
    ensures
        listed(rows, sources).contains(row) <==> rows.contains(row) && source_with_id(
            sources,
            row.id.0,
        ) is Some,
    decreases rows.len(),
{
    if rows.len() > 0 {
        let front = rows.drop_last();
        let before = listed(front, sources);
        let now = listed(rows, sources);
        lemma_listed_contains(front, sources, row);
        if before.contains(row) {
            let k = choose|k: int| 0 <= k < before.len() && before[k] == row;
            assert(now[k] == row);
        }
        if front.contains(row) {
            let k = choose|k: int| 0 <= k < front.len() && front[k] == row;
            assert(rows[k] == row);
        }
        if now.contains(row) && !before.contains(row) {
            let k = choose|k: int| 0 <= k < now.len() && now[k] == row;
            if k < before.len() {
                assert(before[k] == row);
            }
            assert(rows[rows.len() - 1] == row);
        }
        if rows.contains(row) && !front.contains(row) {
            let k = choose|k: int| 0 <= k < rows.len() && rows[k] == row;
            if k < front.len() {
                assert(front[k] == row);
            }
            if source_with_id(sources, row.id.0) is Some {
                assert(now[now.len() - 1] == row);
            }
        }
    }
}

proof fn lemma_same_rows_show_among(
    a_rows: Seq<LibraryRowView>,
    b_rows: Seq<LibraryRowView>,
    sources: Seq<SourceInformation>,
    in_library: bool,
    a: Seq<Manga>,
    b: Seq<Manga>,
)
    requires
        same_items(a_rows, b_rows),
        ids_differ(a_rows),
        show_as(a_rows, sources, in_library, a),
        show_as(b_rows, sources, in_library, b),
    ensures
        a.len() <= b.len(),
        forall|i: int| 0 <= i < a.len() ==> manga_listed(b, #[trigger] a[i]),
        forall|i: int, j: int|
            0 <= i < j < a.len() ==> (#[trigger] a[i]).information.id@ != (
            #[trigger] a[j]).information.id@,
{
    let shown = listed(a_rows, sources);
    let others = listed(b_rows, sources);
    lemma_listed_ids_differ(a_rows, sources);
    assert forall|i: int| 0 <= i < a.len() implies manga_listed(b, #[trigger] a[i]) && others.contains(
        shown[i],
    ) by {
        lemma_listed_contains(a_rows, sources, shown[i]);
        lemma_listed_contains(b_rows, sources, shown[i]);
        assert(shown.contains(shown[i]));
        assert(a_rows.contains(shown[i]));
        assert(b_rows.contains(shown[i]));
        let k = choose|k: int| 0 <= k < others.len() && others[k] == shown[i];
        assert(shows_as(others[k], sources, in_library, b[k]));
        assert(shows_as(shown[i], sources, in_library, a[i]));
        assert(same_manga(b[k], a[i]));
    }
    assert forall|i: int, j: int| 0 <= i < j < a.len() implies (#[trigger] a[i]).information.id@
        != (#[trigger] a[j]).information.id@ by {
        assert(shows_as(shown[i], sources, in_library, a[i]));
        assert(shows_as(shown[j], sources, in_library, a[j]));
        assert(shown[i].id != shown[j].id);
    }
    assert(shown.no_duplicates()) by {
        assert forall|i: int, j: int| 0 <= i < shown.len() && 0 <= j < shown.len() && i
            != j implies shown[i] != shown[j] by {
            if i < j {
                assert(shown[i].id != shown[j].id);
            } else {
                assert(shown[j].id != shown[i].id);
            }
        }
    }
    shown.unique_seq_to_set();
    others.lemma_cardinality_of_set();
    assert(shown.to_set().subset_of(others.to_set())) by {
        assert forall|row: LibraryRowView| shown.to_set().contains(
            row,
        ) implies others.to_set().contains(row) by {
            let i = choose|i: int| 0 <= i < shown.len() && shown[i] == row;
            assert(shows_as(shown[i], sources, in_library, a[i]));
            assert(manga_listed(b, a[i]) && others.contains(shown[i]));
        }
    }
    vstd::set_lib::lemma_len_subset(shown.to_set(), others.to_set());
}

/// The same rows in another order show as the same mangas in another order, none of them
/// twice.
pub proof fn lemma_same_rows_show_permuted(
    a_rows: Seq<LibraryRowView>,
    b_rows: Seq<LibraryRowView>,
    sources: Seq<SourceInformation>,
    in_library: bool,
    a: Seq<Manga>,
    b: Seq<Manga>,
)
    requires
        same_items(a_rows, b_rows),
        ids_differ(a_rows),
        ids_differ(b_rows),
        show_as(a_rows, sources, in_library, a),
        show_as(b_rows, sources, in_library, b),
    ensures
        permuted_mangas(a, b),
{
    lemma_same_rows_show_among(a_rows, b_rows, sources, in_library, a, b);
    lemma_same_rows_show_among(b_rows, a_rows, sources, in_library, b, a);
}

/// The mangas shown are exactly those of the rows whose source is installed, and all of
/// them are marked as being in the library, or none.
pub proof fn lemma_shown_mangas(
    rows: Seq<LibraryRowView>,
    sources: Seq<SourceInformation>,
    in_library: bool,
    mangas: Seq<Manga>,
    id: (Seq<char>, Seq<char>),
)
    requires
        show_as(rows, sources, in_library, mangas),
    ensures
        (exists|i: int| 0 <= i < mangas.len() && (#[trigger] mangas[i]).information.id@ == id)
            <==> (exists|i: int| 0 <= i < rows.len() && (#[trigger] rows[i]).id == id)
            && source_with_id(sources, id.0) is Some,
        forall|i: int| 0 <= i < mangas.len() ==> (#[trigger] mangas[i]).in_library == in_library,
{
    let shown = listed(rows, sources);
    if exists|i: int| 0 <= i < mangas.len() && (#[trigger] mangas[i]).information.id@ == id {
        let i = choose|i: int|
            0 <= i < mangas.len() && (#[trigger] mangas[i]).information.id@ == id;
        assert(shows_as(shown[i], sources, in_library, mangas[i]));
        lemma_listed_contains(rows, sources, shown[i]);
        assert(shown.contains(shown[i]));
        let k = choose|k: int| 0 <= k < rows.len() && rows[k] == shown[i];
        assert(rows[k].id == id);
    }
    if (exists|i: int| 0 <= i < rows.len() && (#[trigger] rows[i]).id == id) && source_with_id(
        sources,
        id.0,
    ) is Some {
        let i = choose|i: int| 0 <= i < rows.len() && (#[trigger] rows[i]).id == id;
        lemma_listed_contains(rows, sources, rows[i]);
        assert(rows.contains(rows[i]));
        let k = choose|k: int| 0 <= k < shown.len() && shown[k] == rows[i];
        assert(shows_as(shown[k], sources, in_library, mangas[k]));
    }
}

/// What is shown of a manga is what its row holds, each column in its own place, under the
/// first of the sources that has the id of the row. What the reader has settled is not
/// shown here.
pub proof fn lemma_library_row_columns(
    row: MangaLibraryRowWithReadCount,
    sources: Seq<SourceInformation>,
    in_library: bool,
    manga: Manga,
)
    requires
        shows_as(row@, sources, in_library, manga),
    ensures
        manga.information.id@.0 == row.source_id@,
        manga.information.id@.1 == row.manga_id@,
        manga.source_information.id@ == row.source_id@,
        sources.contains(manga.source_information),
        row.title is None ==> manga.information.title is None,
        row.title matches Some(t) ==> (manga.information.title matches Some(s) && s@ == t@),
        row.author is None ==> manga.information.author is None,
        row.author matches Some(t) ==> (manga.information.author matches Some(s) && s@ == t@),
        row.artist is None ==> manga.information.artist is None,
        row.artist matches Some(t) ==> (manga.information.artist matches Some(s) && s@ == t@),
        row.cover_url is None ==> manga.information.cover_url is None,
        row.cover_url matches Some(t) ==> optional_text(manga.information.cover_url) == url_parsed(
            t@,
        ),
        row.unread_chapters_count matches Some(n) ==> (0 <= n <= usize::MAX
            ==> manga.unread_chapters_count == Some(n as usize)),
        row.unread_chapters_count is None ==> manga.unread_chapters_count is None,
        manga.last_read == row.last_read,
        manga.in_library == in_library,
        manga.state.preferred_scanlator is None,
{
    lemma_source_is_listed(sources, row.source_id@);
}

/// A source that is found for an id is one of the list, and has the id.
proof fn lemma_source_is_listed(sources: Seq<SourceInformation>, id: Seq<char>)
    ensures
        source_with_id(sources, id) matches Some(source) ==> sources.contains(source) && source.id@
            == id,
    decreases sources.len(),
{
    if sources.len() > 0 {
        let front = sources.drop_last();
        lemma_source_is_listed(front, id);
        if let Some(source) = source_with_id(front, id) {
            let k = choose|k: int| 0 <= k < front.len() && front[k] == source;
            assert(sources[k] == source);
        } else {
            assert(sources[sources.len() - 1] == sources.last());
        }
    }
}

}
