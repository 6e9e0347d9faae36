//! What the sorting modes of the library and of playlists are for: the order in which the
//! mangas come.
use vstd::prelude::*;

use crate::library::{
    lemma_listed_keeps_order, library_order, listed, playlist_order, show_as, shows_as,
};
use crate::model::{LibrarySortingMode, Manga, SourceInformation};
use crate::rows::LibraryRowView;
use crate::text::optional_text;

verus! {

/// Whether a number never gets smaller from one row to a later one.
pub open spec fn never_falls(
    rows: Seq<LibraryRowView>,
    number: spec_fn(LibraryRowView) -> int,
) -> bool {
    forall|i: int, j: int|
        0 <= i < j < rows.len() ==> number(#[trigger] rows[i]) <= number(#[trigger] rows[j])
}

/// Whether a number never gets larger from one row to a later one.
pub open spec fn never_rises(
    rows: Seq<LibraryRowView>,
    number: spec_fn(LibraryRowView) -> int,
) -> bool {
    forall|i: int, j: int|
        0 <= i < j < rows.len() ==> number(#[trigger] rows[i]) >= number(#[trigger] rows[j])
}

/// Whether rows without a time stand behind those with one.
pub open spec fn times_first(rows: Seq<LibraryRowView>) -> bool {
    forall|i: int, j: int|
        0 <= i < j < rows.len() && (#[trigger] rows[i]).last_read is None ==> (
        #[trigger] rows[j]).last_read is None
}

/// Whether of two rows with a time the earlier one has the earlier time.
pub open spec fn times_rise(rows: Seq<LibraryRowView>) -> bool {
    forall|i: int, j: int|
        0 <= i < j < rows.len() && (#[trigger] rows[i]).last_read is Some && (
        #[trigger] rows[j]).last_read is Some ==> rows[i].last_read->0 <= rows[j].last_read->0
}

/// Whether of two rows with a time the earlier one has the later time.
pub open spec fn times_fall(rows: Seq<LibraryRowView>) -> bool {
    forall|i: int, j: int|
        0 <= i < j < rows.len() && (#[trigger] rows[i]).last_read is Some && (
        #[trigger] rows[j]).last_read is Some ==> rows[i].last_read->0 >= rows[j].last_read->0
}

/// Whether rows are sorted by their sources, and by their titles within a source.
pub open spec fn sources_rise(
    rows: Seq<LibraryRowView>,
    name: spec_fn(Option<Seq<char>>) -> int,
) -> bool {
    forall|i: int, j: int|
        0 <= i < j < rows.len() ==> {
            let a = #[trigger] rows[i];
            let b = #[trigger] rows[j];
            ||| name(Some(a.id.0)) < name(Some(b.id.0))
            ||| name(Some(a.id.0)) == name(Some(b.id.0)) && name(a.title) <= name(b.title)
        }
}

/// Whether rows are sorted by their sources the other way round, and so by their titles
/// within a source.
pub open spec fn sources_fall(
    rows: Seq<LibraryRowView>,
    name: spec_fn(Option<Seq<char>>) -> int,
) -> bool {
    forall|i: int, j: int|
        0 <= i < j < rows.len() ==> {
            let a = #[trigger] rows[i];
            let b = #[trigger] rows[j];
            ||| name(Some(a.id.0)) > name(Some(b.id.0))
            ||| name(Some(a.id.0)) == name(Some(b.id.0)) && name(a.title) >= name(b.title)
        }
}

/// What SQL says of rows that were asked for with a clause, of those that sort mangas with
/// their unread chapters. `place` is the row id of a row, and `name` the place of a name,
/// or of its absence, among names in which capital letters do not count.
pub open spec fn sorted_by_clause(
    clause: Seq<char>,
    rows: Seq<LibraryRowView>,
    place: spec_fn(LibraryRowView) -> int,
    name: spec_fn(Option<Seq<char>>) -> int,
) -> bool {
    let unread = |row: LibraryRowView|
        match row.unread_chapters_count {
            Some(count) => count as int,
            None => -0x8000_0000_0000_0001,
        };
    &&& clause == "ORDER BY ml.rowid"@ || clause == "ORDER BY pm.rowid"@ ==> never_falls(
        rows,
        place,
    )
    &&& clause == "ORDER BY ml.rowid DESC"@ || clause == "ORDER BY pm.rowid DESC"@ ==> never_rises(
        rows,
        place,
    )
    &&& clause == "ORDER BY mi.title COLLATE NOCASE ASC"@ ==> never_falls(
        rows,
        |row: LibraryRowView| name(row.title),
    )
    &&& clause == "ORDER BY mi.title COLLATE NOCASE DESC"@ ==> never_rises(
        rows,
        |row: LibraryRowView| name(row.title),
    )
    &&& clause == "ORDER BY unread_chapters_count ASC"@ || clause == "ORDER BY 7 ASC"@
        ==> never_falls(rows, unread)
    &&& clause == "ORDER BY unread_chapters_count DESC"@ || clause == "ORDER BY 7 DESC"@
        ==> never_rises(rows, unread)
    &&& clause == "ORDER BY lti.last_read_time ASC NULLS LAST"@ ==> times_rise(rows) && times_first(
        rows,
    )
    &&& clause == "ORDER BY lti.last_read_time DESC NULLS LAST"@ ==> times_fall(rows)
        && times_first(rows)
    &&& clause == "ORDER BY ml.source_id COLLATE NOCASE ASC, mi.title COLLATE NOCASE ASC"@ || clause
        == "ORDER BY pm.source_id COLLATE NOCASE ASC, mi.title COLLATE NOCASE ASC"@
        ==> sources_rise(rows, name)
    &&& clause == "ORDER BY ml.source_id COLLATE NOCASE DESC, mi.title COLLATE NOCASE DESC"@
        || clause == "ORDER BY pm.source_id COLLATE NOCASE DESC, mi.title COLLATE NOCASE DESC"@
        ==> sources_fall(rows, name)
}

/// Rows that are asked for in a sorting mode come in the order that the mode names: by the
/// time at which they were put in, by title, by the number of unread chapters, by the time
/// at which a chapter was last read, or by source and then title; the smallest first where
/// the mode ascends, and the largest first where it descends. Mangas of which nothing has
/// been read come last either way. That holds of the library and of playlists.
pub proof fn lemma_mode_sorts_as_it_is_named(
    mode: LibrarySortingMode,
    rows: Seq<LibraryRowView>,
    place: spec_fn(LibraryRowView) -> int,
    name: spec_fn(Option<Seq<char>>) -> int,
    i: int,
    j: int,
)
    requires
        sorted_by_clause(library_order(mode), rows, place, name) || sorted_by_clause(
            playlist_order(mode),
            rows,
            place,
            name,
        ),
        0 <= i < j < rows.len(),
    ensures
        ({
            let a = rows[i];
            let b = rows[j];
            match mode {
                LibrarySortingMode::Ascending => place(a) <= place(b),
                LibrarySortingMode::Descending => place(a) >= place(b),
                LibrarySortingMode::TitleAsc => name(a.title) <= name(b.title),
                LibrarySortingMode::TitleDesc => name(a.title) >= name(b.title),
                LibrarySortingMode::UnreadAsc => match (
                    a.unread_chapters_count,
                    b.unread_chapters_count,
                ) {
                    (Some(x), Some(y)) => x <= y,
                    (Some(_), None) => false,
                    (None, _) => true,
                },
                LibrarySortingMode::UnreadDesc => match (
                    a.unread_chapters_count,
                    b.unread_chapters_count,
                ) {
                    (Some(x), Some(y)) => x >= y,
                    (None, Some(_)) => false,
                    (_, None) => true,
                },
                LibrarySortingMode::LastReadAsc => match (a.last_read, b.last_read) {
                    (Some(x), Some(y)) => x <= y,
                    (None, Some(_)) => false,
                    (_, None) => true,
                },
                LibrarySortingMode::LastReadDesc => match (a.last_read, b.last_read) {
                    (Some(x), Some(y)) => x >= y,
                    (None, Some(_)) => false,
                    (_, None) => true,
                },
                LibrarySortingMode::SourceAsc => name(Some(a.id.0)) < name(Some(b.id.0)) || (name(
                    Some(a.id.0),
                ) == name(Some(b.id.0)) && name(a.title) <= name(b.title)),
                LibrarySortingMode::SourceDesc => name(Some(a.id.0)) > name(Some(b.id.0)) || (name(
                    Some(a.id.0),
                ) == name(Some(b.id.0)) && name(a.title) >= name(b.title)),
            }
        }),
{
    assert(rows[i] == rows[i] && rows[j] == rows[j]);
}

/// Of two rows that are shown, the one that is shown first came first.
proof fn lemma_listed_in_order(
    rows: Seq<LibraryRowView>,
    sources: Seq<SourceInformation>,
    i: int,
    j: int,
) -> (r: (int, int))
    requires
        0 <= i < j < listed(rows, sources).len(),
    ensures
        0 <= r.0 < r.1 < rows.len(),
        rows[r.0] == listed(rows, sources)[i],
        rows[r.1] == listed(rows, sources)[j],
    decreases rows.len(),
{
    let front = rows.drop_last();
    let before = listed(front, sources);
    if j < before.len() {
        let found = lemma_listed_in_order(front, sources, i, j);
        assert(rows[found.0] == front[found.0]);
        assert(rows[found.1] == front[found.1]);
        found
    } else {
        lemma_listed_keeps_order(front, sources, 0);
        assert(front.contains(before[i]));
        let k = choose|k: int| 0 <= k < front.len() && front[k] == before[i];
        (k, rows.len() - 1)
    }
}

/// The mangas of the library, or of a playlist, are shown in the order that the sorting
/// mode names.
pub proof fn lemma_mangas_are_shown_sorted(
    mode: LibrarySortingMode,
    rows: Seq<LibraryRowView>,
    place: spec_fn(LibraryRowView) -> int,
    name: spec_fn(Option<Seq<char>>) -> int,
    sources: Seq<SourceInformation>,
    in_library: bool,
    mangas: Seq<Manga>,
    i: int,
    j: int,
)
    requires
        sorted_by_clause(library_order(mode), rows, place, name) || sorted_by_clause(
            playlist_order(mode),
            rows,
            place,
            name,
        ),
        show_as(rows, sources, in_library, mangas),
        forall|k: int|
            0 <= k < rows.len() ==> ((#[trigger] rows[k]).unread_chapters_count matches Some(n)
                && 0 <= n <= usize::MAX),
        0 <= i < j < mangas.len(),
    ensures
        ({
            let a = mangas[i];
            let b = mangas[j];
            match mode {
                LibrarySortingMode::TitleAsc => name(optional_text(a.information.title)) <= name(
                    optional_text(b.information.title),
                ),
                LibrarySortingMode::TitleDesc => name(optional_text(a.information.title)) >= name(
                    optional_text(b.information.title),
                ),
                LibrarySortingMode::UnreadAsc => a.unread_chapters_count is Some
                    && b.unread_chapters_count is Some && a.unread_chapters_count->0
                    <= b.unread_chapters_count->0,
                LibrarySortingMode::UnreadDesc => a.unread_chapters_count is Some
                    && b.unread_chapters_count is Some && a.unread_chapters_count->0
                    >= b.unread_chapters_count->0,
                LibrarySortingMode::LastReadAsc => match (a.last_read, b.last_read) {
                    (Some(x), Some(y)) => x <= y,
                    (None, Some(_)) => false,
                    (_, None) => true,
                },
                LibrarySortingMode::LastReadDesc => match (a.last_read, b.last_read) {
                    (Some(x), Some(y)) => x >= y,
                    (None, Some(_)) => false,
                    (_, None) => true,
                },
                LibrarySortingMode::SourceAsc => name(Some(a.information.id@.0)) <= name(
                    Some(b.information.id@.0),
                ),
                LibrarySortingMode::SourceDesc => name(Some(a.information.id@.0)) >= name(
                    Some(b.information.id@.0),
                ),
                _ => true,
            }
        }),
{
    let found = lemma_listed_in_order(rows, sources, i, j);
    lemma_mode_sorts_as_it_is_named(mode, rows, place, name, found.0, found.1);
    assert(shows_as(listed(rows, sources)[i], sources, in_library, mangas[i]));
    assert(shows_as(listed(rows, sources)[j], sources, in_library, mangas[j]));
}

}
