//! What is read of a database after it was written, statement by statement.
use vstd::prelude::*;

use crate::clock::rfc3339_text;
use crate::database::{mark_binds, read_state_binds, ReadStateChange};
use crate::details::details_binds;
use crate::effects::{
    bound_chapter, bound_manga, changes, chapters_written, mangas_written, notified, Store,
};
use crate::model::{
    ChapterInformation, ChapterState, MangaInformation, MangaState, Playlist,
};
use crate::queries::{
    answers_chapter_ids, answers_chapter_state, answers_check, answers_details,
    answers_library_ids, answers_manga_information, answers_manga_state,
    answers_notification_count, answers_notifications, answers_playlists, creates_playlist,
    last_read_of,
};
use crate::rows::{
    ChapterStateRow, MangaDetailsRow, MangaInformationsRow, MangaLibraryRow, MangaStateRow,
    NotificationInformationRow,
};
use crate::source::Manga;
use crate::sql;
use crate::statement::{chapter_binds, manga_binds, BindView, Statement};
use crate::tables::{lemma_states_marked, or_else, states_marked};
use crate::tags::json_of_texts;
use crate::text::{optional_text, texts};
use crate::upserts::{
    chapter_batch, chapter_row, chapter_rows, delete_batch, id_binds, manga_batch, manga_row,
    manga_rows,
};

verus! {

/// Whether a manga is one of some rows.
pub open spec fn manga_in_rows(rows: Seq<MangaLibraryRow>, id: (Seq<char>, Seq<char>)) -> bool {
    exists|i: int|
        0 <= i < rows.len() && (#[trigger] rows[i]).source_id@ == id.0 && rows[i].manga_id@ == id.1
}

/// A manga that was put into the library is listed there, and one that was taken out is not.
/// Every other manga is listed if and only if it was before.
pub proof fn lemma_library_lists_what_was_put_in(
    id: (Seq<char>, Seq<char>),
    other: (Seq<char>, Seq<char>),
    add: Statement,
    remove: Statement,
    ask: Statement,
    before: Store,
    added: Store,
    removed: Store,
    rows_before: Seq<MangaLibraryRow>,
    rows_added: Seq<MangaLibraryRow>,
    rows_removed: Seq<MangaLibraryRow>,
)
    requires
        add.is(sql::ADD_MANGA_TO_LIBRARY@, manga_binds(id)),
        remove.is(sql::REMOVE_MANGA_FROM_LIBRARY@, manga_binds(id)),
        ask.is(sql::MANGA_LIBRARY@, Seq::empty()),
        changes(add@, before, added),
        changes(remove@, before, removed),
        answers_library_ids(ask@, before, rows_before),
        answers_library_ids(ask@, added, rows_added),
        answers_library_ids(ask@, removed, rows_removed),
        other != id,
    ensures
        manga_in_rows(rows_added, id),
        !manga_in_rows(rows_removed, id),
        manga_in_rows(rows_added, other) <==> manga_in_rows(rows_before, other),
        manga_in_rows(rows_removed, other) <==> manga_in_rows(rows_before, other),
{
    assert(bound_manga(manga_binds(id), 0) == id);
    assert(added.library.contains(id));
    assert(!removed.library.contains(id));
    assert(added.library.contains(other) == before.library.contains(other));
    assert(removed.library.contains(other) == before.library.contains(other));
}

/// What was settled for a manga is found for it, and for no other manga anything else is
/// found than before.
pub proof fn lemma_settled_state_is_found(
    id: (Seq<char>, Seq<char>),
    other: (Seq<char>, Seq<char>),
    state: MangaState,
    write: Statement,
    ask: Statement,
    ask_other: Statement,
    before: Store,
    after: Store,
    row: Option<MangaStateRow>,
    other_before: Option<MangaStateRow>,
    other_after: Option<MangaStateRow>,
)
    requires
        write.is(
            sql::UPSERT_MANGA_STATE@,
            manga_binds(id).push(BindView::OptionalText(optional_text(state.preferred_scanlator))),
        ),
        ask.is(sql::FIND_MANGA_STATE@, manga_binds(id)),
        ask_other.is(sql::FIND_MANGA_STATE@, manga_binds(other)),
        changes(write@, before, after),
        answers_manga_state(ask@, after, row),
        answers_manga_state(ask_other@, before, other_before),
        answers_manga_state(ask_other@, after, other_after),
        other != id,
    ensures
        row matches Some(found) && optional_text(found.preferred_scanlator) == optional_text(
            state.preferred_scanlator,
        ),
        other_before is Some <==> other_after is Some,
        other_before matches Some(x) ==> (other_after matches Some(y) && optional_text(
            x.preferred_scanlator,
        ) == optional_text(y.preferred_scanlator)),
{
    let binds = manga_binds(id).push(
        BindView::OptionalText(optional_text(state.preferred_scanlator)),
    );
    assert(bound_manga(binds, 0) == id);
    assert(bound_manga(manga_binds(id), 0) == id);
    assert(bound_manga(manga_binds(other), 0) == other);
    assert(binds[2] == BindView::OptionalText(optional_text(state.preferred_scanlator)));
}

/// A chapter is found as it was marked: as read at the time, or as unread and without one.
/// When it is opened its time is noted, and whether it has been read stays. Nothing else is
/// found of any other chapter.
pub proof fn lemma_marked_chapter_is_found(
    id: (Seq<char>, Seq<char>, Seq<char>),
    other: (Seq<char>, Seq<char>, Seq<char>),
    value: Option<bool>,
    now: i64,
    later: i64,
    mark: Statement,
    open: Statement,
    ask: Statement,
    before: Store,
    marked: Store,
    opened: Store,
    row_marked: Option<ChapterStateRow>,
    row_opened: Option<ChapterStateRow>,
)
    requires
        mark.is(sql::MARK_CHAPTER_AS_READ@, mark_binds(id, value, now)),
        open.is(
            sql::UPDATE_LAST_READ_CHAPTER@,
            chapter_binds(id).push(BindView::Integer(later)),
        ),
        ask.is(sql::FIND_CHAPTER_STATE@, chapter_binds(id)),
        changes(mark@, before, marked),
        changes(open@, marked, opened),
        answers_chapter_state(ask@, marked, row_marked),
        answers_chapter_state(ask@, opened, row_opened),
        other != id,
    ensures
        row_marked matches Some(row) && row.read == (value != Some(false)),
        value != Some(false) ==> row_marked->0.last_read == Some(now),
        value == Some(false) ==> row_marked->0.last_read is None,
        row_opened matches Some(row) && row.read == (value != Some(false)) && row.last_read == Some(
            later,
        ),
        opened.states.dom().contains(other) == before.states.dom().contains(other),
        before.states.dom().contains(other) ==> opened.states[other] == before.states[other],
{
    let binds = mark_binds(id, value, now);
    assert(bound_chapter(binds, 0) == id);
    assert(bound_chapter(chapter_binds(id), 0) == id);
    assert(bound_chapter(chapter_binds(id).push(BindView::Integer(later)), 0) == id);
    assert(chapter_binds(id).push(BindView::Integer(later))[3] == BindView::Integer(later));
}

/// The state of a chapter that was written is found.
pub proof fn lemma_written_chapter_state_is_found(
    id: (Seq<char>, Seq<char>, Seq<char>),
    state: ChapterState,
    write: Statement,
    ask: Statement,
    before: Store,
    after: Store,
    row: Option<ChapterStateRow>,
)
    requires
        write.is(
            sql::UPSERT_CHAPTER_STATE@,
            chapter_binds(id) + seq![
                BindView::Boolean(state.read),
                BindView::OptionalInteger(state.last_read),
            ],
        ),
        ask.is(sql::FIND_CHAPTER_STATE@, chapter_binds(id)),
        changes(write@, before, after),
        answers_chapter_state(ask@, after, row),
    ensures
        row matches Some(found) && found.read == state.read && found.last_read == state.last_read,
{
    let binds = chapter_binds(id) + seq![
        BindView::Boolean(state.read),
        BindView::OptionalInteger(state.last_read),
    ];
    assert(bound_chapter(binds, 0) == id);
    assert(bound_chapter(chapter_binds(id), 0) == id);
    assert(binds[3] == BindView::Boolean(state.read));
    assert(binds[4] == BindView::OptionalInteger(state.last_read));
}

/// When a manga was checked and when it is due again is found as it was written, and nothing
/// is found once it was deleted.
pub proof fn lemma_check_is_found(
    id: (Seq<char>, Seq<char>),
    last: i64,
    next: i64,
    write: Statement,
    delete: Statement,
    ask: Statement,
    before: Store,
    written: Store,
    deleted: Store,
    row: Option<(i64, i64)>,
    row_deleted: Option<(i64, i64)>,
)
    requires
        write.is(
            sql::SET_LAST_CHECK@,
            manga_binds(id) + seq![BindView::Integer(last), BindView::Integer(next)],
        ),
        delete.is(sql::DELETE_LAST_CHECK@, manga_binds(id)),
        ask.is(sql::FIND_LAST_CHECK@, manga_binds(id)),
        changes(write@, before, written),
        changes(delete@, written, deleted),
        answers_check(ask@, written, row),
        answers_check(ask@, deleted, row_deleted),
    ensures
        row == Some((last, next)),
        row_deleted is None,
{
    let binds = manga_binds(id) + seq![BindView::Integer(last), BindView::Integer(next)];
    assert(bound_manga(binds, 0) == id);
    assert(bound_manga(manga_binds(id), 0) == id);
    assert(binds[2] == BindView::Integer(last));
    assert(binds[3] == BindView::Integer(next));
}

/// A notification that was deleted is not told of any more, and after all were deleted none
/// is, and their number is 0.
pub proof fn lemma_deleted_notifications_are_gone(
    id: i64,
    delete: Statement,
    clear: Statement,
    ask: Statement,
    count: Statement,
    before: Store,
    deleted: Store,
    cleared: Store,
    rows: Seq<NotificationInformationRow>,
    rows_cleared: Seq<NotificationInformationRow>,
    number: int,
)
    requires
        delete.is(sql::DELETE_NOTIFICATION@, seq![BindView::Integer(id)]),
        clear.is(sql::CLEAR_NOTIFICATIONS@, Seq::empty()),
        ask.is(sql::FIND_NOTIFICATIONS@, Seq::empty()),
        count.is(sql::COUNT_NOTIFICATIONS@, Seq::empty()),
        changes(delete@, before, deleted),
        changes(clear@, before, cleared),
        answers_notifications(ask@, deleted, rows),
        answers_notifications(ask@, cleared, rows_cleared),
        answers_notification_count(count@, cleared, number),
    ensures
        forall|i: int| 0 <= i < rows.len() ==> (#[trigger] rows[i]).id != id,
        forall|other: i64|
            other != id && before.notifications.dom().contains(other) ==> exists|i: int|
                0 <= i < rows.len() && (#[trigger] rows[i]).id == other,
        rows_cleared.len() == 0,
        number == 0,
{
    assert(cleared.notifications.dom() =~= Set::empty());
    if rows_cleared.len() > 0 {
        assert(cleared.notifications.dom().contains(rows_cleared[0].id));
    }
    assert forall|i: int| 0 <= i < rows.len() implies (#[trigger] rows[i]).id != id by {
        assert(deleted.notifications.dom().contains(rows[i].id));
    }
    assert forall|other: i64|
        other != id && before.notifications.dom().contains(other) implies exists|i: int|
        0 <= i < rows.len() && (#[trigger] rows[i]).id == other by {
        assert(deleted.notifications.dom().contains(other));
    }
}

/// Every new chapter is told of after its notification was written, under its own id and the
/// manga that was named.
pub proof fn lemma_new_chapters_are_told_of(
    manga: (Seq<char>, Seq<char>),
    chapter: ChapterInformation,
    now: i64,
    ask: Statement,
    before: Store,
    after: Store,
    rows: Seq<NotificationInformationRow>,
)
    requires
        notified(before, after, (manga.0, manga.1, chapter.id@.2), now),
        ask.is(sql::FIND_NOTIFICATIONS@, Seq::empty()),
        answers_notifications(ask@, after, rows),
    ensures
        exists|i: int|
            0 <= i < rows.len() && (#[trigger] rows[i]).source_id@ == manga.0 && rows[i].manga_id@
                == manga.1 && rows[i].chapter_id@ == chapter.id@.2 && rows[i].created_at == now,
{
    let id = choose|id: i64|
        !before.notifications.dom().contains(id) && #[trigger] after.notifications.dom().contains(
            id,
        ) && after.notifications[id].chapter == (manga.0, manga.1, chapter.id@.2)
            && after.notifications[id].created_at == now;
    let i = choose|i: int| 0 <= i < rows.len() && (#[trigger] rows[i]).id == id;
    assert(rows[i].created_at == now);
}

proof fn lemma_mangas_written(
    table: Map<(Seq<char>, Seq<char>), Seq<BindView>>,
    infos: Seq<MangaInformation>,
    id: (Seq<char>, Seq<char>),
    n: int,
)
    requires
        -1 <= n < infos.len(),
        n >= 0 ==> infos[n].id@ == id,
        forall|j: int| n < j < infos.len() ==> (#[trigger] infos[j]).id@ != id,
    ensures
        ({
            let after = mangas_written(table, manga_rows(infos));
            if n >= 0 {
                after.dom().contains(id) && after[id] == manga_row(infos[n]).skip(2)
            } else {
                after.dom().contains(id) == table.dom().contains(id) && (table.dom().contains(id)
                    ==> after[id] == table[id])
            }
        }),
    decreases infos.len(),
{
    let binds = manga_rows(infos);
    if infos.len() == 0 {
        assert(binds.len() == 0);
    } else {
        let front = infos.drop_last();
        let last = infos.last();
        let k: int = binds.len() - 6;
        let row = manga_row(last);
        assert(binds.take(k) =~= manga_rows(front));
        assert(binds.skip(k + 2) =~= row.skip(2));
        assert(binds[k] == row[0] && binds[k + 1] == row[1]);
        assert(bound_manga(binds, k) == last.id@);
        if n < infos.len() - 1 {
            assert forall|j: int| n < j < front.len() implies (#[trigger] front[j]).id@ != id by {
                assert(front[j] == infos[j]);
            }
            lemma_mangas_written(table, front, id, n);
            assert(infos[infos.len() - 1].id@ != id);
        }
    }
}

/// Of descriptions of mangas that were written at once, the last one of a manga is found for
/// it, all of it.
pub proof fn lemma_described_manga_is_found(
    infos: Seq<MangaInformation>,
    n: int,
    write: Statement,
    ask: Statement,
    before: Store,
    after: Store,
    row: Option<MangaInformationsRow>,
)
    requires
        0 <= n < infos.len(),
        forall|j: int| n < j < infos.len() ==> (#[trigger] infos[j]).id@ != infos[n].id@,
        write@ == manga_batch(infos),
        ask.is(sql::FIND_MANGA_INFORMATION@, manga_binds(infos[n].id@)),
        changes(write@, before, after),
        answers_manga_information(ask@, after, row),
    ensures
        row matches Some(found) && found.source_id@ == infos[n].id@.0 && found.manga_id@
            == infos[n].id@.1 && optional_text(found.title) == optional_text(infos[n].title)
            && optional_text(found.author) == optional_text(infos[n].author) && optional_text(
            found.artist,
        ) == optional_text(infos[n].artist) && optional_text(found.cover_url) == optional_text(
            infos[n].cover_url,
        ),
{
    let id = infos[n].id@;
    let binds = manga_row(infos[n]);
    lemma_mangas_written(before.mangas, infos, id, n);
    assert(bound_manga(manga_binds(id), 0) == id);
    assert(after.mangas == mangas_written(before.mangas, manga_rows(infos)));
    let columns = binds.skip(2);
    assert(columns[0] == binds[2] && columns[1] == binds[3] && columns[2] == binds[4] && columns[3]
        == binds[5]);
}

proof fn lemma_chapters_written(
    table: Map<(Seq<char>, Seq<char>, Seq<char>), Seq<BindView>>,
    infos: Seq<ChapterInformation>,
    start: int,
    id: (Seq<char>, Seq<char>, Seq<char>),
)
    ensures
        chapters_written(table, chapter_rows(infos, start)).dom().contains(id) <==> (
        table.dom().contains(id) || exists|i: int|
            0 <= i < infos.len() && (#[trigger] infos[i]).id@ == id),
    decreases infos.len(),
{
    let binds = chapter_rows(infos, start);
    if infos.len() == 0 {
        assert(binds.len() == 0);
    } else {
        let front = infos.drop_last();
        let last = infos.last();
        let k: int = binds.len() - 12;
        let row = chapter_row(last, start + infos.len() - 1);
        assert(binds.take(k) =~= chapter_rows(front, start));
        assert(binds[k] == row[0] && binds[k + 1] == row[1] && binds[k + 2] == row[2]);
        assert(bound_chapter(binds, k) == last.id@);
        lemma_chapters_written(table, front, start, id);
        if exists|i: int| 0 <= i < front.len() && (#[trigger] front[i]).id@ == id {
            let i = choose|i: int| 0 <= i < front.len() && (#[trigger] front[i]).id@ == id;
            assert(infos[i].id@ == id);
        }
        if exists|i: int| 0 <= i < infos.len() && (#[trigger] infos[i]).id@ == id {
            let i = choose|i: int| 0 <= i < infos.len() && (#[trigger] infos[i]).id@ == id;
            if i < front.len() {
                assert(front[i].id@ == id);
            }
        }
        assert(infos[infos.len() - 1] == last);
    }
}

/// The chapters of a manga that are there after some were deleted and others written are
/// those that were not deleted and those that were written.
pub proof fn lemma_chapters_are_listed(
    manga: (Seq<char>, Seq<char>),
    gone: Seq<(Seq<char>, Seq<char>, Seq<char>)>,
    infos: Seq<ChapterInformation>,
    delete: Statement,
    write: Statement,
    ask: Statement,
    before: Store,
    between: Store,
    after: Store,
    rows: Seq<Seq<char>>,
    id: Seq<char>,
)
    requires
        delete@ == delete_batch(manga, gone),
        write@ == chapter_batch(infos, 0),
        ask.is(sql::FIND_CHAPTER_IDS@, manga_binds(manga)),
        changes(delete@, before, between),
        changes(write@, between, after),
        answers_chapter_ids(ask@, after, rows),
    ensures
        rows.contains(id) <==> ((before.chapters.dom().contains((manga.0, manga.1, id)) && !(exists|
            i: int,
        |
            0 <= i < gone.len() && (#[trigger] gone[i]).2 == id)) || exists|i: int|
            0 <= i < infos.len() && (#[trigger] infos[i]).id@ == (manga.0, manga.1, id)),
{
    let binds = manga_binds(manga) + id_binds(gone);
    let key = (manga.0, manga.1, id);
    assert(bound_manga(manga_binds(manga), 0) == manga);
    assert(binds[0] == BindView::Text(manga.0) && binds[1] == BindView::Text(manga.1));
    assert(binds.skip(2) =~= id_binds(gone));
    assert(after.chapters == chapters_written(between.chapters, chapter_rows(infos, 0)));
    lemma_chapters_written(between.chapters, infos, 0, key);
    if exists|i: int| 0 <= i < gone.len() && (#[trigger] gone[i]).2 == id {
        let i = choose|i: int| 0 <= i < gone.len() && (#[trigger] gone[i]).2 == id;
        assert(id_binds(gone)[i] == BindView::Text(id));
    }
    if id_binds(gone).contains(BindView::Text(id)) {
        let i = choose|i: int|
            0 <= i < id_binds(gone).len() && id_binds(gone)[i] == BindView::Text(id);
        assert(gone[i].2 == id);
    }
    assert(between.chapters.dom().contains(key) <==> before.chapters.dom().contains(key)
        && !id_binds(gone).contains(BindView::Text(id)));
}

/// A playlist that was created is listed under the id that it was given and with its name,
/// one that was renamed with the new name, and one that was deleted not at all. No other
/// playlist is touched.
pub proof fn lemma_playlists_are_listed(
    id: i64,
    name: Seq<char>,
    renamed: Seq<char>,
    other: i64,
    create: Statement,
    rename: Statement,
    delete: Statement,
    before: Store,
    created: Store,
    changed: Store,
    deleted: Store,
)
    requires
        create.is(sql::CREATE_PLAYLIST@, seq![BindView::Text(name)]),
        rename.is(sql::RENAME_PLAYLIST@, seq![BindView::Text(renamed), BindView::Integer(id)]),
        delete.is(sql::DELETE_PLAYLIST@, seq![BindView::Integer(id)]),
        creates_playlist(create@, before, created, id),
        changes(rename@, created, changed),
        changes(delete@, changed, deleted),
        other != id,
    ensures
        lists_playlist(created, id, name),
        lists_playlist(changed, id, renamed),
        forall|any: Seq<char>| !lists_playlist(deleted, id, any),
        forall|any: Seq<char>|
            lists_playlist(deleted, other, any) <==> lists_playlist(before, other, any),
{
    assert(create@.1[0] == BindView::Text(name));
    assert(rename@.1[0] == BindView::Text(renamed) && rename@.1[1] == BindView::Integer(id));
    assert(delete@.1[0] == BindView::Integer(id));
}

/// Whether there is a playlist under an id and with a name.
pub open spec fn lists_playlist(store: Store, id: i64, name: Seq<char>) -> bool {
    store.playlists.dom().contains(id) && store.playlists[id] == name
}

/// The playlists that are answered are those that are there, each with its name.
pub proof fn lemma_answered_playlists(
    ask: Statement,
    store: Store,
    rows: Seq<Playlist>,
    id: i64,
    name: Seq<char>,
)
    requires
        ask.is(sql::FIND_PLAYLISTS@, Seq::empty()),
        answers_playlists(ask@, store, rows),
    ensures
        lists_playlist(store, id, name) <==> exists|i: int|
            0 <= i < rows.len() && (#[trigger] rows[i]).id == id && rows[i].name@ == name,
{
    if lists_playlist(store, id, name) {
        let i = choose|i: int| 0 <= i < rows.len() && (#[trigger] rows[i]).id == id;
        assert(rows[i].name@ == name);
    }
}

/// Details of a manga that were written are found for it, with the time at which a chapter
/// was last read.
pub proof fn lemma_written_details_are_found(
    id: (Seq<char>, Seq<char>),
    manga: Manga,
    write: Statement,
    ask: Statement,
    before: Store,
    after: Store,
    row: Option<MangaDetailsRow>,
)
    requires
        write.is(sql::UPSERT_MANGA_DETAILS@, details_binds(id, manga)),
        ask.is(sql::FIND_MANGA_DETAILS@, manga_binds(id)),
        changes(write@, before, after),
        answers_details(ask@, after, row),
    ensures
        row matches Some(found) && found.source_id@ == id.0 && found.id@ == id.1 && optional_text(
            found.title,
        ) == optional_text(manga.title) && optional_text(found.author) == optional_text(
            manga.author,
        ) && optional_text(found.artist) == optional_text(manga.artist) && optional_text(
            found.description,
        ) == optional_text(manga.description) && optional_text(found.cover_url) == optional_text(
            manga.cover_url,
        ) && optional_text(found.url) == optional_text(manga.url) && found.status
            == manga.status as i64 && found.nsfw == manga.nsfw as i64 && found.viewer
            == manga.viewer as i64 && found.last_read == Some(
            or_else(last_read_of(before, id), 0) as i64,
        ),
        row matches Some(found) && (found.tags is Some <==> manga.tags is Some) && (
        found.last_updated is Some <==> manga.last_updated is Some) && (found.last_opened is Some
            <==> manga.last_opened is Some) && (found.date_added is Some
            <==> manga.date_added is Some),
        row matches Some(found) && (manga.tags matches Some(tags) ==> found.tags->0@
            == json_of_texts(texts(tags@))),
        row matches Some(found) && (manga.last_updated matches Some(t) ==> found.last_updated->0@
            == rfc3339_text(t.seconds, t.nanos)),
        row matches Some(found) && (manga.last_opened matches Some(t) ==> found.last_opened->0@
            == rfc3339_text(t.seconds, t.nanos)),
        row matches Some(found) && (manga.date_added matches Some(t) ==> found.date_added->0@
            == rfc3339_text(t.seconds, t.nanos)),
{
    let binds = details_binds(id, manga);
    let columns = binds.skip(2);
    assert(bound_manga(binds, 0) == id);
    assert(bound_manga(manga_binds(id), 0) == id);
    assert(after.details[id] == columns);
    assert(row is Some);
    let found = row->0;
    assert forall|i: int| 0 <= i < 13 implies #[trigger] columns[i] == binds[i + 2] by {}
    assert(columns[0] == BindView::OptionalText(optional_text(found.title)));
    assert(columns[1] == BindView::OptionalText(optional_text(found.author)));
    assert(columns[2] == BindView::OptionalText(optional_text(found.artist)));
    assert(columns[3] == BindView::OptionalText(optional_text(found.description)));
    assert(columns[4] == BindView::OptionalText(optional_text(found.tags)));
    assert(columns[5] == BindView::OptionalText(optional_text(found.cover_url)));
    assert(columns[6] == BindView::OptionalText(optional_text(found.url)));
    assert(columns[7] == BindView::Integer(found.status));
    assert(columns[8] == BindView::Integer(found.nsfw));
    assert(columns[9] == BindView::Integer(found.viewer));
    assert(columns[10] == BindView::OptionalText(optional_text(found.last_updated)));
    assert(columns[11] == BindView::OptionalText(optional_text(found.last_opened)));
    assert(columns[12] == BindView::OptionalText(optional_text(found.date_added)));
    assert(last_read_of(after, id) == last_read_of(before, id));
}

/// Marking chapters marks each of them and no other, and then asks for what is settled for
/// the manga, with which its chapters are counted.
pub proof fn lemma_marked_chapters_are_found(
    manga: (Seq<char>, Seq<char>),
    ids: Seq<(Seq<char>, Seq<char>, Seq<char>)>,
    read: bool,
    change: ReadStateChange,
    id: (Seq<char>, Seq<char>, Seq<char>),
    before: Store,
    after: Store,
    row: Option<MangaStateRow>,
)
    requires
        change.marks(manga, ids, read),
        match change.write {
            Some(write) => changes(write@, before, after),
            None => after == before,
        },
        answers_manga_state(change.find_manga_state@, after, row),
    ensures
        ids.contains(id) ==> after.states.dom().contains(id) && after.states[id].read == read,
        !ids.contains(id) ==> after.states.dom().contains(id) == before.states.dom().contains(id),
        !ids.contains(id) && before.states.dom().contains(id) ==> after.states[id]
            == before.states[id],
        row is Some <==> before.preferred.dom().contains(manga),
        row matches Some(found) ==> optional_text(found.preferred_scanlator)
            == before.preferred[manga],
{
    assert(bound_manga(manga_binds(manga), 0) == manga);
    lemma_states_marked(before.states, ids, read, id);
    if change.write is Some {
        assert(after.states == states_marked(before.states, read_state_binds(ids, read)));
    } else {
        assert(!ids.contains(id));
    }
}

}
