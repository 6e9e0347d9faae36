//! What is asked of the database, and what its answers mean.
use vstd::prelude::*;
use vstd::string::*;

use crate::clock::seconds_now;
use crate::effects::{bound_chapter, changes, notified, Check, Store};
use crate::keyed::ListMap;
use crate::model::{
    chapter_ids, manga_ids, ChapterId, ChapterInformation, ChapterState, MangaId, MangaInformation,
    MangaState, NotificationInformation, Playlist, PublishingStatus,
};
use crate::queries::{
    answers_chapter_ids, answers_chapter_state, answers_chapter_states, answers_check,
    answers_description, answers_descriptions, answers_details, answers_library_ids,
    answers_manga_information, answers_manga_state, answers_next_check,
    answers_notification_count, answers_notifications, answers_playlists, answers_status,
    answers_unread, answers_unread_counts, asked_manga, creates_playlist, due_at, has_counts,
    is_state_row, last_read_of, tell_status, tells_counts,
};
use crate::rows::{
    status_of, ChapterInformationsRow, ChapterStateRow, DescriptionView, MangaDetailsRow,
    MangaInformationsRow, MangaLibraryRow, MangaStateRow, NextCheckRow,
    NotificationInformationRow, StatusRow, UnreadChaptersRow, UnreadChaptersRowFull,
    UnreadableRow,
};
use crate::source::Manga;
use crate::sql;
use crate::statement::{
    bind_boolean, bind_chapter, bind_integer, bind_manga, bind_optional_integer,
    bind_optional_text, bind_text, bind_views, chapter_binds, chapter_statement,
    lemma_list_placeholders, lemma_no_placeholder, manga_binds, manga_statement, no_binds,
    placeholder_rows, placeholders, statement, write_placeholder_rows, BindView, Statement,
};
use crate::tables::{or_else, states_marked, Tables};
use crate::text::{concat3, optional_text, repeat_separated, repeated, texts};

verus! {

/// The database of the library, by the path of its file.
#[derive(Clone, Debug, PartialEq, Eq)]
pub struct Database {
    pub filename: String,
}

/// What a list shows of a manga: how many chapters are unread, when one was last
/// read, and whether it is in the library.
pub type UnreadCounts = (Option<usize>, Option<i64>, bool);

/// The mangas of rows.
pub open spec fn library_ids(rows: Seq<MangaLibraryRow>) -> Seq<(Seq<char>, Seq<char>)> {
    rows.map_values(|row: MangaLibraryRow| (row.source_id@, row.manga_id@))
}

/// Whether rows say this of mangas and their status, one by one.
pub open spec fn say_status(rows: Seq<StatusRow>, r: Seq<(MangaId, PublishingStatus)>) -> bool {
    &&& r.len() == rows.len()
    &&& forall|i: int|
        0 <= i < r.len() ==> {
            &&& (#[trigger] r[i]).0@ == (rows[i].source_id@, rows[i].manga_id@)
            &&& r[i].1 == status_of(rows[i].status)
        }
}

/// Reads mangas and their status from rows.
fn read_status(rows: Vec<StatusRow>) -> (r: Vec<(MangaId, PublishingStatus)>)
    ensures
        say_status(rows@, r@),
{
    let mut r: Vec<(MangaId, PublishingStatus)> = Vec::new();
    for row in it: rows
        invariant
            it.seq() == rows@,
            r@.len() == it.index(),
            forall|i: int|
                0 <= i < r@.len() ==> {
                    &&& (#[trigger] r@[i]).0@ == (rows@[i].source_id@, rows@[i].manga_id@)
                    &&& r@[i].1 == status_of(rows@[i].status)
                },
    {
        r.push(row.manga_and_status());
    }
    r
}

/// The values that stand for mangas, one behind the other.
pub open spec fn mangas_binds(ids: Seq<(Seq<char>, Seq<char>)>) -> Seq<BindView>
    decreases ids.len(),
{
    if ids.len() == 0 {
        Seq::empty()
    } else {
        mangas_binds(ids.drop_last()) + manga_binds(ids.last())
    }
}

/// What a row says of unread chapters.
pub open spec fn counts_of(row: UnreadChaptersRowFull) -> UnreadCounts {
    (
        match row.count {
            Some(count) => Some(count as usize),
            None => None,
        },
        match row.last_time {
            Some(t) => Some(t as i64),
            None => None,
        },
        row.in_library,
    )
}

/// What rows say of unread chapters. Of two rows for one manga the later counts.
pub open spec fn counts_of_rows(rows: Seq<UnreadChaptersRowFull>) -> Map<
    (Seq<char>, Seq<char>),
    UnreadCounts,
>
    decreases rows.len(),
{
    if rows.len() == 0 {
        Map::empty()
    } else {
        counts_of_rows(rows.drop_last()).insert(
            (rows.last().source_id@, rows.last().manga_id@),
            counts_of(rows.last()),
        )
    }
}

/// A map with an entry that says nothing for each manga that has none.
pub open spec fn with_absent(
    counts: Map<(Seq<char>, Seq<char>), UnreadCounts>,
    ids: Seq<(Seq<char>, Seq<char>)>,
) -> Map<(Seq<char>, Seq<char>), UnreadCounts> {
    Map::new(
        |id: (Seq<char>, Seq<char>)| counts.dom().contains(id) || ids.contains(id),
        |id: (Seq<char>, Seq<char>)|
            if counts.dom().contains(id) {
                counts[id]
            } else {
                (None, None, false)
            },
    )
}

/// The states that rows give to the chapters of a manga. Of two rows for one
/// chapter the later counts.
pub open spec fn states_of_rows(rows: Seq<ChapterStateRow>) -> Map<Seq<char>, ChapterState>
    decreases rows.len(),
{
    if rows.len() == 0 {
        Map::empty()
    } else {
        states_of_rows(rows.drop_last()).insert(
            rows.last().chapter_id@,
            ChapterState { read: rows.last().read, last_read: rows.last().last_read },
        )
    }
}

/// The ids of chapters of one manga.
pub open spec fn ids_in_manga(manga: (Seq<char>, Seq<char>), ids: Seq<Seq<char>>) -> Set<
    (Seq<char>, Seq<char>, Seq<char>),
> {
    Set::new(
        |id: (Seq<char>, Seq<char>, Seq<char>)|
            id.0 == manga.0 && id.1 == manga.1 && ids.contains(id.2),
    )
}

/// Whether a chapter counts as read when it is marked: unless it is said otherwise,
/// it does.
pub open spec fn marked_read(value: Option<bool>) -> bool {
    match value {
        Some(v) => v,
        None => true,
    }
}

/// The values for a chapter that is marked at a time. One that is marked as unread
/// gets no time.
pub open spec fn mark_binds(
    id: (Seq<char>, Seq<char>, Seq<char>),
    value: Option<bool>,
    now: i64,
) -> Seq<BindView> {
    chapter_binds(id) + seq![
        BindView::Boolean(marked_read(value)),
        BindView::OptionalInteger(
            if marked_read(value) {
                Some(now)
            } else {
                None
            },
        ),
    ]
}

/// The values for new chapters of a manga, one notification behind the other.
pub open spec fn notification_binds(
    manga: (Seq<char>, Seq<char>),
    chapters: Seq<ChapterInformation>,
    now: i64,
) -> Seq<BindView>
    decreases chapters.len(),
{
    if chapters.len() == 0 {
        Seq::empty()
    } else {
        notification_binds(manga, chapters.drop_last(), now) + manga_binds(manga) + seq![
            BindView::Text(chapters.last().id@.2),
            BindView::Integer(now),
        ]
    }
}

/// The condition that leaves sources out.
pub open spec fn skip_condition(n: nat) -> Seq<char> {
    if n == 0 {
        ""@
    } else {
        sql::NEXT_CHECK_SKIP@ + repeated("?"@, ","@, n) + ")"@
    }
}

/// The value for a time.
pub open spec fn time_binds(now: i64) -> Seq<BindView> {
    seq![BindView::Integer(now)]
}

/// The values for texts.
pub open spec fn text_binds(list: Seq<Seq<char>>) -> Seq<BindView> {
    list.map_values(|t: Seq<char>| BindView::Text(t))
}

/// What is asked to mark chapters of a manga: first what is to be written, and then what
/// is settled for the manga, with which its unread chapters are counted.
#[derive(Clone, Debug, PartialEq, Eq)]
pub struct ReadStateChange {
    pub write: Option<Statement>,
    pub find_manga_state: Statement,
}

/// The values for chapters that are marked, one behind the other.
pub open spec fn read_state_binds(
    ids: Seq<(Seq<char>, Seq<char>, Seq<char>)>,
    read: bool,
) -> Seq<BindView>
    decreases ids.len(),
{
    if ids.len() == 0 {
        Seq::empty()
    } else {
        read_state_binds(ids.drop_last(), read) + chapter_binds(ids.last()) + seq![
            BindView::Boolean(read),
        ]
    }
}

impl ReadStateChange {
    /// Whether chapters are marked by this, and then the unread ones of a manga counted.
    pub open spec fn marks(
        self,
        manga: (Seq<char>, Seq<char>),
        ids: Seq<(Seq<char>, Seq<char>, Seq<char>)>,
        read: bool,
    ) -> bool {
        &&& match self.write {
            Some(s) => ids.len() > 0 && s.is(
                sql::SET_READ_STATE_HEAD@ + placeholder_rows(ids.len(), 4)
                    + sql::SET_READ_STATE_TAIL@,
                read_state_binds(ids, read),
            ),
            None => ids.len() == 0,
        }
        &&& self.find_manga_state.is(sql::FIND_MANGA_STATE@, manga_binds(manga))
    }
}

/// The number of unread chapters that a row tells, where there are chapters.
pub open spec fn unread_of(row: UnreadChaptersRow) -> Option<usize> {
    if row.has_chapters == Some(true) {
        match row.count {
            Some(count) => Some(count as usize),
            None => None,
        }
    } else {
        None
    }
}

/// The scanlator that the reader prefers for a manga, where that is settled.
pub open spec fn preferred_scanlator(state: Option<MangaState>) -> Option<Seq<char>> {
    match state {
        Some(state) => optional_text(state.preferred_scanlator),
        None => None,
    }
}

impl Database {
    /// Asks for the mangas of the library.
    pub fn get_manga_library_statement(&self) -> (r: Statement)
        ensures
            r.is(sql::MANGA_LIBRARY@, Seq::empty()),
            forall|store: Store, rows: Seq<MangaLibraryRow>, id: (Seq<char>, Seq<char>)|
                #![trigger answers_library_ids(r@, store, rows), store.library.contains(id)]
                answers_library_ids(r@, store, rows) ==> (store.library.contains(id) <==> exists|
                    i: int,
                |
                    0 <= i < rows.len() && (#[trigger] rows[i]).source_id@ == id.0
                        && rows[i].manga_id@ == id.1),
    {
        statement(sql::MANGA_LIBRARY, no_binds())
    }

    /// The mangas of the library.
    pub fn get_manga_library(&self, rows: Vec<MangaLibraryRow>) -> (r: Vec<MangaId>)
        ensures
            manga_ids(r@) == library_ids(rows@),
    {
        let mut r: Vec<MangaId> = Vec::new();
        for row in it: rows
            invariant
                it.seq() == rows@,
                r@.len() == it.index(),
                forall|i: int|
                    0 <= i < r@.len() ==> (#[trigger] r@[i])@ == (
                        rows@[i].source_id@,
                        rows@[i].manga_id@,
                    ),
        {
            r.push(row.manga_id());
        }
        assert(manga_ids(r@) =~= library_ids(rows@));
        r
    }

    /// Asks for the mangas of the library, and how far each has come out.
    pub fn get_manga_library_and_status_statement(&self) -> (r: Statement)
        ensures
            r.is(sql::MANGA_LIBRARY_AND_STATUS@, Seq::empty()),
            forall|store: Store, rows: Seq<StatusRow>| #[trigger]
                answers_status(r@, store, rows) ==> tell_status(store, store.library, rows),
    {
        statement(sql::MANGA_LIBRARY_AND_STATUS, no_binds())
    }

    /// The mangas of the library, and how far each has come out.
    pub fn get_manga_library_and_status(&self, rows: Vec<StatusRow>) -> (r: Vec<
        (MangaId, PublishingStatus),
    >)
        ensures
            say_status(rows@, r@),
    {
        read_status(rows)
    }

    /// Puts a manga into the library.
    pub fn add_manga_to_library(&self, manga_id: &MangaId) -> (r: Statement)
        ensures
            r.is(sql::ADD_MANGA_TO_LIBRARY@, manga_binds(manga_id@)),
            forall|before: Store, after: Store| #[trigger]
                changes(r@, before, after) ==> after == (Store {
                    library: before.library.insert(manga_id@),
                    ..before
                }),
    {
        manga_statement(sql::ADD_MANGA_TO_LIBRARY, manga_id)
    }

    /// Takes a manga out of the library.
    pub fn remove_manga_from_library(&self, manga_id: &MangaId) -> (r: Statement)
        ensures
            r.is(sql::REMOVE_MANGA_FROM_LIBRARY@, manga_binds(manga_id@)),
            forall|before: Store, after: Store| #[trigger]
                changes(r@, before, after) ==> after == (Store {
                    library: before.library.remove(manga_id@),
                    ..before
                }),
    {
        manga_statement(sql::REMOVE_MANGA_FROM_LIBRARY, manga_id)
    }

    /// Asks how many chapters of a manga are unread, where `state` is what
    /// `find_manga_state` has found for it.
    pub fn count_unread_chapters_statement(
        &self,
        manga_id: &MangaId,
        state: &Option<MangaState>,
    ) -> (r: Statement)
        ensures
            r.is(
                sql::COUNT_UNREAD_CHAPTERS@,
                manga_binds(manga_id@).push(
                    BindView::OptionalText(preferred_scanlator(*state)),
                ),
            ),
            forall|tables: Tables, rank: spec_fn(Seq<char>) -> int, row: UnreadChaptersRow| #[trigger]
                answers_unread(r@, tables, rank, row) ==> tables.answers_count(
                    rank,
                    manga_id@,
                    match *state {
                        Some(state) => optional_text(state.preferred_scanlator),
                        None => None,
                    },
                    row,
                ),
    {
        let mut binds = no_binds();
        bind_manga(&mut binds, manga_id);
        match state {
            Some(state) => {
                bind_optional_text(&mut binds, &state.preferred_scanlator);
            },
            None => {
                bind_optional_text(&mut binds, &None);
            },
        }
        assert(bind_views(binds@) =~= manga_binds(manga_id@).push(
            BindView::OptionalText(preferred_scanlator(*state)),
        ));
        statement(sql::COUNT_UNREAD_CHAPTERS, binds)
    }

    /// How many chapters of a manga are unread, and `None` where it has no chapters.
    pub fn count_unread_chapters(&self, row: &UnreadChaptersRow) -> (r: Option<usize>)
        requires
            row.has_chapters == Some(true) ==> (row.count matches Some(count) ==> 0 <= count
                <= usize::MAX),
        ensures
            r == unread_of(*row),
            r matches Some(n) ==> row.count matches Some(count) && n == count,
    {
        let has_chapters = match row.has_chapters {
            Some(v) => v,
            None => false,
        };
        if !has_chapters {
            return None;
        }
        match row.count {
            Some(count) => Some(count as usize),
            None => None,
        }
    }

    /// Asks how many chapters of each of some mangas are unread. Of no mangas nothing
    /// is asked.
    pub fn fetch_unread_chapter_counts_minimal_statement(&self, manga_ids: &Vec<MangaId>) -> (r:
        Option<Statement>)
        ensures
            match r {
                Some(s) => manga_ids@.len() > 0 && s.is(
                    sql::UNREAD_COUNTS_HEAD@ + placeholder_rows(manga_ids@.len(), 2)
                        + sql::UNREAD_COUNTS_TAIL@,
                    mangas_binds(crate::model::manga_ids(manga_ids@)),
                ),
                None => manga_ids@.len() == 0,
            },
            r matches Some(s) ==> forall|
                tables: Tables,
                rank: spec_fn(Seq<char>) -> int,
                rows: Seq<UnreadChaptersRowFull>,
            | #[trigger]
                answers_unread_counts(s@, tables, rank, rows) && crate::model::manga_ids(
                    manga_ids@,
                ).no_duplicates() ==> {
                    &&& forall|j: int|
                        0 <= j < rows.len() ==> tells_counts(tables, rank, #[trigger] rows[j])
                    &&& forall|i: int|
                        0 <= i < manga_ids@.len() ==> has_counts(rows, (#[trigger] manga_ids@[i])@)
                },
    {
        if manga_ids.len() == 0 {
            return None;
        }
        let rows = write_placeholder_rows(manga_ids.len(), 2);
        let mut binds = no_binds();
        let mut i: usize = 0;
        let ghost ids = crate::model::manga_ids(manga_ids@);
        while i < manga_ids.len()
            invariant
                i <= manga_ids.len(),
                ids == crate::model::manga_ids(manga_ids@),
                bind_views(binds@) == mangas_binds(ids.take(i as int)),
            decreases manga_ids.len() - i,
        {
            bind_manga(&mut binds, &manga_ids[i]);
            i += 1;
            assert(ids.take(i as int).drop_last() =~= ids.take(i - 1));
        }
        assert(ids.take(i as int) =~= ids);
        let asked = Statement {
            sql: concat3(sql::UNREAD_COUNTS_HEAD, rows.as_str(), sql::UNREAD_COUNTS_TAIL),
            binds,
        };
        proof {
            let views = bind_views(binds@);
            let n = ids.len();
            assert(asked@ == (
                sql::UNREAD_COUNTS_HEAD@ + placeholder_rows(n, 2) + sql::UNREAD_COUNTS_TAIL@,
                views,
            ));
            lemma_every_manga_is_asked_for(ids, 0);
            assert forall|i: int| 0 <= i < n implies #[trigger] asked_manga(views, i)
                == manga_ids@[i]@ by {
                lemma_every_manga_is_asked_for(ids, i);
                assert(ids[i] == manga_ids@[i]@);
            }
            assert forall|
                tables: Tables,
                rank: spec_fn(Seq<char>) -> int,
                rows: Seq<UnreadChaptersRowFull>,
            | #[trigger]
                answers_unread_counts(asked@, tables, rank, rows) && ids.no_duplicates() implies {
                &&& forall|j: int|
                    0 <= j < rows.len() ==> tells_counts(tables, rank, #[trigger] rows[j])
                &&& forall|i: int|
                    0 <= i < n ==> has_counts(rows, (#[trigger] manga_ids@[i])@)
            } by {
                assert forall|i: int, j: int| 0 <= i < j < n implies #[trigger] asked_manga(
                    views,
                    i,
                ) != #[trigger] asked_manga(views, j) by {
                    assert(ids[i] != ids[j]);
                    assert(ids[i] == manga_ids@[i]@ && ids[j] == manga_ids@[j]@);
                }
                assert forall|i: int| 0 <= i < n implies has_counts(
                    rows,
                    (#[trigger] manga_ids@[i])@,
                ) by {
                    assert(asked_manga(views, i) == manga_ids@[i]@);
                }
            }
        }
        Some(asked)
    }

    /// How many chapters of each of some mangas are unread. Every manga that was asked
    /// for has an entry.
    pub fn fetch_unread_chapter_counts_minimal(
        &self,
        rows: &Vec<UnreadChaptersRowFull>,
        manga_ids: &Vec<MangaId>,
    ) -> (r: ListMap<MangaId, UnreadCounts>)
        ensures
            r.wf(),
            r@ == with_absent(counts_of_rows(rows@), crate::model::manga_ids(manga_ids@)),
    {
        let mut map: ListMap<MangaId, UnreadCounts> = ListMap::new();
        let mut i: usize = 0;
        while i < rows.len()
            invariant
                i <= rows.len(),
                map.wf(),
                map@ == counts_of_rows(rows@.take(i as int)),
            decreases rows.len() - i,
        {
            let id = MangaId::from_strings(rows[i].source_id.clone(), rows[i].manga_id.clone());
            let count = match rows[i].count {
                Some(count) => Some(
                    #[verifier::truncate]
                    (count as usize),
                ),
                None => None,
            };
            let last_time = match rows[i].last_time {
                Some(t) => Some(t as i64),
                None => None,
            };
            map.insert(id, (count, last_time, rows[i].in_library));
            i += 1;
            assert(rows@.take(i as int).drop_last() =~= rows@.take(i - 1));
        }
        assert(rows@.take(i as int) =~= rows@);
        let ghost counts = map@;
        let ghost ids = crate::model::manga_ids(manga_ids@);
        assert(map@ =~= with_absent(counts, ids.take(0)));
        let mut i: usize = 0;
        while i < manga_ids.len()
            invariant
                i <= manga_ids.len(),
                ids == crate::model::manga_ids(manga_ids@),
                map.wf(),
                map@ == with_absent(counts, ids.take(i as int)),
            decreases manga_ids.len() - i,
        {
            let ghost before = map@;
            map.insert_if_absent(manga_ids[i].copy(), (None, None, false));
            i += 1;
            proof {
                let now = ids.take(i as int);
                let earlier = ids.take(i - 1);
                assert(now =~= earlier.push(ids[i - 1]));
                assert(forall|id: (Seq<char>, Seq<char>)| #[trigger]
                    now.contains(id) <==> earlier.contains(id) || id == ids[i - 1]) by {
                    assert(now[i - 1] == ids[i - 1]);
                    assert forall|id: (Seq<char>, Seq<char>)| #[trigger]
                        earlier.contains(id) implies now.contains(id) by {
                        let k = choose|k: int| 0 <= k < earlier.len() && earlier[k] == id;
                        assert(now[k] == id);
                    }
                    assert forall|id: (Seq<char>, Seq<char>)| #[trigger]
                        now.contains(id) && id != ids[i - 1] implies earlier.contains(id) by {
                        let k = choose|k: int| 0 <= k < now.len() && now[k] == id;
                        assert(earlier[k] == id);
                    }
                }
                assert(map@ =~= with_absent(counts, now));
            }
        }
        assert(ids.take(i as int) =~= ids);
        map
    }

    /// Asks for the cached description of a manga.
    pub fn find_cached_manga_information_statement(&self, manga_id: &MangaId) -> (r: Statement)
        ensures
            r.is(sql::FIND_MANGA_INFORMATION@, manga_binds(manga_id@)),
            forall|store: Store, row: Option<MangaInformationsRow>| #[trigger]
                answers_manga_information(r@, store, row) ==> {
                    &&& row is Some <==> store.mangas.dom().contains(manga_id@)
                    &&& row matches Some(row) ==> (row.source_id@, row.manga_id@) == manga_id@
                },
    {
        manga_statement(sql::FIND_MANGA_INFORMATION, manga_id)
    }

    /// The cached description of a manga, where there is one.
    pub fn find_cached_manga_information(&self, row: Option<MangaInformationsRow>) -> (r: Option<
        MangaInformation,
    >)
        requires
            row matches Some(row) ==> row.readable(),
        ensures
            match row {
                Some(row) => r matches Some(information) && row.says(information),
                None => r is None,
            },
    {
        match row {
            Some(row) => Some(row.information()),
            None => None,
        }
    }

    /// The cached description of a manga, where there is one, and an error where it
    /// cannot be read.
    pub fn find_readable_manga_information(&self, row: Option<MangaInformationsRow>) -> (r: Result<
        Option<MangaInformation>,
        UnreadableRow,
    >)
        ensures
            match row {
                Some(row) => match r {
                    Ok(found) => row.readable() && (found matches Some(information) && row.says(
                        information,
                    )),
                    Err(_) => !row.readable(),
                },
                None => r matches Ok(found) && found is None,
            },
    {
        let readable = match &row {
            Some(row) => row.is_readable(),
            None => true,
        };
        if readable {
            Ok(self.find_cached_manga_information(row))
        } else {
            Err(UnreadableRow)
        }
    }

    /// Asks for the cached description of a chapter.
    pub fn find_cached_chapter_information_statement(&self, chapter_id: &ChapterId) -> (r:
        Statement)
        ensures
            r.is(sql::FIND_CHAPTER_INFORMATION@, chapter_binds(chapter_id@)),
            forall|tables: Tables, row: Option<DescriptionView>| #[trigger]
                answers_description(r@, tables, row) ==> {
                    &&& row is Some <==> tables.chapters.dom().contains(chapter_id@)
                    &&& row matches Some(row) ==> row == tables.chapters[chapter_id@]
                },
    {
        chapter_statement(sql::FIND_CHAPTER_INFORMATION, chapter_id)
    }

    /// The cached description of a chapter, where there is one.
    pub fn find_cached_chapter_information(&self, row: Option<ChapterInformationsRow>) -> (r:
        Option<ChapterInformation>)
        ensures
            match row {
                Some(row) => r matches Some(information) && row.says(information),
                None => r is None,
            },
    {
        match row {
            Some(row) => Some(row.information()),
            None => None,
        }
    }

    /// Asks for the ids of the cached chapters of a manga.
    pub fn find_cached_chapter_ids_statement(&self, manga_id: &MangaId) -> (r: Statement)
        ensures
            r.is(sql::FIND_CHAPTER_IDS@, manga_binds(manga_id@)),
            forall|store: Store, rows: Seq<Seq<char>>, id: Seq<char>|
                #![trigger answers_chapter_ids(r@, store, rows), rows.contains(id)]
                answers_chapter_ids(r@, store, rows) ==> (rows.contains(id)
                    <==> store.chapters.dom().contains((manga_id@.0, manga_id@.1, id))),
    {
        manga_statement(sql::FIND_CHAPTER_IDS, manga_id)
    }

    /// The ids of the cached chapters of a manga, each once.
    pub fn find_cached_chapter_ids(&self, manga_id: &MangaId, rows: &Vec<String>) -> (r: Vec<
        ChapterId,
    >)
        ensures
            chapter_ids(r@).no_duplicates(),
            chapter_ids(r@).to_set() == ids_in_manga(manga_id@, texts(rows@)),
    {
        let mut ids: Vec<ChapterId> = Vec::new();
        let mut i: usize = 0;
        while i < rows.len()
            invariant
                i <= rows.len(),
                chapter_ids(ids@).no_duplicates(),
                forall|k: int|
                    0 <= k < ids@.len() ==> (#[trigger] ids@[k])@.0 == manga_id@.0 && ids@[k]@.1
                        == manga_id@.1 && texts(rows@.take(i as int)).contains(ids@[k]@.2),
                forall|j: int|
                    0 <= j < i ==> chapter_ids(ids@).contains(
                        (manga_id@.0, manga_id@.1, (#[trigger] rows@[j])@),
                    ),
            decreases rows.len() - i,
        {
            let id = ChapterId::new(manga_id.copy(), rows[i].clone());
            let ghost before = ids@;
            let ghost seen = texts(rows@.take(i as int));
            let known = contains_chapter(&ids, &id);
            if !known {
                ids.push(id);
                assert(chapter_ids(ids@) =~= chapter_ids(before).push(id@));
            }
            i += 1;
            proof {
                let now = texts(rows@.take(i as int));
                assert(now =~= seen.push(rows@[i - 1]@));
                assert(now[i - 1] == rows@[i - 1]@);
                assert forall|k: int| 0 <= k < ids@.len() implies (#[trigger] ids@[k])@.0
                    == manga_id@.0 && ids@[k]@.1 == manga_id@.1 && now.contains(ids@[k]@.2) by {
                    if k < before.len() {
                        assert(ids@[k] == before[k]);
                        let m = choose|m: int| 0 <= m < seen.len() && seen[m] == before[k]@.2;
                        assert(now[m] == before[k]@.2);
                    }
                }
                assert forall|j: int| 0 <= j < i implies chapter_ids(ids@).contains(
                    (manga_id@.0, manga_id@.1, (#[trigger] rows@[j])@),
                ) by {
                    if j < i - 1 {
                        let v = (manga_id@.0, manga_id@.1, rows@[j]@);
                        assert(chapter_ids(before).contains(v));
                        let m = choose|m: int|
                            0 <= m < chapter_ids(before).len() && chapter_ids(before)[m] == v;
                        assert(chapter_ids(ids@)[m] == v);
                    } else if !known {
                        assert(chapter_ids(ids@)[before.len() as int] == id@);
                    }
                }
            }
        }
        proof {
            assert(rows@.take(i as int) =~= rows@);
            let set = ids_in_manga(manga_id@, texts(rows@));
            assert forall|v: (Seq<char>, Seq<char>, Seq<char>)| #[trigger]
                chapter_ids(ids@).to_set().contains(v) == set.contains(v) by {
                if chapter_ids(ids@).contains(v) {
                    let m = choose|m: int|
                        0 <= m < chapter_ids(ids@).len() && chapter_ids(ids@)[m] == v;
                    assert(ids@[m]@ == v);
                }
                if set.contains(v) {
                    let j = choose|j: int| 0 <= j < texts(rows@).len() && texts(rows@)[j] == v.2;
                    assert(rows@[j]@ == v.2);
                }
            }
            assert(chapter_ids(ids@).to_set() =~= set);
        }
        ids
    }

    /// Asks for the cached descriptions of the chapters of a manga.
    pub fn find_cached_chapter_informations_statement(&self, manga_id: &MangaId) -> (r: Statement)
        ensures
            r.is(sql::FIND_CHAPTER_INFORMATIONS@, manga_binds(manga_id@)),
            forall|tables: Tables, rows: Seq<DescriptionView>| #[trigger]
                answers_descriptions(r@, tables, rows) ==> tables.answers_descriptions(
                    manga_id@,
                    rows,
                ),
    {
        manga_statement(sql::FIND_CHAPTER_INFORMATIONS, manga_id)
    }

    /// The cached descriptions of the chapters of a manga.
    pub fn find_cached_chapter_informations(&self, rows: Vec<ChapterInformationsRow>) -> (r: Vec<
        ChapterInformation,
    >)
        ensures
            r@.len() == rows@.len(),
            forall|i: int| 0 <= i < r@.len() ==> rows@[i].says(#[trigger] r@[i]),
    {
        let mut r: Vec<ChapterInformation> = Vec::new();
        for row in it: rows
            invariant
                it.seq() == rows@,
                r@.len() == it.index(),
                forall|i: int| 0 <= i < r@.len() ==> rows@[i].says(#[trigger] r@[i]),
        {
            r.push(row.information());
        }
        r
    }

    /// Asks for the cached details of a manga.
    pub fn find_cached_manga_details_statement(&self, manga_id: &MangaId) -> (r: Statement)
        ensures
            r.is(sql::FIND_MANGA_DETAILS@, manga_binds(manga_id@)),
            forall|store: Store, row: Option<MangaDetailsRow>| #[trigger]
                answers_details(r@, store, row) ==> {
                    &&& row is Some <==> store.details.dom().contains(manga_id@)
                    &&& row matches Some(row) ==> (row.source_id@, row.id@) == manga_id@
                        && row.last_read == Some(or_else(last_read_of(store, manga_id@), 0) as i64)
                },
    {
        manga_statement(sql::FIND_MANGA_DETAILS, manga_id)
    }

    /// The cached details of a manga, where there are any, and which part of its
    /// chapters has been read.
    pub fn find_cached_manga_details(&self, row: Option<MangaDetailsRow>) -> (r: Option<
        (Manga, String),
    >)
        requires
            row matches Some(row) ==> row.readable(),
        ensures
            match row {
                Some(row) => r matches Some(found) && row.says(found.0) && found.1@
                    == crate::rows::text_or(row.per_read, "0"@),
                None => r is None,
            },
    {
        match row {
            Some(row) => {
                let per_read = match &row.per_read {
                    Some(part) => part.clone(),
                    None => "0".to_owned(),
                };
                Some((row.details(), per_read))
            },
            None => None,
        }
    }

    /// The cached details of a manga, where there are any, and an error where they
    /// cannot be read.
    pub fn find_readable_manga_details(&self, row: Option<MangaDetailsRow>) -> (r: Result<
        Option<(Manga, String)>,
        UnreadableRow,
    >)
        ensures
            match row {
                Some(row) => match r {
                    Ok(found) => row.readable() && (found matches Some(found) && row.says(found.0)
                        && found.1@ == crate::rows::text_or(row.per_read, "0"@)),
                    Err(_) => !row.readable(),
                },
                None => r matches Ok(found) && found is None,
            },
    {
        let readable = match &row {
            Some(row) => row.is_readable(),
            None => true,
        };
        if readable {
            Ok(self.find_cached_manga_details(row))
        } else {
            Err(UnreadableRow)
        }
    }

    /// Asks what the reader has settled for a manga.
    pub fn find_manga_state_statement(&self, manga_id: &MangaId) -> (r: Statement)
        ensures
            r.is(sql::FIND_MANGA_STATE@, manga_binds(manga_id@)),
            forall|store: Store, row: Option<MangaStateRow>| #[trigger]
                answers_manga_state(r@, store, row) ==> {
                    &&& row is Some <==> store.preferred.dom().contains(manga_id@)
                    &&& row matches Some(row) ==> optional_text(row.preferred_scanlator)
                        == store.preferred[manga_id@]
                },
    {
        manga_statement(sql::FIND_MANGA_STATE, manga_id)
    }

    /// What the reader has settled for a manga, where it is anything.
    pub fn find_manga_state(&self, row: Option<MangaStateRow>) -> (r: Option<MangaState>)
        ensures
            match row {
                Some(row) => r matches Some(state) && state.preferred_scanlator
                    == row.preferred_scanlator,
                None => r is None,
            },
    {
        match row {
            Some(row) => Some(row.state()),
            None => None,
        }
    }

    /// Writes what the reader has settled for a manga.
    pub fn upsert_manga_state(&self, manga_id: &MangaId, state: &MangaState) -> (r: Statement)
        ensures
            r.is(
                sql::UPSERT_MANGA_STATE@,
                manga_binds(manga_id@).push(
                    BindView::OptionalText(optional_text(state.preferred_scanlator)),
                ),
            ),
            forall|before: Store, after: Store| #[trigger]
                changes(r@, before, after) ==> after == (Store {
                    preferred: before.preferred.insert(
                        manga_id@,
                        optional_text(state.preferred_scanlator),
                    ),
                    ..before
                }),
    {
        let mut binds = no_binds();
        bind_manga(&mut binds, manga_id);
        bind_optional_text(&mut binds, &state.preferred_scanlator);
        assert(bind_views(binds@) =~= manga_binds(manga_id@).push(
            BindView::OptionalText(optional_text(state.preferred_scanlator)),
        ));
        statement(sql::UPSERT_MANGA_STATE, binds)
    }

    /// Asks what the reader has done with a chapter.
    pub fn find_chapter_state_statement(&self, chapter_id: &ChapterId) -> (r: Statement)
        ensures
            r.is(sql::FIND_CHAPTER_STATE@, chapter_binds(chapter_id@)),
            forall|store: Store, row: Option<ChapterStateRow>| #[trigger]
                answers_chapter_state(r@, store, row) ==> {
                    &&& row is Some <==> store.states.dom().contains(chapter_id@)
                    &&& row matches Some(row) ==> store.states[chapter_id@] == (ChapterState {
                        read: row.read,
                        last_read: row.last_read,
                    })
                },
    {
        chapter_statement(sql::FIND_CHAPTER_STATE, chapter_id)
    }

    /// What the reader has done with a chapter, where it is anything.
    pub fn find_chapter_state(&self, row: &Option<ChapterStateRow>) -> (r: Option<ChapterState>)
        ensures
            match row {
                Some(row) => r == Some(
                    ChapterState { read: row.read, last_read: row.last_read },
                ),
                None => r is None,
            },
    {
        match row {
            Some(row) => Some(row.state()),
            None => None,
        }
    }

    /// Asks what the reader has done with the chapters of a manga.
    pub fn find_chapter_states_for_manga_statement(&self, manga_id: &MangaId) -> (r: Statement)
        ensures
            r.is(sql::FIND_CHAPTER_STATES@, manga_binds(manga_id@)),
            forall|store: Store, rows: Seq<ChapterStateRow>, id: Seq<char>|
                #![trigger answers_chapter_states(r@, store, rows), states_of_rows(rows).dom().contains(id)]
                answers_chapter_states(r@, store, rows) ==> {
                    let chapter = (manga_id@.0, manga_id@.1, id);
                    &&& states_of_rows(rows).dom().contains(id) <==> store.states.dom().contains(
                        chapter,
                    )
                    &&& states_of_rows(rows).dom().contains(id) ==> states_of_rows(rows)[id]
                        == store.states[chapter]
                },
    {
        let r = manga_statement(sql::FIND_CHAPTER_STATES, manga_id);
        assert forall|store: Store, rows: Seq<ChapterStateRow>, id: Seq<char>|
            #![trigger answers_chapter_states(r@, store, rows), states_of_rows(rows).dom().contains(id)]
            answers_chapter_states(r@, store, rows) implies {
            let chapter = (manga_id@.0, manga_id@.1, id);
            &&& states_of_rows(rows).dom().contains(id) <==> store.states.dom().contains(chapter)
            &&& states_of_rows(rows).dom().contains(id) ==> states_of_rows(rows)[id]
                == store.states[chapter]
        } by {
            if exists|k: int| 0 <= k < rows.len() && #[trigger] rows[k].chapter_id@ == id {
                let k = choose|k: int| 0 <= k < rows.len() && #[trigger] rows[k].chapter_id@ == id;
                lemma_last_row_is_the_state(rows, k, id);
                assert(is_state_row(store, rows[k]));
            } else {
                lemma_last_row_is_the_state(rows, -1, id);
            }
        }
        r
    }

    /// What the reader has done with the chapters of a manga, by their ids.
    pub fn find_chapter_states_for_manga(&self, rows: &Vec<ChapterStateRow>) -> (r: ListMap<
        String,
        ChapterState,
    >)
        ensures
            r.wf(),
            r@ == states_of_rows(rows@),
    {
        let mut map: ListMap<String, ChapterState> = ListMap::new();
        let mut i: usize = 0;
        while i < rows.len()
            invariant
                i <= rows.len(),
                map.wf(),
                map@ == states_of_rows(rows@.take(i as int)),
            decreases rows.len() - i,
        {
            map.insert(rows[i].chapter_id.clone(), rows[i].state());
            i += 1;
            assert(rows@.take(i as int).drop_last() =~= rows@.take(i - 1));
        }
        assert(rows@.take(i as int) =~= rows@);
        map
    }

    /// Writes what the reader has done with a chapter.
    pub fn upsert_chapter_state(&self, chapter_id: &ChapterId, state: ChapterState) -> (r:
        Statement)
        ensures
            r.is(
                sql::UPSERT_CHAPTER_STATE@,
                chapter_binds(chapter_id@) + seq![
                    BindView::Boolean(state.read),
                    BindView::OptionalInteger(state.last_read),
                ],
            ),
            forall|before: Store, after: Store| #[trigger]
                changes(r@, before, after) ==> after == (Store {
                    states: before.states.insert(chapter_id@, state),
                    ..before
                }),
    {
        let mut binds = no_binds();
        bind_chapter(&mut binds, chapter_id);
        bind_boolean(&mut binds, state.read);
        bind_optional_integer(&mut binds, state.last_read);
        assert(bind_views(binds@) =~= chapter_binds(chapter_id@) + seq![
            BindView::Boolean(state.read),
            BindView::OptionalInteger(state.last_read),
        ]);
        statement(sql::UPSERT_CHAPTER_STATE, binds)
    }

    /// Marks a chapter as read at a time, or as unread.
    pub fn mark_chapter_as_read_at(&self, id: &ChapterId, value: Option<bool>, now: i64) -> (r:
        Statement)
        ensures
            r.is(sql::MARK_CHAPTER_AS_READ@, mark_binds(id@, value, now)),
            forall|before: Store, after: Store| #[trigger]
                changes(r@, before, after) ==> after == (Store {
                    states: before.states.insert(
                        id@,
                        ChapterState {
                            read: value != Some(false),
                            last_read: if value != Some(false) {
                                Some(now)
                            } else {
                                None
                            },
                        },
                    ),
                    ..before
                }),
    {
        let value = match value {
            Some(v) => v,
            None => true,
        };
        let mut binds = no_binds();
        bind_chapter(&mut binds, id);
        bind_boolean(&mut binds, value);
        bind_optional_integer(
            &mut binds,
            if value {
                Some(now)
            } else {
                None
            },
        );
        assert(bind_views(binds@) =~= mark_binds(id@, Some(value), now));
        statement(sql::MARK_CHAPTER_AS_READ, binds)
    }

    /// Marks a chapter as read now, or as unread.
    pub fn mark_chapter_as_read(&self, id: &ChapterId, value: Option<bool>) -> (r: Statement)
        ensures
            exists|now: i64| r.is(sql::MARK_CHAPTER_AS_READ@, #[trigger] mark_binds(id@, value, now)),
    {
        let now: i64 = seconds_now();
        self.mark_chapter_as_read_at(id, value, now)
    }

    /// Notes that a chapter was opened at a time.
    pub fn update_last_read_chapter_at(&self, id: &ChapterId, now: i64) -> (r: Statement)
        ensures
            r.is(
                sql::UPDATE_LAST_READ_CHAPTER@,
                chapter_binds(id@).push(BindView::Integer(now)),
            ),
            forall|before: Store, after: Store| #[trigger]
                changes(r@, before, after) ==> after == (Store {
                    states: before.states.insert(
                        id@,
                        ChapterState {
                            read: before.states.dom().contains(id@) && before.states[id@].read,
                            last_read: Some(now),
                        },
                    ),
                    ..before
                }),
    {
        let mut binds = no_binds();
        bind_chapter(&mut binds, id);
        bind_integer(&mut binds, now);
        assert(bind_views(binds@) =~= chapter_binds(id@).push(BindView::Integer(now)));
        statement(sql::UPDATE_LAST_READ_CHAPTER, binds)
    }

    /// Notes that a chapter is opened now.
    pub fn update_last_read_chapter(&self, id: &ChapterId) -> (r: Statement)
        ensures
            exists|now: i64|
                r.is(
                    sql::UPDATE_LAST_READ_CHAPTER@,
                    #[trigger] chapter_binds(id@).push(BindView::Integer(now)),
                ),
    {
        let now: i64 = seconds_now();
        self.update_last_read_chapter_at(id, now)
    }

    /// Asks when a manga was last checked for chapters and when it is due again.
    pub fn get_last_check_update_manga(&self, id: &MangaId) -> (r: Statement)
        ensures
            r.is(sql::FIND_LAST_CHECK@, manga_binds(id@)),
            forall|store: Store, row: Option<(i64, i64)>| #[trigger]
                answers_check(r@, store, row) ==> {
                    &&& row is Some <==> store.checks.dom().contains(id@)
                    &&& row matches Some(row) ==> store.checks[id@] == (Check {
                        last: row.0,
                        next: row.1,
                    })
                },
    {
        manga_statement(sql::FIND_LAST_CHECK, id)
    }

    /// Writes when a manga was last checked for chapters and when it is due again.
    pub fn set_last_check_update_manga(&self, id: &MangaId, value: i64, next_ts_arima: i64) -> (r:
        Statement)
        ensures
            r.is(
                sql::SET_LAST_CHECK@,
                manga_binds(id@) + seq![
                    BindView::Integer(value),
                    BindView::Integer(next_ts_arima),
                ],
            ),
            forall|before: Store, after: Store| #[trigger]
                changes(r@, before, after) ==> after == (Store {
                    checks: before.checks.insert(
                        id@,
                        Check { last: value, next: next_ts_arima },
                    ),
                    ..before
                }),
    {
        let mut binds = no_binds();
        bind_manga(&mut binds, id);
        bind_integer(&mut binds, value);
        bind_integer(&mut binds, next_ts_arima);
        assert(bind_views(binds@) =~= manga_binds(id@) + seq![
            BindView::Integer(value),
            BindView::Integer(next_ts_arima),
        ]);
        statement(sql::SET_LAST_CHECK, binds)
    }

    /// Forgets when a manga was last checked for chapters.
    pub fn delete_last_check_update_manga(&self, id: &MangaId) -> (r: Statement)
        ensures
            r.is(sql::DELETE_LAST_CHECK@, manga_binds(id@)),
            forall|before: Store, after: Store| #[trigger]
                changes(r@, before, after) ==> after == (Store {
                    checks: before.checks.remove(id@),
                    ..before
                }),
    {
        manga_statement(sql::DELETE_LAST_CHECK, id)
    }

    /// Writes a notification for each new chapter of a manga, at a time. For no
    /// chapters nothing is written.
    pub fn insert_notification_at(
        &self,
        manga_id: &MangaId,
        new_chapters: &Vec<ChapterInformation>,
        now: i64,
    ) -> (r: Option<Statement>)
        ensures
            match r {
                Some(s) => new_chapters@.len() > 0 && s.is(
                    sql::INSERT_NOTIFICATIONS@ + placeholder_rows(new_chapters@.len(), 4),
                    notification_binds(manga_id@, new_chapters@, now),
                ),
                None => new_chapters@.len() == 0,
            },
            r matches Some(s) ==> forall|before: Store, after: Store| #[trigger]
                changes(s@, before, after) ==> forall|n: int|
                    0 <= n < new_chapters@.len() ==> notified(
                        before,
                        after,
                        (manga_id@.0, manga_id@.1, (#[trigger] new_chapters@[n]).id@.2),
                        now,
                    ),
    {
        if new_chapters.len() == 0 {
            return None;
        }
        let rows = write_placeholder_rows(new_chapters.len(), 4);
        let mut binds = no_binds();
        let mut i: usize = 0;
        while i < new_chapters.len()
            invariant
                i <= new_chapters.len(),
                bind_views(binds@) == notification_binds(
                    manga_id@,
                    new_chapters@.take(i as int),
                    now,
                ),
            decreases new_chapters.len() - i,
        {
            bind_manga(&mut binds, manga_id);
            bind_text(&mut binds, new_chapters[i].id.value().as_str());
            bind_integer(&mut binds, now);
            i += 1;
            assert(new_chapters@.take(i as int).drop_last() =~= new_chapters@.take(i - 1));
            assert(bind_views(binds@) =~= notification_binds(
                manga_id@,
                new_chapters@.take(i as int),
                now,
            ));
        }
        assert(new_chapters@.take(i as int) =~= new_chapters@);
        let mut text = sql::INSERT_NOTIFICATIONS.to_owned();
        text.append(rows.as_str());
        let r = Statement { sql: text, binds };
        assert forall|before: Store, after: Store| #[trigger]
            changes(r@, before, after) implies forall|n: int|
            0 <= n < new_chapters@.len() ==> notified(
                before,
                after,
                (manga_id@.0, manga_id@.1, (#[trigger] new_chapters@[n]).id@.2),
                now,
            ) by {
            let all = notification_binds(manga_id@, new_chapters@, now);
            assert forall|n: int| 0 <= n < new_chapters@.len() implies notified(
                before,
                after,
                (manga_id@.0, manga_id@.1, (#[trigger] new_chapters@[n]).id@.2),
                now,
            ) by {
                lemma_every_chapter_is_notified(manga_id@, new_chapters@, now, n);
                assert(bound_chapter(all, 4 * n) == (
                    manga_id@.0,
                    manga_id@.1,
                    new_chapters@[n].id@.2,
                ));
            }
        }
        Some(r)
    }

    /// Writes a notification for each new chapter of a manga, now.
    pub fn insert_notification(
        &self,
        manga_id: &MangaId,
        new_chapters: &Vec<ChapterInformation>,
    ) -> (r: Option<Statement>)
        ensures
            match r {
                Some(s) => new_chapters@.len() > 0 && exists|now: i64|
                    s.is(
                        sql::INSERT_NOTIFICATIONS@ + placeholder_rows(new_chapters@.len(), 4),
                        #[trigger] notification_binds(manga_id@, new_chapters@, now),
                    ),
                None => new_chapters@.len() == 0,
            },
    {
        let now: i64 = seconds_now();
        self.insert_notification_at(manga_id, new_chapters, now)
    }

    /// Asks for the manga that is to be checked next, without those of some sources.
    pub fn get_next_ts_arima_min_statement(&self, skip_sources: &Vec<String>) -> (r: Statement)
        ensures
            r.is(
                sql::NEXT_CHECK_HEAD@ + skip_condition(skip_sources@.len()) + sql::NEXT_CHECK_TAIL@,
                text_binds(texts(skip_sources@)),
            ),
            forall|store: Store, row: Option<NextCheckRow>| #[trigger]
                answers_next_check(r@, store, row) ==> match row {
                    Some(row) => {
                        let id = (row.source_id@, row.manga_id@);
                        &&& store.checks.dom().contains(id)
                        &&& !texts(skip_sources@).contains(id.0)
                        &&& store.checks[id].next == row.next_ts_arima
                        &&& forall|other: (Seq<char>, Seq<char>)| #[trigger]
                            store.checks.dom().contains(other) && !texts(skip_sources@).contains(
                                other.0,
                            ) ==> row.next_ts_arima <= store.checks[other].next
                    },
                    None => forall|other: (Seq<char>, Seq<char>)| #[trigger]
                        store.checks.dom().contains(other) ==> texts(skip_sources@).contains(
                            other.0,
                        ),
                },
    {
        let n: usize = skip_sources.len();
        let condition = if n == 0 {
            "".to_owned()
        } else {
            let marks = repeat_separated("?", ",", n);
            concat3(sql::NEXT_CHECK_SKIP, marks.as_str(), ")")
        };
        let mut binds = no_binds();
        let mut i: usize = 0;
        while i < n
            invariant
                n == skip_sources.len(),
                i <= n,
                bind_views(binds@) == text_binds(texts(skip_sources@.take(i as int))),
            decreases n - i,
        {
            bind_text(&mut binds, skip_sources[i].as_str());
            i += 1;
            assert(bind_views(binds@) =~= text_binds(texts(skip_sources@.take(i as int))));
        }
        assert(skip_sources@.take(i as int) =~= skip_sources@);
        let r = Statement {
            sql: concat3(sql::NEXT_CHECK_HEAD, condition.as_str(), sql::NEXT_CHECK_TAIL),
            binds,
        };
        proof {
            let skipped = texts(skip_sources@);
            assert(repeated("?"@, ","@, n as nat) == repeated("?"@, ","@, n as nat));
            assert forall|source: Seq<char>| #[trigger]
                text_binds(skipped).contains(BindView::Text(source)) <==> skipped.contains(
                    source,
                ) by {
                lemma_text_is_bound(skipped, source);
            }
        }
        r
    }

    /// The manga that is to be checked next, and when, where there is one.
    pub fn get_next_ts_arima_min(&self, row: Option<NextCheckRow>) -> (r: Option<(MangaId, i64)>)
        ensures
            match row {
                Some(row) => r matches Some(next) && next.0@ == (row.source_id@, row.manga_id@)
                    && next.1 == row.next_ts_arima,
                None => r is None,
            },
    {
        match row {
            Some(row) => Some(
                (MangaId::from_strings(row.source_id, row.manga_id), row.next_ts_arima),
            ),
            None => None,
        }
    }

    /// Asks for the mangas that are due for a check at a time.
    pub fn get_due_mangas_statement_at(&self, now: i64) -> (r: Statement)
        ensures
            r.is(sql::DUE_MANGAS@, time_binds(now)),
            forall|store: Store, rows: Seq<StatusRow>, i: int|
                #![trigger answers_status(r@, store, rows), rows[i]]
                answers_status(r@, store, rows) && 0 <= i < rows.len() ==> {
                    let id = (rows[i].source_id@, rows[i].manga_id@);
                    &&& store.checks.dom().contains(id)
                    &&& store.checks[id].next <= now
                },
            forall|store: Store, rows: Seq<StatusRow>, id: (Seq<char>, Seq<char>)|
                #![trigger answers_status(r@, store, rows), store.checks[id]]
                answers_status(r@, store, rows) && store.checks.dom().contains(id)
                    && store.checks[id].next <= now ==> exists|i: int|
                    0 <= i < rows.len() && (#[trigger] rows[i]).source_id@ == id.0
                        && rows[i].manga_id@ == id.1,
    {
        let mut binds = no_binds();
        bind_integer(&mut binds, now);
        assert(bind_views(binds@) =~= time_binds(now));
        let r = statement(sql::DUE_MANGAS, binds);
        assert forall|store: Store, rows: Seq<StatusRow>, i: int|
            #![trigger answers_status(r@, store, rows), rows[i]]
            answers_status(r@, store, rows) && 0 <= i < rows.len() implies due_at(
            store,
            now,
        ).contains((rows[i].source_id@, rows[i].manga_id@)) by {
            assert(tell_status(store, due_at(store, now), rows));
            assert(rows[i].source_id@ == rows[i].source_id@);
        }
        assert forall|store: Store, rows: Seq<StatusRow>, id: (Seq<char>, Seq<char>)|
            #![trigger answers_status(r@, store, rows), store.checks[id]]
            answers_status(r@, store, rows) && store.checks.dom().contains(id)
                && store.checks[id].next <= now implies exists|i: int|
            0 <= i < rows.len() && (#[trigger] rows[i]).source_id@ == id.0 && rows[i].manga_id@
                == id.1 by {
            assert(tell_status(store, due_at(store, now), rows));
            assert(due_at(store, now).contains(id));
        }
        r
    }

    /// Asks for the mangas that are due for a check now.
    pub fn get_due_mangas_statement(&self) -> (r: Statement)
        ensures
            exists|now: i64| r.is(sql::DUE_MANGAS@, #[trigger] time_binds(now)),
    {
        let now: i64 = seconds_now();
        self.get_due_mangas_statement_at(now)
    }

    /// The mangas that are due for a check, and how far each has come out.
    pub fn get_due_mangas(&self, rows: Vec<StatusRow>) -> (r: Vec<(MangaId, PublishingStatus)>)
        ensures
            say_status(rows@, r@),
    {
        read_status(rows)
    }

    /// Asks for the number of unread notifications.
    pub fn get_count_notifications(&self) -> (r: Statement)
        ensures
            r.is(sql::COUNT_NOTIFICATIONS@, Seq::empty()),
            forall|store: Store, count: int| #[trigger]
                answers_notification_count(r@, store, count) ==> count
                    == store.notifications.dom().len(),
    {
        statement(sql::COUNT_NOTIFICATIONS, no_binds())
    }

    /// Asks for the unread notifications, the latest first.
    pub fn get_notifications_statement(&self) -> (r: Statement)
        ensures
            r.is(sql::FIND_NOTIFICATIONS@, Seq::empty()),
            forall|store: Store, rows: Seq<NotificationInformationRow>, i: int, j: int|
                #![trigger answers_notifications(r@, store, rows), rows[i], rows[j]]
                answers_notifications(r@, store, rows) && 0 <= i < j < rows.len()
                    ==> rows[i].created_at >= rows[j].created_at && store.notifications.dom().contains(
                    rows[i].id,
                ) && store.notifications.dom().contains(rows[j].id),
    {
        statement(sql::FIND_NOTIFICATIONS, no_binds())
    }

    /// The unread notifications.
    pub fn get_notifications(&self, rows: Vec<NotificationInformationRow>) -> (r: Vec<
        NotificationInformation,
    >)
        ensures
            r@.len() == rows@.len(),
            forall|i: int| 0 <= i < r@.len() ==> rows@[i].says(#[trigger] r@[i]),
            forall|i: int|
                0 <= i < r@.len() ==> {
                    &&& (#[trigger] r@[i]).id == rows@[i].id
                    &&& r@[i].chapter_id@ == (
                        rows@[i].source_id@,
                        rows@[i].manga_id@,
                        rows@[i].chapter_id@,
                    )
                    &&& rows@[i].manga_title matches Some(t) ==> r@[i].manga_title@ == t@
                    &&& rows@[i].manga_title is None ==> r@[i].manga_title@ == "Unknown"@
                    &&& rows@[i].chapter_title matches Some(t) ==> r@[i].chapter_title@ == t@
                    &&& rows@[i].chapter_title is None ==> r@[i].chapter_title@ == "Unknown"@
                    &&& rows@[i].chapter_number matches Some(t) ==> r@[i].chapter_number@ == t@
                    &&& rows@[i].chapter_number is None ==> r@[i].chapter_number@ == "-1"@
                    &&& r@[i].manga_status == rows@[i].manga_status
                    &&& r@[i].created_at == rows@[i].created_at
                },
    {
        let mut r: Vec<NotificationInformation> = Vec::new();
        for row in it: rows
            invariant
                it.seq() == rows@,
                r@.len() == it.index(),
                forall|i: int| 0 <= i < r@.len() ==> rows@[i].says(#[trigger] r@[i]),
        {
            r.push(row.information());
        }
        r
    }

    /// Deletes a notification.
    pub fn delete_notification(&self, id: i32) -> (r: Statement)
        ensures
            r.is(sql::DELETE_NOTIFICATION@, seq![BindView::Integer(id as i64)]),
            forall|before: Store, after: Store| #[trigger]
                changes(r@, before, after) ==> after == (Store {
                    notifications: before.notifications.remove(id as i64),
                    ..before
                }),
    {
        let mut binds = no_binds();
        bind_integer(&mut binds, id as i64);
        assert(bind_views(binds@) =~= seq![BindView::Integer(id as i64)]);
        statement(sql::DELETE_NOTIFICATION, binds)
    }

    /// Deletes all notifications.
    pub fn clear_notifications(&self) -> (r: Statement)
        ensures
            r.is(sql::CLEAR_NOTIFICATIONS@, Seq::empty()),
            forall|before: Store, after: Store| #[trigger]
                changes(r@, before, after) ==> after == (Store {
                    notifications: Map::empty(),
                    ..before
                }),
    {
        statement(sql::CLEAR_NOTIFICATIONS, no_binds())
    }

    /// Marks chapters of a manga as read or as unread, and then asks what is settled for
    /// the manga, with which its unread chapters are counted. For no chapters nothing is
    /// written, and the unread ones are counted all the same.
    pub fn set_chapters_read_state(&self, manga_id: &MangaId, ids: &Vec<ChapterId>, read: bool) -> (
    r: ReadStateChange)
        ensures
            r.marks(manga_id@, chapter_ids(ids@), read),
            r.write is Some <==> ids@.len() > 0,
            forall|store: Store, row: Option<MangaStateRow>| #[trigger]
                answers_manga_state(r.find_manga_state@, store, row) ==> {
                    &&& row is Some <==> store.preferred.dom().contains(manga_id@)
                    &&& row matches Some(row) ==> optional_text(row.preferred_scanlator)
                        == store.preferred[manga_id@]
                },
            r.write matches Some(s) ==> forall|before: Store, after: Store| #[trigger]
                changes(s@, before, after) ==> after == (Store {
                    states: states_marked(before.states, read_state_binds(chapter_ids(ids@), read)),
                    ..before
                }),
    {
        let find_manga_state = self.find_manga_state_statement(manga_id);
        if ids.len() == 0 {
            return ReadStateChange { write: None, find_manga_state };
        }
        let rows = write_placeholder_rows(ids.len(), 4);
        let mut binds = no_binds();
        let mut i: usize = 0;
        let ghost views = chapter_ids(ids@);
        while i < ids.len()
            invariant
                i <= ids.len(),
                views == chapter_ids(ids@),
                bind_views(binds@) == read_state_binds(views.take(i as int), read),
            decreases ids.len() - i,
        {
            bind_chapter(&mut binds, &ids[i]);
            bind_boolean(&mut binds, read);
            i += 1;
            assert(views.take(i as int).drop_last() =~= views.take(i - 1));
            assert(bind_views(binds@) =~= read_state_binds(views.take(i as int), read));
        }
        assert(views.take(i as int) =~= views);
        let write = Statement {
            sql: concat3(sql::SET_READ_STATE_HEAD, rows.as_str(), sql::SET_READ_STATE_TAIL),
            binds,
        };
        ReadStateChange { write: Some(write), find_manga_state }
    }

    /// Asks for the playlists.
    pub fn get_playlists(&self) -> (r: Statement)
        ensures
            r.is(sql::FIND_PLAYLISTS@, Seq::empty()),
            forall|store: Store, rows: Seq<Playlist>| #[trigger]
                answers_playlists(r@, store, rows) ==> {
                    &&& forall|i: int|
                        0 <= i < rows.len() ==> store.playlists.dom().contains(
                            (#[trigger] rows[i]).id,
                        ) && store.playlists[rows[i].id] == rows[i].name@
                    &&& forall|id: i64| #[trigger]
                        store.playlists.dom().contains(id) ==> exists|i: int|
                            0 <= i < rows.len() && (#[trigger] rows[i]).id == id
                },
    {
        statement(sql::FIND_PLAYLISTS, no_binds())
    }

    /// Creates a playlist, and asks for its id.
    pub fn create_playlist_statement(&self, name: &String) -> (r: Statement)
        ensures
            r.is(sql::CREATE_PLAYLIST@, seq![BindView::Text(name@)]),
            forall|before: Store, after: Store, id: i64| #[trigger]
                creates_playlist(r@, before, after, id) ==> !before.playlists.dom().contains(id)
                    && after == (Store { playlists: before.playlists.insert(id, name@), ..before }),
    {
        let mut binds = no_binds();
        bind_text(&mut binds, name.as_str());
        assert(bind_views(binds@) =~= seq![BindView::Text(name@)]);
        statement(sql::CREATE_PLAYLIST, binds)
    }

    /// The playlist that was created.
    pub fn create_playlist(&self, name: String, id: i64) -> (r: Playlist)
        ensures
            r.id == id,
            r.name == name,
    {
        Playlist { id, name }
    }

    /// Deletes a playlist.
    pub fn delete_playlist(&self, id: i64) -> (r: Statement)
        ensures
            r.is(sql::DELETE_PLAYLIST@, seq![BindView::Integer(id)]),
            forall|before: Store, after: Store| #[trigger]
                changes(r@, before, after) ==> after.playlists == before.playlists.remove(id),
    {
        let mut binds = no_binds();
        bind_integer(&mut binds, id);
        assert(bind_views(binds@) =~= seq![BindView::Integer(id)]);
        statement(sql::DELETE_PLAYLIST, binds)
    }

    /// Renames a playlist.
    pub fn rename_playlist(&self, id: i64, name: &String) -> (r: Statement)
        ensures
            r.is(sql::RENAME_PLAYLIST@, seq![BindView::Text(name@), BindView::Integer(id)]),
            forall|before: Store, after: Store| #[trigger]
                changes(r@, before, after) ==> (before.playlists.dom().contains(id) ==> after
                    == (Store { playlists: before.playlists.insert(id, name@), ..before })),
    {
        let mut binds = no_binds();
        bind_text(&mut binds, name.as_str());
        bind_integer(&mut binds, id);
        assert(bind_views(binds@) =~= seq![BindView::Text(name@), BindView::Integer(id)]);
        statement(sql::RENAME_PLAYLIST, binds)
    }

    /// Puts a manga into a playlist.
    pub fn add_manga_to_playlist(&self, playlist_id: i64, manga_id: &MangaId) -> (r: Statement)
        ensures
            r.is(
                sql::ADD_MANGA_TO_PLAYLIST@,
                seq![BindView::Integer(playlist_id)] + manga_binds(manga_id@),
            ),
            forall|before: Store, after: Store| #[trigger]
                changes(r@, before, after) ==> after == (Store {
                    members: before.members.insert((playlist_id, manga_id@)),
                    ..before
                }),
    {
        let mut binds = no_binds();
        bind_integer(&mut binds, playlist_id);
        bind_manga(&mut binds, manga_id);
        assert(bind_views(binds@) =~= seq![BindView::Integer(playlist_id)] + manga_binds(
            manga_id@,
        ));
        statement(sql::ADD_MANGA_TO_PLAYLIST, binds)
    }

    /// Takes a manga out of a playlist.
    pub fn remove_manga_from_playlist(&self, playlist_id: i64, manga_id: &MangaId) -> (r: Statement)
        ensures
            r.is(
                sql::REMOVE_MANGA_FROM_PLAYLIST@,
                seq![BindView::Integer(playlist_id)] + manga_binds(manga_id@),
            ),
            forall|before: Store, after: Store| #[trigger]
                changes(r@, before, after) ==> after == (Store {
                    members: before.members.remove((playlist_id, manga_id@)),
                    ..before
                }),
    {
        let mut binds = no_binds();
        bind_integer(&mut binds, playlist_id);
        bind_manga(&mut binds, manga_id);
        assert(bind_views(binds@) =~= seq![BindView::Integer(playlist_id)] + manga_binds(
            manga_id@,
        ));
        statement(sql::REMOVE_MANGA_FROM_PLAYLIST, binds)
    }
}

/// Says whether a list holds the id of a chapter.
pub fn contains_chapter(list: &Vec<ChapterId>, id: &ChapterId) -> (r: bool)
    ensures
        r == chapter_ids(list@).contains(id@),
{
    let mut i: usize = 0;
    while i < list.len()
        invariant
            i <= list.len(),
            forall|j: int| 0 <= j < i ==> (#[trigger] list@[j])@ != id@,
        decreases list.len() - i,
    {
        if list[i].same(id) {
            assert(chapter_ids(list@)[i as int] == id@);
            return true;
        }
        i += 1;
    }
    proof {
        if chapter_ids(list@).contains(id@) {
            let k = choose|k: int| 0 <= k < chapter_ids(list@).len() && chapter_ids(list@)[k] == id@;
            assert(list@[k]@ == id@);
        }
    }
    false
}

/// Every manga that was asked for has an entry, and what a row says of a manga is not
/// changed by it.
pub proof fn lemma_every_manga_has_counts(
    counts: Map<(Seq<char>, Seq<char>), UnreadCounts>,
    ids: Seq<(Seq<char>, Seq<char>)>,
    id: (Seq<char>, Seq<char>),
)
    ensures
        ids.contains(id) ==> with_absent(counts, ids).dom().contains(id),
        counts.dom().contains(id) ==> with_absent(counts, ids)[id] == counts[id],
        !counts.dom().contains(id) && ids.contains(id) ==> with_absent(counts, ids)[id] == (
            None::<usize>,
            None::<i64>,
            false,
        ),
{
}

/// Every chapter that is marked is written, with the mark, and nothing else is.
pub proof fn lemma_every_chapter_is_marked(
    ids: Seq<(Seq<char>, Seq<char>, Seq<char>)>,
    read: bool,
    n: int,
)
    requires
        0 <= n < ids.len(),
    ensures
        read_state_binds(ids, read).len() == 4 * ids.len(),
        read_state_binds(ids, read).subrange(4 * n, 4 * n + 4) == chapter_binds(ids[n]).push(
            BindView::Boolean(read),
        ),
    decreases ids.len(),
{
    let front = ids.drop_last();
    let binds = read_state_binds(ids, read);
    if n < front.len() {
        lemma_every_chapter_is_marked(front, read, n);
        assert(binds.subrange(4 * n, 4 * n + 4) =~= read_state_binds(front, read).subrange(
            4 * n,
            4 * n + 4,
        ));
    } else {
        if front.len() > 0 {
            lemma_every_chapter_is_marked(front, read, n - 1);
        } else {
            assert(read_state_binds(front, read).len() == 0);
        }
        assert(binds.subrange(4 * n, 4 * n + 4) =~= chapter_binds(ids[n]).push(
            BindView::Boolean(read),
        ));
    }
}

/// The last of the rows for a manga tells how many of its chapters are unread, when one
/// was last read, and whether it is in the library.
pub proof fn lemma_last_row_counts(
    rows: Seq<UnreadChaptersRowFull>,
    ids: Seq<(Seq<char>, Seq<char>)>,
    k: int,
)
    requires
        0 <= k < rows.len(),
        forall|j: int|
            k < j < rows.len() ==> (#[trigger] rows[j]).source_id@ != rows[k].source_id@
                || rows[j].manga_id@ != rows[k].manga_id@,
    ensures
        ({
            let id = (rows[k].source_id@, rows[k].manga_id@);
            let counts = with_absent(counts_of_rows(rows), ids);
            &&& counts.dom().contains(id)
            &&& rows[k].count matches Some(n) ==> (0 <= n ==> counts[id].0 == Some(n as usize))
            &&& rows[k].count is None ==> counts[id].0 is None
            &&& rows[k].last_time matches Some(t) ==> counts[id].1 == Some(t as i64)
            &&& rows[k].last_time is None ==> counts[id].1 is None
            &&& counts[id].2 == rows[k].in_library
        }),
    decreases rows.len(),
{
    let front = rows.drop_last();
    if k < rows.len() - 1 {
        assert forall|j: int| k < j < front.len() implies (#[trigger] front[j]).source_id@
            != front[k].source_id@ || front[j].manga_id@ != front[k].manga_id@ by {
            assert(rows[j] == front[j]);
        }
        lemma_last_row_counts(front, ids, k);
        assert(rows[rows.len() - 1].source_id@ != rows[k].source_id@ || rows[rows.len()
            - 1].manga_id@ != rows[k].manga_id@);
    }
}

/// A manga that was asked for and has no row has an entry that says nothing: no number, no
/// time, and that it is not in the library. A manga that was not asked for and has no row
/// has no entry.
pub proof fn lemma_manga_without_row_says_nothing(
    rows: Seq<UnreadChaptersRowFull>,
    ids: Seq<(Seq<char>, Seq<char>)>,
    id: (Seq<char>, Seq<char>),
)
    requires
        forall|j: int|
            0 <= j < rows.len() ==> (#[trigger] rows[j]).source_id@ != id.0 || rows[j].manga_id@
                != id.1,
    ensures
        with_absent(counts_of_rows(rows), ids).dom().contains(id) <==> ids.contains(id),
        ids.contains(id) ==> with_absent(counts_of_rows(rows), ids)[id] == (
            None::<usize>,
            None::<i64>,
            false,
        ),
    decreases rows.len(),
{
    if rows.len() > 0 {
        let front = rows.drop_last();
        assert forall|j: int| 0 <= j < front.len() implies (#[trigger] front[j]).source_id@ != id.0
            || front[j].manga_id@ != id.1 by {
            assert(rows[j] == front[j]);
        }
        lemma_manga_without_row_says_nothing(front, ids, id);
        assert(rows[rows.len() - 1].source_id@ != id.0 || rows[rows.len() - 1].manga_id@ != id.1);
    }
}

/// The last of the rows for a chapter tells whether it has been read, and when; a chapter
/// without a row has no state.
pub proof fn lemma_last_row_is_the_state(rows: Seq<ChapterStateRow>, k: int, id: Seq<char>)
    requires
        -1 <= k < rows.len(),
        k >= 0 ==> rows[k].chapter_id@ == id,
        forall|j: int| k < j < rows.len() ==> (#[trigger] rows[j]).chapter_id@ != id,
    ensures
        states_of_rows(rows).dom().contains(id) <==> k >= 0,
        k >= 0 ==> states_of_rows(rows)[id].read == rows[k].read,
        k >= 0 ==> states_of_rows(rows)[id].last_read == rows[k].last_read,
    decreases rows.len(),
{
    let front = rows.drop_last();
    if rows.len() > 0 && k < rows.len() - 1 {
        assert forall|j: int| k < j < front.len() implies (#[trigger] front[j]).chapter_id@
            != id by {
            assert(rows[j] == front[j]);
        }
        lemma_last_row_is_the_state(front, k, id);
        assert(rows[rows.len() - 1].chapter_id@ != id);
    }
}

/// A chapter is marked as read unless it is said to be marked as unread. One that is marked
/// as read gets the time, and one that is marked as unread gets none. It is the chapter
/// that was named.
pub proof fn lemma_mark_values(
    id: (Seq<char>, Seq<char>, Seq<char>),
    value: Option<bool>,
    now: i64,
)
    ensures
        mark_binds(id, value, now).len() == 5,
        mark_binds(id, value, now)[0] == BindView::Text(id.0),
        mark_binds(id, value, now)[1] == BindView::Text(id.1),
        mark_binds(id, value, now)[2] == BindView::Text(id.2),
        mark_binds(id, value, now)[3] == BindView::Boolean(value != Some(false)),
        value != Some(false) ==> mark_binds(id, value, now)[4] == BindView::OptionalInteger(
            Some(now),
        ),
        value == Some(false) ==> mark_binds(id, value, now)[4] == BindView::OptionalInteger(None),
{
}

/// Every new chapter of a manga gets a notification: the manga, the id of the chapter in it,
/// and the time.
pub proof fn lemma_every_chapter_is_notified(
    manga: (Seq<char>, Seq<char>),
    chapters: Seq<ChapterInformation>,
    now: i64,
    n: int,
)
    requires
        0 <= n < chapters.len(),
    ensures
        notification_binds(manga, chapters, now).len() == 4 * chapters.len(),
        notification_binds(manga, chapters, now)[4 * n] == BindView::Text(manga.0),
        notification_binds(manga, chapters, now)[4 * n + 1] == BindView::Text(manga.1),
        notification_binds(manga, chapters, now)[4 * n + 2] == BindView::Text(chapters[n].id@.2),
        notification_binds(manga, chapters, now)[4 * n + 3] == BindView::Integer(now),
    decreases chapters.len(),
{
    let front = chapters.drop_last();
    if n < chapters.len() - 1 {
        lemma_every_chapter_is_notified(manga, front, now, n);
    } else if front.len() > 0 {
        lemma_every_chapter_is_notified(manga, front, now, 0);
    } else {
        assert(notification_binds(manga, front, now).len() == 0);
    }
}

/// Every manga is asked for by its source and its id there, in order.
pub proof fn lemma_every_manga_is_asked_for(ids: Seq<(Seq<char>, Seq<char>)>, n: int)
    requires
        0 <= n < ids.len(),
    ensures
        mangas_binds(ids).len() == 2 * ids.len(),
        mangas_binds(ids)[2 * n] == BindView::Text(ids[n].0),
        mangas_binds(ids)[2 * n + 1] == BindView::Text(ids[n].1),
    decreases ids.len(),
{
    let front = ids.drop_last();
    if n < ids.len() - 1 {
        lemma_every_manga_is_asked_for(front, n);
    } else if front.len() > 0 {
        lemma_every_manga_is_asked_for(front, 0);
    } else {
        assert(mangas_binds(front).len() == 0);
    }
}

/// Each chapter that is marked is named in full, and marked as all of them are.
pub proof fn lemma_marked_chapter_values(
    ids: Seq<(Seq<char>, Seq<char>, Seq<char>)>,
    read: bool,
    n: int,
)
    requires
        0 <= n < ids.len(),
    ensures
        read_state_binds(ids, read).len() == 4 * ids.len(),
        read_state_binds(ids, read)[4 * n] == BindView::Text(ids[n].0),
        read_state_binds(ids, read)[4 * n + 1] == BindView::Text(ids[n].1),
        read_state_binds(ids, read)[4 * n + 2] == BindView::Text(ids[n].2),
        read_state_binds(ids, read)[4 * n + 3] == BindView::Boolean(read),
{
    lemma_every_chapter_is_marked(ids, read, n);
    let row = read_state_binds(ids, read).subrange(4 * n, 4 * n + 4);
    assert(row[0] == read_state_binds(ids, read)[4 * n]);
    assert(row[1] == read_state_binds(ids, read)[4 * n + 1]);
    assert(row[2] == read_state_binds(ids, read)[4 * n + 2]);
    assert(row[3] == read_state_binds(ids, read)[4 * n + 3]);
}

/// The condition that leaves sources out has a placeholder for each of them, and there is
/// none where there is nothing to leave out. The sources are bound in order.
pub proof fn lemma_every_source_is_skipped(sources: Seq<Seq<char>>, n: int)
    requires
        0 <= n < sources.len(),
    ensures
        placeholders(skip_condition(sources.len())) == text_binds(sources).len(),
        text_binds(sources)[n] == BindView::Text(sources[n]),
        text_binds(sources).len() == sources.len(),
        skip_condition(0).len() == 0,
{
    reveal_strlit("");
    reveal_strlit(")");
    reveal_strlit("AND source_id NOT IN (");
    lemma_list_placeholders(sql::NEXT_CHECK_SKIP@, ")"@, sources.len());
    assert(!")"@.contains('?'));
    assert(!"AND source_id NOT IN ("@.contains('?'));
    lemma_no_placeholder(")"@);
    lemma_no_placeholder(sql::NEXT_CHECK_SKIP@);
}

/// A number of unread chapters is told where there are chapters, and then it is that of the
/// row; where there are none, or it is not known, nothing is told.
pub proof fn lemma_unread_number(row: UnreadChaptersRow)
    ensures
        row.has_chapters != Some(true) ==> unread_of(row) is None,
        row.has_chapters == Some(true) && row.count is None ==> unread_of(row) is None,
        row.has_chapters == Some(true) ==> (row.count matches Some(n) ==> (0 <= n <= usize::MAX
            ==> unread_of(row) == Some(n as usize))),
{
}

/// Unread chapters are counted for the scanlator that is settled for a manga, and for all
/// scanlators where none is.
pub proof fn lemma_scanlator_is_the_settled_one(state: Option<MangaState>)
    ensures
        state is None ==> preferred_scanlator(state) is None,
        state matches Some(s) ==> (s.preferred_scanlator is None ==> preferred_scanlator(
            state,
        ) is None),
        state matches Some(s) ==> (s.preferred_scanlator matches Some(t) ==> preferred_scanlator(
            state,
        ) == Some(t@)),
{
}

/// The mangas and their status are those of the rows, in order: the source and the id of a
/// row are the manga, its number is the status.
pub proof fn lemma_status_columns(rows: Seq<StatusRow>, r: Seq<(MangaId, PublishingStatus)>, i: int)
    requires
        say_status(rows, r),
        0 <= i < rows.len(),
    ensures
        r.len() == rows.len(),
        r[i].0@.0 == rows[i].source_id@,
        r[i].0@.1 == rows[i].manga_id@,
        rows[i].status matches Some(s) ==> (0 <= s < 256 ==> r[i].1 == PublishingStatus::Code(
            s as u8,
        )),
        rows[i].status is None ==> r[i].1 is Unknown,
{
}

/// The mangas of the library are those of the rows, in order.
pub proof fn lemma_library_ids_are_those_of_rows(rows: Seq<MangaLibraryRow>, i: int)
    requires
        0 <= i < rows.len(),
    ensures
        library_ids(rows).len() == rows.len(),
        library_ids(rows)[i].0 == rows[i].source_id@,
        library_ids(rows)[i].1 == rows[i].manga_id@,
{
}

/// The ids of the cached chapters are the ids that were found, each in the manga that was
/// asked for.
pub proof fn lemma_cached_ids_are_those_found(
    manga: (Seq<char>, Seq<char>),
    ids: Seq<Seq<char>>,
    id: (Seq<char>, Seq<char>, Seq<char>),
)
    ensures
        ids_in_manga(manga, ids).contains(id) <==> (id.0 == manga.0 && id.1 == manga.1
            && ids.contains(id.2)),
{
}

/// A text is bound if and only if it is one of the list.
pub proof fn lemma_text_is_bound(list: Seq<Seq<char>>, text: Seq<char>)
    ensures
        text_binds(list).contains(BindView::Text(text)) <==> list.contains(text),
{
    if list.contains(text) {
        let k = choose|k: int| 0 <= k < list.len() && list[k] == text;
        assert(text_binds(list)[k] == BindView::Text(text));
    }
    if text_binds(list).contains(BindView::Text(text)) {
        let k = choose|k: int|
            0 <= k < text_binds(list).len() && text_binds(list)[k] == BindView::Text(text);
        assert(list[k] == text);
    }
}

}
