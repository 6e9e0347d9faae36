//! What the questions of the library are for: what SQL says of the rows that answer them,
//! on tables as maps.
use vstd::prelude::*;

use crate::effects::{bound_chapter, bound_manga, bound_number, bound_optional_text, Store};
use crate::model::Playlist;
use crate::rows::{
    CachedChapterView, ChapterStateRow, DescriptionView, LibraryRowView, MangaDetailsRow,
    MangaInformationsRow, MangaLibraryRow, MangaStateRow, NextCheckRow,
    NotificationInformationRow, ReadChapterRow, StatusRow, UnreadChaptersRow,
    UnreadChaptersRowFull,
};
use crate::statement::{placeholder_rows, BindView};
use crate::tables::{bound_text, greatest, of_manga, or_else, Tables};
use crate::text::{optional_text, repeated};

verus! {

/// Whether rows answer a question for the mangas of the library: those that are in it.
pub open spec fn answers_library_ids(
    statement: (Seq<char>, Seq<BindView>),
    store: Store,
    rows: Seq<MangaLibraryRow>,
) -> bool {
    statement.0 == "SELECT * FROM manga_library;"@ ==> forall|id: (Seq<char>, Seq<char>)| #[trigger]
        store.library.contains(id) <==> exists|i: int|
            0 <= i < rows.len() && (#[trigger] rows[i]).source_id@ == id.0 && rows[i].manga_id@
                == id.1
}

/// The status that the details of a manga hold, where there are any.
pub open spec fn status_in(store: Store, id: (Seq<char>, Seq<char>)) -> Option<i64> {
    if store.details.dom().contains(id) {
        Some(bound_number(store.details[id][7]))
    } else {
        None
    }
}

/// Whether rows tell of mangas, each with the status in its details, and of those alone that
/// are in a set.
pub open spec fn tell_status(
    store: Store,
    ids: Set<(Seq<char>, Seq<char>)>,
    rows: Seq<StatusRow>,
) -> bool {
    &&& forall|id: (Seq<char>, Seq<char>)| #[trigger]
        ids.contains(id) <==> exists|i: int|
            0 <= i < rows.len() && (#[trigger] rows[i]).source_id@ == id.0 && rows[i].manga_id@
                == id.1
    &&& forall|i: int|
        0 <= i < rows.len() ==> (#[trigger] rows[i]).status == status_in(
            store,
            (rows[i].source_id@, rows[i].manga_id@),
        )
}

/// Whether rows answer a question for mangas and their status: those of the library, or those
/// whose next check is due at a time.
pub open spec fn answers_status(
    statement: (Seq<char>, Seq<BindView>),
    store: Store,
    rows: Seq<StatusRow>,
) -> bool {
    &&& statement.0 == "SELECT
ml.manga_id,
ml.source_id,
md.status
FROM manga_library ml
LEFT JOIN manga_details md
ON ml.manga_id = md.id
AND ml.source_id = md.source_id"@ ==> tell_status(store, store.library, rows)
    &&& statement.0 == "SELECT
ml.manga_id, ml.source_id, md.status
FROM
last_check_update ml
LEFT JOIN manga_details md
ON ml.manga_id = md.id AND
ml.source_id = md.source_id
WHERE ml.next_ts_arima <= ?1"@ ==> tell_status(
        store,
        due_at(store, bound_number(statement.1[0])),
        rows,
    )
}

/// The mangas whose next check is due at a time.
pub open spec fn due_at(store: Store, now: i64) -> Set<(Seq<char>, Seq<char>)> {
    Set::new(
        |id: (Seq<char>, Seq<char>)|
            store.checks.dom().contains(id) && store.checks[id].next <= now,
    )
}

/// Whether a row answers a question for the manga that is to be checked next: the one whose
/// check is due first, of those whose source is not left out.
pub open spec fn answers_next_check(
    statement: (Seq<char>, Seq<BindView>),
    store: Store,
    row: Option<NextCheckRow>,
) -> bool {
    forall|n: nat|
        statement.0 == "SELECT manga_id, source_id, next_ts_arima
FROM last_check_update
WHERE next_ts_arima IS NOT NULL
"@ + (if n == 0 {
            ""@
        } else {
            "AND source_id NOT IN ("@ + #[trigger] repeated("?"@, ","@, n) + ")"@
        }) + "
ORDER BY next_ts_arima ASC
LIMIT 1"@ ==> match row {
            Some(row) => {
                let id = (row.source_id@, row.manga_id@);
                &&& store.checks.dom().contains(id)
                &&& !statement.1.contains(BindView::Text(id.0))
                &&& store.checks[id].next == row.next_ts_arima
                &&& forall|other: (Seq<char>, Seq<char>)| #[trigger]
                    store.checks.dom().contains(other) && !statement.1.contains(
                        BindView::Text(other.0),
                    ) ==> row.next_ts_arima <= store.checks[other].next
            },
            None => forall|other: (Seq<char>, Seq<char>)| #[trigger]
                store.checks.dom().contains(other) ==> statement.1.contains(
                    BindView::Text(other.0),
                ),
        }
}

/// Whether a row answers a question for what is settled for a manga.
pub open spec fn answers_manga_state(
    statement: (Seq<char>, Seq<BindView>),
    store: Store,
    row: Option<MangaStateRow>,
) -> bool {
    let id = bound_manga(statement.1, 0);
    statement.0 == "SELECT source_id, manga_id, preferred_scanlator
FROM manga_state
WHERE source_id = ?1 AND manga_id = ?2;"@ ==> match row {
        Some(row) => {
            &&& store.preferred.dom().contains(id)
            &&& (row.source_id@, row.manga_id@) == id
            &&& optional_text(row.preferred_scanlator) == store.preferred[id]
        },
        None => !store.preferred.dom().contains(id),
    }
}

/// Whether a row is that of the state of a chapter.
pub open spec fn is_state_row(store: Store, row: ChapterStateRow) -> bool {
    let id = (row.source_id@, row.manga_id@, row.chapter_id@);
    &&& store.states.dom().contains(id)
    &&& store.states[id].read == row.read
    &&& store.states[id].last_read == row.last_read
}

/// Whether a row answers a question for the state of a chapter.
pub open spec fn answers_chapter_state(
    statement: (Seq<char>, Seq<BindView>),
    store: Store,
    row: Option<ChapterStateRow>,
) -> bool {
    let id = bound_chapter(statement.1, 0);
    statement.0 == r#"SELECT source_id, manga_id, chapter_id, read AS "read: bool", last_read AS "last_read?: i64" FROM chapter_state
WHERE source_id = ?1 AND manga_id = ?2 AND chapter_id = ?3;"#@ ==> match row {
        Some(row) => is_state_row(store, row) && (row.source_id@, row.manga_id@, row.chapter_id@)
            == id,
        None => !store.states.dom().contains(id),
    }
}

/// Whether rows answer a question for the states of the chapters of a manga: each has one
/// row.
pub open spec fn answers_chapter_states(
    statement: (Seq<char>, Seq<BindView>),
    store: Store,
    rows: Seq<ChapterStateRow>,
) -> bool {
    let manga = bound_manga(statement.1, 0);
    statement.0 == r#"SELECT source_id, manga_id, chapter_id, read AS "read: bool", last_read AS "last_read?: i64" FROM chapter_state
WHERE source_id = ?1 AND manga_id = ?2;"#@ ==> {
        &&& forall|i: int|
            0 <= i < rows.len() ==> is_state_row(store, #[trigger] rows[i]) && rows[i].source_id@
                == manga.0 && rows[i].manga_id@ == manga.1
        &&& forall|i: int, j: int|
            0 <= i < j < rows.len() ==> (#[trigger] rows[i]).chapter_id@ != (
            #[trigger] rows[j]).chapter_id@
        &&& forall|chapter: Seq<char>|
            store.states.dom().contains((manga.0, manga.1, chapter)) ==> exists|i: int|
                0 <= i < rows.len() && #[trigger] rows[i].chapter_id@ == chapter
    }
}

/// Whether this answers a question for the check of a manga: when it was made, and when the
/// next is due.
pub open spec fn answers_check(
    statement: (Seq<char>, Seq<BindView>),
    store: Store,
    row: Option<(i64, i64)>,
) -> bool {
    let id = bound_manga(statement.1, 0);
    statement.0 == "SELECT last_check, next_ts_arima FROM last_check_update WHERE source_id = ?1 AND manga_id = ?2"@ ==> match row {
        Some(row) => store.checks.dom().contains(id) && store.checks[id].last == row.0
            && store.checks[id].next == row.1,
        None => !store.checks.dom().contains(id),
    }
}

/// Whether this answers a question for the number of unread notifications.
pub open spec fn answers_notification_count(
    statement: (Seq<char>, Seq<BindView>),
    store: Store,
    count: int,
) -> bool {
    statement.0 == r#"SELECT
COUNT(*) as "count: i32"
FROM
notifications
WHERE is_read = 0"#@ ==> count == store.notifications.dom().len()
}

/// Whether rows answer a question for the unread notifications: one row for each, the latest
/// first.
pub open spec fn answers_notifications(
    statement: (Seq<char>, Seq<BindView>),
    store: Store,
    rows: Seq<NotificationInformationRow>,
) -> bool {
    statement.0 == "SELECT
n.id,
n.source_id,
n.manga_id,
n.chapter_id,
mi.title AS manga_title,
md.cover_url AS manga_cover,
md.status AS manga_status,
ci.title AS chapter_title,
ci.chapter_number,
n.created_at
FROM
notifications n
LEFT JOIN manga_informations mi
ON mi.manga_id = n.manga_id AND mi.source_id = n.source_id
LEFT JOIN manga_details md
ON md.id = n.manga_id AND md.source_id = n.source_id
LEFT JOIN chapter_informations ci
ON ci.manga_id = n.manga_id AND ci.source_id = n.source_id AND ci.chapter_id = n.chapter_id
WHERE
n.is_read = 0
ORDER BY
n.created_at DESC"@ ==> {
        &&& forall|i: int|
            0 <= i < rows.len() ==> {
                let id = (#[trigger] rows[i]).id;
                &&& store.notifications.dom().contains(id)
                &&& store.notifications[id].chapter == (
                    rows[i].source_id@,
                    rows[i].manga_id@,
                    rows[i].chapter_id@,
                )
                &&& store.notifications[id].created_at == rows[i].created_at
                &&& rows[i].manga_status == status_in(
                    store,
                    (rows[i].source_id@, rows[i].manga_id@),
                )
            }
        &&& forall|id: i64| #[trigger]
            store.notifications.dom().contains(id) ==> exists|i: int|
                0 <= i < rows.len() && (#[trigger] rows[i]).id == id
        &&& forall|i: int, j: int|
            0 <= i < j < rows.len() ==> (#[trigger] rows[i]).created_at >= (
            #[trigger] rows[j]).created_at
    }
}

/// Whether rows answer a question for the ids of the cached chapters of a manga.
pub open spec fn answers_chapter_ids(
    statement: (Seq<char>, Seq<BindView>),
    store: Store,
    rows: Seq<Seq<char>>,
) -> bool {
    let manga = bound_manga(statement.1, 0);
    statement.0 == "SELECT chapter_id
FROM chapter_informations
WHERE source_id = ?1 AND manga_id = ?2"@ ==> forall|id: Seq<char>| #[trigger]
        rows.contains(id) <==> store.chapters.dom().contains((manga.0, manga.1, id))
}

/// Whether a row answers a question for the cached description of a manga.
pub open spec fn answers_manga_information(
    statement: (Seq<char>, Seq<BindView>),
    store: Store,
    row: Option<MangaInformationsRow>,
) -> bool {
    let id = bound_manga(statement.1, 0);
    statement.0 == "SELECT * FROM manga_informations
WHERE source_id = ?1 AND manga_id = ?2;"@ ==> match row {
        Some(row) => {
            &&& store.mangas.dom().contains(id)
            &&& (row.source_id@, row.manga_id@) == id
            &&& optional_text(row.title) == bound_optional_text(store.mangas[id][0])
            &&& optional_text(row.author) == bound_optional_text(store.mangas[id][1])
            &&& optional_text(row.artist) == bound_optional_text(store.mangas[id][2])
            &&& optional_text(row.cover_url) == bound_optional_text(store.mangas[id][3])
        },
        None => !store.mangas.dom().contains(id),
    }
}

/// Whether a row answers a question for the cached description of a chapter.
pub open spec fn answers_description(
    statement: (Seq<char>, Seq<BindView>),
    tables: Tables,
    row: Option<DescriptionView>,
) -> bool {
    let id = bound_chapter(statement.1, 0);
    statement.0 == "SELECT * FROM chapter_informations
WHERE source_id = ?1 AND manga_id = ?2 AND chapter_id = ?3;"@ ==> match row {
        Some(row) => tables.chapters.dom().contains(id) && tables.chapters[id] == row && row.id
            == id,
        None => !tables.chapters.dom().contains(id),
    }
}

/// Whether rows answer a question for cached descriptions of chapters: those of a manga in
/// their order, or all there are.
pub open spec fn answers_descriptions(
    statement: (Seq<char>, Seq<BindView>),
    tables: Tables,
    rows: Seq<DescriptionView>,
) -> bool {
    &&& statement.0 == "SELECT * FROM chapter_informations
WHERE source_id = ?1 AND manga_id = ?2
ORDER BY manga_order ASC;"@ ==> tables.answers_descriptions(
        bound_manga(statement.1, 0),
        rows,
    )
    &&& statement.0 == "SELECT * FROM chapter_informations"@ ==> forall|k: (
        Seq<char>,
        Seq<char>,
        Seq<char>,
    )| #[trigger]
        tables.chapters.dom().contains(k) ==> rows.contains(tables.chapters[k])
}

/// Whether rows answer a question for the cached chapters of a manga.
pub open spec fn answers_cached_chapters(
    statement: (Seq<char>, Seq<BindView>),
    tables: Tables,
    rows: Seq<CachedChapterView>,
) -> bool {
    statement.0 == r#"SELECT
ci.source_id,
ci.manga_id,
ci.chapter_id,
ci.title,
ci.scanlator,
ci.chapter_number,
ci.volume_number,
ci.last_updated,
ci.thumbnail,
ci.lang,
ci.locked AS "locked: bool",
mi.title AS manga_title,
cs.read AS "read?: bool",
cs.last_read AS "last_read?: i64"
FROM chapter_informations ci
LEFT JOIN chapter_state cs
ON ci.source_id = cs.source_id
AND ci.manga_id = cs.manga_id
AND ci.chapter_id = cs.chapter_id
LEFT JOIN manga_informations mi
ON ci.source_id = mi.source_id
AND ci.manga_id = mi.manga_id
WHERE ci.source_id = ?1 AND ci.manga_id = ?2
GROUP BY ci.source_id, ci.manga_id, ci.chapter_id
ORDER BY ci.manga_order ASC;"#@ ==> tables.answers_cached(bound_manga(statement.1, 0), rows)
}

/// Whether rows answer a question for the chapters that have been read: one for each, and for
/// no other.
pub open spec fn answers_read_chapters(
    statement: (Seq<char>, Seq<BindView>),
    tables: Tables,
    rows: Seq<ReadChapterRow>,
) -> bool {
    statement.0 == "SELECT
cs.source_id, cs.manga_id, cs.chapter_id,
mi.title AS manga_title,
ci.chapter_number, ci.volume_number
FROM chapter_state cs
LEFT JOIN manga_informations mi
ON cs.source_id = mi.source_id AND cs.manga_id = mi.manga_id
LEFT JOIN chapter_informations ci
ON cs.source_id = ci.source_id AND cs.manga_id = ci.manga_id AND cs.chapter_id = ci.chapter_id
WHERE cs.read = 1"@ ==> {
        &&& forall|i: int|
            0 <= i < rows.len() ==> {
                let id = ((#[trigger] rows[i]).source_id@, rows[i].manga_id@, rows[i].chapter_id@);
                &&& tables.is_read(id)
                &&& optional_text(rows[i].chapter_number) == (if tables.chapters.dom().contains(
                    id,
                ) {
                    tables.chapters[id].chapter_number
                } else {
                    None
                })
                &&& optional_text(rows[i].volume_number) == (if tables.chapters.dom().contains(
                    id,
                ) {
                    tables.chapters[id].volume_number
                } else {
                    None
                })
                &&& optional_text(rows[i].manga_title) == (if tables.mangas.dom().contains(
                    (id.0, id.1),
                ) {
                    tables.mangas[(id.0, id.1)].title
                } else {
                    None
                })
            }
        &&& forall|id: (Seq<char>, Seq<char>, Seq<char>)| #[trigger]
            tables.is_read(id) ==> exists|i: int|
                0 <= i < rows.len() && ((#[trigger] rows[i]).source_id@, rows[i].manga_id@, rows[
                    i
                ].chapter_id@) == id
    }
}

/// Whether a row answers a question for the number of unread chapters of a manga.
pub open spec fn answers_unread(
    statement: (Seq<char>, Seq<BindView>),
    tables: Tables,
    rank: spec_fn(Seq<char>) -> int,
    row: UnreadChaptersRow,
) -> bool {
    statement.0 == r#"WITH filtered AS (
    SELECT ci.chapter_number, cs.read
    FROM chapter_informations ci
    LEFT JOIN chapter_state cs
    ON ci.source_id = cs.source_id
    AND ci.manga_id = cs.manga_id
    AND ci.chapter_id = cs.chapter_id
    WHERE ci.source_id = ?1
    AND ci.manga_id = ?2
    AND (?3 IS NULL OR ci.scanlator = ?3 OR ci.scanlator IS NULL)
),
max_read AS (
    SELECT COALESCE(MAX(chapter_number), -1) AS last_read
    FROM filtered
    WHERE read = 1
)
SELECT
COUNT(*) AS count,
CASE WHEN EXISTS (SELECT 1 FROM filtered) THEN 1 ELSE 0 END AS "has_chapters: bool"
FROM filtered, max_read
WHERE filtered.chapter_number > max_read.last_read"#@ ==> tables.answers_count(
        rank,
        bound_manga(statement.1, 0),
        bound_optional_text(statement.1[2]),
        row,
    )
}

/// Whether rows answer a question for the mangas of the library with their unread chapters,
/// whatever clause sorts them: one row for each manga of the library that has a description.
pub open spec fn answers_library_mangas(
    statement: (Seq<char>, Seq<BindView>),
    tables: Tables,
    rank: spec_fn(Seq<char>) -> int,
    rows: Seq<LibraryRowView>,
) -> bool {
    forall|clause: Seq<char>|
        statement.0 == #[trigger] library_question(clause) ==> {
            &&& rows.no_duplicates()
            &&& forall|row: LibraryRowView| #[trigger]
                rows.contains(row) <==> tables.in_list(row.id) && row == tables.library_row(
                    rank,
                    row.id,
                )
        }
}

/// The text of the question for the mangas of the library, with a clause that sorts them.
pub open spec fn library_question(clause: Seq<char>) -> Seq<char> {
    "WITH last_read AS (
    SELECT
    ci.source_id,
    ci.manga_id,
    MAX(ci.chapter_number) AS last_read_chapter
    FROM chapter_informations ci
    JOIN chapter_state cs
    ON ci.source_id = cs.source_id
    AND ci.manga_id = cs.manga_id
    AND ci.chapter_id = cs.chapter_id
    LEFT JOIN manga_state ms
    ON ms.source_id = ci.source_id AND ms.manga_id = ci.manga_id
    WHERE (ms.preferred_scanlator IS NULL
        OR ci.scanlator = ms.preferred_scanlator
        OR ci.scanlator IS NULL)
    AND cs.read = 1
    GROUP BY ci.source_id, ci.manga_id
),
last_time_interacted AS (
    SELECT
    ci.source_id,
    ci.manga_id,
    COALESCE(MAX(cs.last_read), 0) AS last_read_time
    FROM chapter_informations ci
    JOIN chapter_state cs
    ON ci.source_id = cs.source_id
    AND ci.manga_id = cs.manga_id
    AND ci.chapter_id = cs.chapter_id
    LEFT JOIN manga_state ms
    ON ms.source_id = ci.source_id AND ms.manga_id = ci.manga_id
    WHERE (ms.preferred_scanlator IS NULL
        OR ci.scanlator = ms.preferred_scanlator
        OR ci.scanlator IS NULL)
    AND cs.last_read IS NOT NULL
    GROUP BY ci.source_id, ci.manga_id
)
"@ + r#"SELECT
ml.source_id,
ml.manga_id,
mi.title,
mi.author,
mi.artist,
mi.cover_url,
COUNT(ci.chapter_number) AS unread_chapters_count,
lti.last_read_time AS "last_read?: i64"
FROM manga_library ml
JOIN manga_informations mi
ON mi.source_id = ml.source_id AND mi.manga_id = ml.manga_id
LEFT JOIN manga_state ms
ON ms.source_id = ml.source_id AND ms.manga_id = ml.manga_id
LEFT JOIN last_read lr
ON lr.source_id = ml.source_id AND lr.manga_id = ml.manga_id
LEFT JOIN last_time_interacted lti
ON lti.source_id = ml.source_id AND lti.manga_id = ml.manga_id
LEFT JOIN chapter_informations ci
ON ci.source_id = ml.source_id
AND ci.manga_id = ml.manga_id
AND (ms.preferred_scanlator IS NULL OR ci.scanlator = ms.preferred_scanlator OR ci.scanlator IS NULL)
AND ci.chapter_number > COALESCE(lr.last_read_chapter, -1)
GROUP BY ml.source_id, ml.manga_id, lti.last_read_time
"#@ + clause
}

/// Whether rows answer a question for the mangas of a playlist with their unread chapters,
/// whatever clause sorts them: one row for each manga of the playlist that has a description.
pub open spec fn answers_playlist_mangas(
    statement: (Seq<char>, Seq<BindView>),
    store: Store,
    tables: Tables,
    rank: spec_fn(Seq<char>) -> int,
    rows: Seq<LibraryRowView>,
) -> bool {
    forall|clause: Seq<char>|
        statement.0 == #[trigger] playlist_question(clause) ==> {
            &&& rows.no_duplicates()
            &&& forall|row: LibraryRowView| #[trigger]
                rows.contains(row) <==> store.members.contains(
                    (bound_number(statement.1[0]), row.id),
                ) && tables.mangas.dom().contains(row.id) && row == tables.library_row(
                    rank,
                    row.id,
                )
        }
}

/// The text of the question for the mangas of a playlist, with a clause that sorts them.
pub open spec fn playlist_question(clause: Seq<char>) -> Seq<char> {
    "WITH last_read AS (
    SELECT
    ci.source_id,
    ci.manga_id,
    MAX(ci.chapter_number) AS last_read_chapter
    FROM chapter_informations ci
    JOIN chapter_state cs
    ON ci.source_id = cs.source_id
    AND ci.manga_id = cs.manga_id
    AND ci.chapter_id = cs.chapter_id
    LEFT JOIN manga_state ms
    ON ms.source_id = ci.source_id AND ms.manga_id = ci.manga_id
    WHERE (ms.preferred_scanlator IS NULL
        OR ci.scanlator = ms.preferred_scanlator
        OR ci.scanlator IS NULL)
    AND cs.read = 1
    GROUP BY ci.source_id, ci.manga_id
),
last_time_interacted AS (
    SELECT
    ci.source_id,
    ci.manga_id,
    COALESCE(MAX(cs.last_read), 0) AS last_read_time
    FROM chapter_informations ci
    JOIN chapter_state cs
    ON ci.source_id = cs.source_id
    AND ci.manga_id = cs.manga_id
    AND ci.chapter_id = cs.chapter_id
    LEFT JOIN manga_state ms
    ON ms.source_id = ci.source_id AND ms.manga_id = ci.manga_id
    WHERE (ms.preferred_scanlator IS NULL
        OR ci.scanlator = ms.preferred_scanlator
        OR ci.scanlator IS NULL)
    AND cs.last_read IS NOT NULL
    GROUP BY ci.source_id, ci.manga_id
)
"@ + r#"SELECT
pm.source_id,
pm.manga_id,
mi.title,
mi.author,
mi.artist,
mi.cover_url,
COUNT(ci.chapter_number) AS "unread_chapters_count: i64",
lti.last_read_time AS "last_read?: i64"
FROM playlist_mangas pm
JOIN manga_informations mi
ON mi.source_id = pm.source_id AND mi.manga_id = pm.manga_id
LEFT JOIN manga_state ms
ON ms.source_id = pm.source_id AND ms.manga_id = pm.manga_id
LEFT JOIN last_read lr
ON lr.source_id = pm.source_id AND lr.manga_id = pm.manga_id
LEFT JOIN last_time_interacted lti
ON lti.source_id = pm.source_id AND lti.manga_id = pm.manga_id
LEFT JOIN chapter_informations ci
ON ci.source_id = pm.source_id
AND ci.manga_id = pm.manga_id
AND (ms.preferred_scanlator IS NULL OR ci.scanlator = ms.preferred_scanlator OR ci.scanlator IS NULL)
AND ci.chapter_number > COALESCE(lr.last_read_chapter, -1)
WHERE pm.playlist_id = ?1
GROUP BY pm.source_id, pm.manga_id, lti.last_read_time
"#@ + clause
}

/// Whether rows answer a question for the playlists: one row for each.
pub open spec fn answers_playlists(
    statement: (Seq<char>, Seq<BindView>),
    store: Store,
    rows: Seq<Playlist>,
) -> bool {
    statement.0 == "SELECT id, name FROM playlists"@ ==> {
        &&& forall|i: int|
            0 <= i < rows.len() ==> store.playlists.dom().contains((#[trigger] rows[i]).id)
                && store.playlists[rows[i].id] == rows[i].name@
        &&& forall|i: int, j: int|
            0 <= i < j < rows.len() ==> (#[trigger] rows[i]).id != (#[trigger] rows[j]).id
        &&& forall|id: i64| #[trigger]
            store.playlists.dom().contains(id) ==> exists|i: int|
                0 <= i < rows.len() && (#[trigger] rows[i]).id == id
    }
}

/// Whether a playlist is created under an id, which none had.
pub open spec fn creates_playlist(
    statement: (Seq<char>, Seq<BindView>),
    before: Store,
    after: Store,
    id: i64,
) -> bool {
    statement.0 == "INSERT INTO playlists (name) VALUES (?1) RETURNING id"@ ==> {
        &&& !before.playlists.dom().contains(id)
        &&& after == (Store {
            playlists: before.playlists.insert(id, bound_text(statement.1[0])),
            ..before
        })
    }
}

/// When a chapter of a manga was last read, of all that have a state.
pub open spec fn last_read_of(store: Store, manga: (Seq<char>, Seq<char>)) -> Option<int> {
    greatest(
        Set::new(
            |v: int|
                exists|k: (Seq<char>, Seq<char>, Seq<char>)|
                    {
                        &&& #[trigger] store.states.dom().contains(k)
                        &&& of_manga(k, manga)
                        &&& store.states[k].last_read matches Some(t) && t == v
                    },
        ),
    )
}

/// Whether a row answers a question for the details of a manga: what was written, and when
/// a chapter was last read.
pub open spec fn answers_details(
    statement: (Seq<char>, Seq<BindView>),
    store: Store,
    row: Option<MangaDetailsRow>,
) -> bool {
    let id = bound_manga(statement.1, 0);
    statement.0 == r#"SELECT
md.*,
COALESCE(AVG(cs.read), 0) AS "per_read: f64",
COALESCE(
    MAX(cs.last_read),
    0
) AS "last_read: i64"
FROM manga_details md
LEFT JOIN chapter_state cs
ON cs.source_id = md.source_id
AND cs.manga_id = md.id
WHERE md.source_id = ?1 AND md.id = ?2
GROUP BY md.source_id, md.id"#@ ==> match row {
        Some(row) => {
            &&& store.details.dom().contains(id)
            &&& (row.source_id@, row.id@) == id
            &&& store.details[id] == seq![
                BindView::OptionalText(optional_text(row.title)),
                BindView::OptionalText(optional_text(row.author)),
                BindView::OptionalText(optional_text(row.artist)),
                BindView::OptionalText(optional_text(row.description)),
                BindView::OptionalText(optional_text(row.tags)),
                BindView::OptionalText(optional_text(row.cover_url)),
                BindView::OptionalText(optional_text(row.url)),
                BindView::Integer(row.status),
                BindView::Integer(row.nsfw),
                BindView::Integer(row.viewer),
                BindView::OptionalText(optional_text(row.last_updated)),
                BindView::OptionalText(optional_text(row.last_opened)),
                BindView::OptionalText(optional_text(row.date_added)),
            ]
            &&& row.last_read == Some(or_else(last_read_of(store, id), 0) as i64)
        },
        None => !store.details.dom().contains(id),
    }
}

/// When a chapter of a manga was last read, of all that have a description.
pub open spec fn last_time_of(tables: Tables, manga: (Seq<char>, Seq<char>)) -> Option<int> {
    greatest(
        Set::new(
            |v: int|
                exists|k: (Seq<char>, Seq<char>, Seq<char>)|
                    {
                        &&& #[trigger] tables.chapters.dom().contains(k)
                        &&& tables.states.dom().contains(k)
                        &&& of_manga(k, manga)
                        &&& tables.states[k].last_read matches Some(t) && t == v
                    },
        ),
    )
}

/// Whether a row tells how many chapters of its manga are unread, whoever translated them,
/// when one was last read, and whether the manga is in the library.
pub open spec fn tells_counts(
    tables: Tables,
    rank: spec_fn(Seq<char>) -> int,
    row: UnreadChaptersRowFull,
) -> bool {
    let manga = (row.source_id@, row.manga_id@);
    &&& row.count == Some(tables.counted(rank, manga, None).len() as i32)
    &&& row.last_time == match last_time_of(tables, manga) {
        Some(t) => Some(t as i32),
        None => None,
    }
    &&& row.in_library == tables.library.dom().contains(manga)
}

/// Whether a manga has a row among others.
pub open spec fn has_counts(rows: Seq<UnreadChaptersRowFull>, id: (Seq<char>, Seq<char>)) -> bool {
    exists|j: int|
        0 <= j < rows.len() && (#[trigger] rows[j]).source_id@ == id.0 && rows[j].manga_id@ == id.1
}

/// The manga that is named at a place of a list.
pub open spec fn asked_manga(binds: Seq<BindView>, i: int) -> (Seq<char>, Seq<char>) {
    bound_manga(binds, 2 * i)
}

/// Whether rows answer a question for the numbers of unread chapters of mangas, of which
/// none is named twice: each has a row.
pub open spec fn answers_unread_counts(
    statement: (Seq<char>, Seq<BindView>),
    tables: Tables,
    rank: spec_fn(Seq<char>) -> int,
    rows: Seq<UnreadChaptersRowFull>,
) -> bool {
    let binds = statement.1;
    forall|n: nat|
        statement.0 == "WITH inputs(source_id, manga_id) AS (
    VALUES
    "@ + #[trigger] placeholder_rows(n, 2)
            + "
),
filtered AS (
    SELECT
    i.source_id,
    i.manga_id,
    ci.chapter_number,
    cs.read,
    cs.last_read as last_time
    FROM inputs i
    LEFT JOIN chapter_informations ci
    ON ci.source_id = i.source_id AND ci.manga_id = i.manga_id
    LEFT JOIN chapter_state cs
    ON ci.source_id = cs.source_id
    AND ci.manga_id = cs.manga_id
    AND ci.chapter_id = cs.chapter_id
),
max_read AS (
    SELECT
    source_id,
    manga_id,
    COALESCE(MAX(CASE WHEN read = 1 THEN chapter_number END), -1) AS last_read,
    COALESCE(MAX(last_time), NULL) AS last_read_time
    FROM filtered
    GROUP BY source_id, manga_id
)
SELECT
i.source_id,
i.manga_id,
COALESCE(COUNT(f.chapter_number), -1) AS count,
mr.last_read_time AS last_time,
CASE WHEN ml.source_id IS NOT NULL THEN TRUE ELSE FALSE END AS in_library
FROM inputs i
LEFT JOIN filtered f
ON i.source_id = f.source_id AND i.manga_id = f.manga_id
AND f.chapter_number > COALESCE((SELECT last_read FROM max_read mr2 WHERE mr2.source_id = i.source_id AND mr2.manga_id = i.manga_id), -1)
LEFT JOIN max_read mr
ON i.source_id = mr.source_id AND i.manga_id = mr.manga_id
LEFT JOIN manga_library ml
ON i.source_id = ml.source_id AND i.manga_id = ml.manga_id
GROUP BY i.source_id, i.manga_id, mr.last_read_time, in_library"@ && binds.len() == 2 * n && (forall|i: int, j: int|
            0 <= i < j < n ==> #[trigger] asked_manga(binds, i) != #[trigger] asked_manga(binds, j))
            ==> {
            &&& forall|j: int| 0 <= j < rows.len() ==> tells_counts(tables, rank, #[trigger] rows[j])
            &&& forall|i: int|
                0 <= i < n ==> has_counts(rows, #[trigger] asked_manga(binds, i))
        }
}

}
