//! The SQL of the library.
use vstd::prelude::*;

verus! {

/// The mangas of the library.
pub const MANGA_LIBRARY: &'static str = "SELECT * FROM manga_library;";

/// The mangas of the library, and how far each has come out.
pub const MANGA_LIBRARY_AND_STATUS: &'static str = "SELECT
ml.manga_id,
ml.source_id,
md.status
FROM manga_library ml
LEFT JOIN manga_details md
ON ml.manga_id = md.id
AND ml.source_id = md.source_id";

/// How far each manga has been read, and when.
pub const READ_PROGRESS: &'static str = "WITH last_read AS (
    SELECT
    ci.source_id,
    ci.manga_id,
    MAX(ci.chapter_number) AS last_read_chapter
    FROM chapter_informations ci
    JOIN chapter_state cs
    ON ci.source_id = cs.source_id
    AND ci.manga_id = cs.manga_id
    AND ci.chapter_id = cs.chapter_id
    LEFT JOIN manga_state ms
    ON ms.source_id = ci.source_id AND ms.manga_id = ci.manga_id
    WHERE (ms.preferred_scanlator IS NULL
        OR ci.scanlator = ms.preferred_scanlator
        OR ci.scanlator IS NULL)
    AND cs.read = 1
    GROUP BY ci.source_id, ci.manga_id
),
last_time_interacted AS (
    SELECT
    ci.source_id,
    ci.manga_id,
    COALESCE(MAX(cs.last_read), 0) AS last_read_time
    FROM chapter_informations ci
    JOIN chapter_state cs
    ON ci.source_id = cs.source_id
    AND ci.manga_id = cs.manga_id
    AND ci.chapter_id = cs.chapter_id
    LEFT JOIN manga_state ms
    ON ms.source_id = ci.source_id AND ms.manga_id = ci.manga_id
    WHERE (ms.preferred_scanlator IS NULL
        OR ci.scanlator = ms.preferred_scanlator
        OR ci.scanlator IS NULL)
    AND cs.last_read IS NOT NULL
    GROUP BY ci.source_id, ci.manga_id
)
";

/// The mangas of the library with their unread chapters, in no order yet.
pub const LIBRARY_MANGAS: &'static str = r#"SELECT
ml.source_id,
ml.manga_id,
mi.title,
mi.author,
mi.artist,
mi.cover_url,
COUNT(ci.chapter_number) AS unread_chapters_count,
lti.last_read_time AS "last_read?: i64"
FROM manga_library ml
JOIN manga_informations mi
ON mi.source_id = ml.source_id AND mi.manga_id = ml.manga_id
LEFT JOIN manga_state ms
ON ms.source_id = ml.source_id AND ms.manga_id = ml.manga_id
LEFT JOIN last_read lr
ON lr.source_id = ml.source_id AND lr.manga_id = ml.manga_id
LEFT JOIN last_time_interacted lti
ON lti.source_id = ml.source_id AND lti.manga_id = ml.manga_id
LEFT JOIN chapter_informations ci
ON ci.source_id = ml.source_id
AND ci.manga_id = ml.manga_id
AND (ms.preferred_scanlator IS NULL OR ci.scanlator = ms.preferred_scanlator OR ci.scanlator IS NULL)
AND ci.chapter_number > COALESCE(lr.last_read_chapter, -1)
GROUP BY ml.source_id, ml.manga_id, lti.last_read_time
"#;

/// The mangas of a playlist with their unread chapters, in no order yet.
pub const PLAYLIST_MANGAS: &'static str = r#"SELECT
pm.source_id,
pm.manga_id,
mi.title,
mi.author,
mi.artist,
mi.cover_url,
COUNT(ci.chapter_number) AS "unread_chapters_count: i64",
lti.last_read_time AS "last_read?: i64"
FROM playlist_mangas pm
JOIN manga_informations mi
ON mi.source_id = pm.source_id AND mi.manga_id = pm.manga_id
LEFT JOIN manga_state ms
ON ms.source_id = pm.source_id AND ms.manga_id = pm.manga_id
LEFT JOIN last_read lr
ON lr.source_id = pm.source_id AND lr.manga_id = pm.manga_id
LEFT JOIN last_time_interacted lti
ON lti.source_id = pm.source_id AND lti.manga_id = pm.manga_id
LEFT JOIN chapter_informations ci
ON ci.source_id = pm.source_id
AND ci.manga_id = pm.manga_id
AND (ms.preferred_scanlator IS NULL OR ci.scanlator = ms.preferred_scanlator OR ci.scanlator IS NULL)
AND ci.chapter_number > COALESCE(lr.last_read_chapter, -1)
WHERE pm.playlist_id = ?1
GROUP BY pm.source_id, pm.manga_id, lti.last_read_time
"#;

/// Puts a manga into the library.
pub const ADD_MANGA_TO_LIBRARY: &'static str = "INSERT INTO manga_library (source_id, manga_id)
VALUES (?1, ?2)
ON CONFLICT DO NOTHING";

/// Takes a manga out of the library.
pub const REMOVE_MANGA_FROM_LIBRARY: &'static str = "DELETE FROM manga_library
WHERE source_id = ?1 AND manga_id = ?2";

/// Counts the chapters behind the last one read.
pub const COUNT_UNREAD_CHAPTERS: &'static str = r#"WITH filtered AS (
    SELECT ci.chapter_number, cs.read
    FROM chapter_informations ci
    LEFT JOIN chapter_state cs
    ON ci.source_id = cs.source_id
    AND ci.manga_id = cs.manga_id
    AND ci.chapter_id = cs.chapter_id
    WHERE ci.source_id = ?1
    AND ci.manga_id = ?2
    AND (?3 IS NULL OR ci.scanlator = ?3 OR ci.scanlator IS NULL)
),
max_read AS (
    SELECT COALESCE(MAX(chapter_number), -1) AS last_read
    FROM filtered
    WHERE read = 1
)
SELECT
COUNT(*) AS count,
CASE WHEN EXISTS (SELECT 1 FROM filtered) THEN 1 ELSE 0 END AS "has_chapters: bool"
FROM filtered, max_read
WHERE filtered.chapter_number > max_read.last_read"#;

/// Counts unread chapters: what stands before the ids.
pub const UNREAD_COUNTS_HEAD: &'static str = "WITH inputs(source_id, manga_id) AS (
    VALUES
    ";

/// Counts unread chapters: what stands behind the ids.
pub const UNREAD_COUNTS_TAIL: &'static str = "
),
filtered AS (
    SELECT
    i.source_id,
    i.manga_id,
    ci.chapter_number,
    cs.read,
    cs.last_read as last_time
    FROM inputs i
    LEFT JOIN chapter_informations ci
    ON ci.source_id = i.source_id AND ci.manga_id = i.manga_id
    LEFT JOIN chapter_state cs
    ON ci.source_id = cs.source_id
    AND ci.manga_id = cs.manga_id
    AND ci.chapter_id = cs.chapter_id
),
max_read AS (
    SELECT
    source_id,
    manga_id,
    COALESCE(MAX(CASE WHEN read = 1 THEN chapter_number END), -1) AS last_read,
    COALESCE(MAX(last_time), NULL) AS last_read_time
    FROM filtered
    GROUP BY source_id, manga_id
)
SELECT
i.source_id,
i.manga_id,
COALESCE(COUNT(f.chapter_number), -1) AS count,
mr.last_read_time AS last_time,
CASE WHEN ml.source_id IS NOT NULL THEN TRUE ELSE FALSE END AS in_library
FROM inputs i
LEFT JOIN filtered f
ON i.source_id = f.source_id AND i.manga_id = f.manga_id
AND f.chapter_number > COALESCE((SELECT last_read FROM max_read mr2 WHERE mr2.source_id = i.source_id AND mr2.manga_id = i.manga_id), -1)
LEFT JOIN max_read mr
ON i.source_id = mr.source_id AND i.manga_id = mr.manga_id
LEFT JOIN manga_library ml
ON i.source_id = ml.source_id AND i.manga_id = ml.manga_id
GROUP BY i.source_id, i.manga_id, mr.last_read_time, in_library";

/// The cached description of a manga.
pub const FIND_MANGA_INFORMATION: &'static str = "SELECT * FROM manga_informations
WHERE source_id = ?1 AND manga_id = ?2;";

/// The cached description of a chapter.
pub const FIND_CHAPTER_INFORMATION: &'static str = "SELECT * FROM chapter_informations
WHERE source_id = ?1 AND manga_id = ?2 AND chapter_id = ?3;";

/// The cached descriptions of all chapters.
pub const ALL_CHAPTER_INFORMATIONS: &'static str = "SELECT * FROM chapter_informations";

/// The chapters that have been read.
pub const READ_CHAPTERS: &'static str = "SELECT
cs.source_id, cs.manga_id, cs.chapter_id,
mi.title AS manga_title,
ci.chapter_number, ci.volume_number
FROM chapter_state cs
LEFT JOIN manga_informations mi
ON cs.source_id = mi.source_id AND cs.manga_id = mi.manga_id
LEFT JOIN chapter_informations ci
ON cs.source_id = ci.source_id AND cs.manga_id = ci.manga_id AND cs.chapter_id = ci.chapter_id
WHERE cs.read = 1";

/// The ids of the cached chapters of a manga.
pub const FIND_CHAPTER_IDS: &'static str = "SELECT chapter_id
FROM chapter_informations
WHERE source_id = ?1 AND manga_id = ?2";

/// The cached descriptions of the chapters of a manga.
pub const FIND_CHAPTER_INFORMATIONS: &'static str = "SELECT * FROM chapter_informations
WHERE source_id = ?1 AND manga_id = ?2
ORDER BY manga_order ASC;";

/// The cached chapters of a manga.
pub const FIND_CHAPTERS: &'static str = r#"SELECT
ci.source_id,
ci.manga_id,
ci.chapter_id,
ci.title,
ci.scanlator,
ci.chapter_number,
ci.volume_number,
ci.last_updated,
ci.thumbnail,
ci.lang,
ci.locked AS "locked: bool",
mi.title AS manga_title,
cs.read AS "read?: bool",
cs.last_read AS "last_read?: i64"
FROM chapter_informations ci
LEFT JOIN chapter_state cs
ON ci.source_id = cs.source_id
AND ci.manga_id = cs.manga_id
AND ci.chapter_id = cs.chapter_id
LEFT JOIN manga_informations mi
ON ci.source_id = mi.source_id
AND ci.manga_id = mi.manga_id
WHERE ci.source_id = ?1 AND ci.manga_id = ?2
GROUP BY ci.source_id, ci.manga_id, ci.chapter_id
ORDER BY ci.manga_order ASC;"#;

/// Writes descriptions of mangas: what stands before the rows.
pub const UPSERT_MANGA_INFORMATION_HEAD: &'static str = "INSERT INTO manga_informations (
    source_id, manga_id, title, author, artist, cover_url
)
VALUES ";

/// Writes descriptions of mangas: what stands behind the rows.
pub const UPSERT_MANGA_INFORMATION_TAIL: &'static str = "
ON CONFLICT(source_id, manga_id) DO UPDATE SET
title = excluded.title,
author = excluded.author,
artist = excluded.artist,
cover_url = excluded.cover_url";

/// Deletes chapters: up to the id of the source.
pub const DELETE_CHAPTERS_SOURCE: &'static str = "DELETE FROM chapter_informations WHERE source_id = ";

/// Deletes chapters: up to the id of the manga.
pub const DELETE_CHAPTERS_MANGA: &'static str = " AND manga_id = ";

/// Deletes chapters: up to the ids.
pub const DELETE_CHAPTERS_IDS: &'static str = " AND chapter_id IN ";

/// Writes descriptions of chapters: what stands before the rows.
pub const INSERT_CHAPTERS_HEAD: &'static str = "INSERT INTO chapter_informations (source_id, manga_id, chapter_id, manga_order, title, scanlator, chapter_number, volume_number, last_updated, thumbnail, lang, locked)";

/// Writes descriptions of chapters: what stands behind the rows.
pub const INSERT_CHAPTERS_TAIL: &'static str = " ON CONFLICT DO UPDATE SET
manga_order = excluded.manga_order,
title = excluded.title,
scanlator = excluded.scanlator,
chapter_number = excluded.chapter_number,
volume_number = excluded.volume_number,
last_updated = excluded.last_updated";

/// The cached details of a manga.
pub const FIND_MANGA_DETAILS: &'static str = r#"SELECT
md.*,
COALESCE(AVG(cs.read), 0) AS "per_read: f64",
COALESCE(
    MAX(cs.last_read),
    0
) AS "last_read: i64"
FROM manga_details md
LEFT JOIN chapter_state cs
ON cs.source_id = md.source_id
AND cs.manga_id = md.id
WHERE md.source_id = ?1 AND md.id = ?2
GROUP BY md.source_id, md.id"#;

/// Writes the details of a manga.
pub const UPSERT_MANGA_DETAILS: &'static str = "INSERT INTO manga_details (
    source_id,
    id,
    title,
    author,
    artist,
    description,
    tags,
    cover_url,
    url,
    status,
    nsfw,
    viewer,
    last_updated,
    last_opened,
    date_added
)
VALUES (?1, ?2, ?3, ?4, ?5, ?6, ?7, ?8, ?9, ?10, ?11, ?12, ?13, ?14, ?15)
ON CONFLICT(source_id, id) DO UPDATE SET
title        = excluded.title,
author       = excluded.author,
artist       = excluded.artist,
description  = excluded.description,
tags         = excluded.tags,
cover_url    = excluded.cover_url,
url          = excluded.url,
status       = excluded.status,
nsfw         = excluded.nsfw,
viewer       = excluded.viewer,
last_updated = excluded.last_updated,
last_opened  = excluded.last_opened,
date_added   = excluded.date_added";

/// What the reader has settled for a manga.
pub const FIND_MANGA_STATE: &'static str = "SELECT source_id, manga_id, preferred_scanlator
FROM manga_state
WHERE source_id = ?1 AND manga_id = ?2;";

/// Writes what the reader has settled for a manga.
pub const UPSERT_MANGA_STATE: &'static str = "INSERT INTO manga_state (source_id, manga_id, preferred_scanlator)
VALUES (?1, ?2, ?3)
ON CONFLICT DO UPDATE SET
preferred_scanlator = excluded.preferred_scanlator";

/// What the reader has done with a chapter.
pub const FIND_CHAPTER_STATE: &'static str = r#"SELECT source_id, manga_id, chapter_id, read AS "read: bool", last_read AS "last_read?: i64" FROM chapter_state
WHERE source_id = ?1 AND manga_id = ?2 AND chapter_id = ?3;"#;

/// What the reader has done with the chapters of a manga.
pub const FIND_CHAPTER_STATES: &'static str = r#"SELECT source_id, manga_id, chapter_id, read AS "read: bool", last_read AS "last_read?: i64" FROM chapter_state
WHERE source_id = ?1 AND manga_id = ?2;"#;

/// Writes what the reader has done with a chapter.
pub const UPSERT_CHAPTER_STATE: &'static str = "INSERT INTO chapter_state (source_id, manga_id, chapter_id, read, last_read)
VALUES (?1, ?2, ?3, ?4, ?5)
ON CONFLICT DO UPDATE SET
read = excluded.read,
last_read = excluded.last_read";

/// Marks a chapter as read or unread.
pub const MARK_CHAPTER_AS_READ: &'static str = "INSERT INTO chapter_state (source_id, manga_id, chapter_id, read, last_read)
VALUES (?1, ?2, ?3, ?4, ?5)
ON CONFLICT DO UPDATE SET
read = excluded.read,
last_read = CASE
WHEN excluded.read = TRUE THEN excluded.last_read
ELSE NULL
END";

/// Notes when a chapter was last opened.
pub const UPDATE_LAST_READ_CHAPTER: &'static str = "INSERT INTO chapter_state (source_id, manga_id, chapter_id, read, last_read)
VALUES (?1, ?2, ?3, FALSE, ?4)
ON CONFLICT DO UPDATE SET
last_read = excluded.last_read";

/// When a manga was last checked for chapters.
pub const FIND_LAST_CHECK: &'static str = "SELECT last_check, next_ts_arima FROM last_check_update WHERE source_id = ?1 AND manga_id = ?2";

/// Writes when a manga was last checked for chapters.
pub const SET_LAST_CHECK: &'static str = "INSERT INTO last_check_update (
    source_id,
    manga_id,
    last_check,
    next_ts_arima
) VALUES (?1, ?2, ?3, ?4)
ON CONFLICT(source_id, manga_id) DO UPDATE SET
last_check = excluded.last_check,
next_ts_arima = excluded.next_ts_arima";

/// Forgets when a manga was last checked for chapters.
pub const DELETE_LAST_CHECK: &'static str = "DELETE FROM last_check_update WHERE source_id = ?1 AND manga_id = ?2";

/// Writes notifications: what stands before the rows.
pub const INSERT_NOTIFICATIONS: &'static str = "INSERT INTO notifications (source_id, manga_id, chapter_id, created_at) VALUES ";

/// The manga to be checked next: what stands before the condition.
pub const NEXT_CHECK_HEAD: &'static str = "SELECT manga_id, source_id, next_ts_arima
FROM last_check_update
WHERE next_ts_arima IS NOT NULL
";

/// The manga to be checked next: what stands behind the condition.
pub const NEXT_CHECK_TAIL: &'static str = "
ORDER BY next_ts_arima ASC
LIMIT 1";

/// Leaves sources out: what stands before their placeholders.
pub const NEXT_CHECK_SKIP: &'static str = "AND source_id NOT IN (";

/// The mangas that are due for a check.
pub const DUE_MANGAS: &'static str = "SELECT
ml.manga_id, ml.source_id, md.status
FROM
last_check_update ml
LEFT JOIN manga_details md
ON ml.manga_id = md.id AND
ml.source_id = md.source_id
WHERE ml.next_ts_arima <= ?1";

/// Counts the unread notifications.
pub const COUNT_NOTIFICATIONS: &'static str = r#"SELECT
COUNT(*) as "count: i32"
FROM
notifications
WHERE is_read = 0"#;

/// The unread notifications.
pub const FIND_NOTIFICATIONS: &'static str = "SELECT
n.id,
n.source_id,
n.manga_id,
n.chapter_id,
mi.title AS manga_title,
md.cover_url AS manga_cover,
md.status AS manga_status,
ci.title AS chapter_title,
ci.chapter_number,
n.created_at
FROM
notifications n
LEFT JOIN manga_informations mi
ON mi.manga_id = n.manga_id AND mi.source_id = n.source_id
LEFT JOIN manga_details md
ON md.id = n.manga_id AND md.source_id = n.source_id
LEFT JOIN chapter_informations ci
ON ci.manga_id = n.manga_id AND ci.source_id = n.source_id AND ci.chapter_id = n.chapter_id
WHERE
n.is_read = 0
ORDER BY
n.created_at DESC";

/// Deletes a notification.
pub const DELETE_NOTIFICATION: &'static str = "DELETE FROM notifications WHERE id = ?1";

/// Deletes all notifications.
pub const CLEAR_NOTIFICATIONS: &'static str = "DELETE FROM notifications WHERE 1 = 1";

/// Marks chapters: what stands before the rows.
pub const SET_READ_STATE_HEAD: &'static str = "INSERT INTO chapter_state (source_id, manga_id, chapter_id, read)
VALUES
";

/// Marks chapters: what stands behind the rows.
pub const SET_READ_STATE_TAIL: &'static str = "
ON CONFLICT (source_id, manga_id, chapter_id)
DO UPDATE SET
read = excluded.read,
last_read = CASE
WHEN excluded.read = TRUE THEN chapter_state.last_read
ELSE NULL
END";

/// The playlists.
pub const FIND_PLAYLISTS: &'static str = "SELECT id, name FROM playlists";

/// Creates a playlist.
pub const CREATE_PLAYLIST: &'static str = "INSERT INTO playlists (name) VALUES (?1) RETURNING id";

/// Deletes a playlist.
pub const DELETE_PLAYLIST: &'static str = "DELETE FROM playlists WHERE id = ?1";

/// Renames a playlist.
pub const RENAME_PLAYLIST: &'static str = "UPDATE playlists SET name = ?1 WHERE id = ?2";

/// Puts a manga into a playlist.
pub const ADD_MANGA_TO_PLAYLIST: &'static str = "INSERT INTO playlist_mangas (playlist_id, source_id, manga_id) VALUES (?1, ?2, ?3) ON CONFLICT DO NOTHING";

/// Takes a manga out of a playlist.
pub const REMOVE_MANGA_FROM_PLAYLIST: &'static str = "DELETE FROM playlist_mangas WHERE playlist_id = ?1 AND source_id = ?2 AND manga_id = ?3";

}
