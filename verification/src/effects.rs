//! What the statements of the library are for: what SQL says of their texts, on tables as
//! maps, and what follows of a database that does what SQL says.
use vstd::prelude::*;

use crate::model::ChapterState;
use crate::statement::{placeholder_rows, BindView};
use crate::tables::{bound_text, bound_true, states_marked};

verus! {

/// What is kept of a check of a manga: when it was made, and when the next is due.
pub struct Check {
    pub last: i64,
    pub next: i64,
}

/// A notification.
pub struct Notification {
    pub chapter: (Seq<char>, Seq<char>, Seq<char>),
    pub created_at: i64,
}

/// The tables of the database, each by its key.
pub struct Store {
    /// `manga_library`.
    pub library: Set<(Seq<char>, Seq<char>)>,
    /// `manga_state`: the scanlator that is preferred.
    pub preferred: Map<(Seq<char>, Seq<char>), Option<Seq<char>>>,
    /// `chapter_state`.
    pub states: Map<(Seq<char>, Seq<char>, Seq<char>), ChapterState>,
    /// `last_check_update`.
    pub checks: Map<(Seq<char>, Seq<char>), Check>,
    /// `playlists`: the name of each.
    pub playlists: Map<i64, Seq<char>>,
    /// `playlist_mangas`.
    pub members: Set<(i64, (Seq<char>, Seq<char>))>,
    /// `notifications`: those that are unread.
    pub notifications: Map<i64, Notification>,
    /// `manga_details`: the columns behind the key.
    pub details: Map<(Seq<char>, Seq<char>), Seq<BindView>>,
    /// `manga_informations`: the columns behind the key.
    pub mangas: Map<(Seq<char>, Seq<char>), Seq<BindView>>,
    /// `chapter_informations`: the columns behind the key.
    pub chapters: Map<(Seq<char>, Seq<char>, Seq<char>), Seq<BindView>>,
}

/// The number that is bound.
pub open spec fn bound_number(bind: BindView) -> i64 {
    match bind {
        BindView::Integer(n) => n,
        _ => 0,
    }
}

/// The number that is bound, where it is one.
pub open spec fn bound_optional_number(bind: BindView) -> Option<i64> {
    match bind {
        BindView::OptionalInteger(n) => n,
        _ => None,
    }
}

/// The text that is bound, where it is one.
pub open spec fn bound_optional_text(bind: BindView) -> Option<Seq<char>> {
    match bind {
        BindView::OptionalText(t) => t,
        _ => None,
    }
}

/// The manga that values from a place on name.
pub open spec fn bound_manga(binds: Seq<BindView>, n: int) -> (Seq<char>, Seq<char>) {
    (bound_text(binds[n]), bound_text(binds[n + 1]))
}

/// The chapter that values from a place on name.
pub open spec fn bound_chapter(binds: Seq<BindView>, n: int) -> (Seq<char>, Seq<char>, Seq<char>) {
    (bound_text(binds[n]), bound_text(binds[n + 1]), bound_text(binds[n + 2]))
}

/// `manga_informations` after rows of six values were written: each takes the place of the
/// row with its key.
pub open spec fn mangas_written(
    table: Map<(Seq<char>, Seq<char>), Seq<BindView>>,
    binds: Seq<BindView>,
) -> Map<(Seq<char>, Seq<char>), Seq<BindView>>
    decreases binds.len(),
{
    if binds.len() < 6 {
        table
    } else {
        let n: int = binds.len() - 6;
        mangas_written(table, binds.take(n)).insert(bound_manga(binds, n), binds.skip(n + 2))
    }
}

/// `chapter_informations` after rows of twelve values were written. Of a row that is there
/// the thumbnail, the language and whether it is locked stay.
pub open spec fn chapters_written(
    table: Map<(Seq<char>, Seq<char>, Seq<char>), Seq<BindView>>,
    binds: Seq<BindView>,
) -> Map<(Seq<char>, Seq<char>, Seq<char>), Seq<BindView>>
    decreases binds.len(),
{
    if binds.len() < 12 {
        table
    } else {
        let n: int = binds.len() - 12;
        let before = chapters_written(table, binds.take(n));
        let key = bound_chapter(binds, n);
        before.insert(
            key,
            if before.dom().contains(key) {
                binds.subrange(n + 3, n + 9) + before[key].skip(6)
            } else {
                binds.skip(n + 3)
            },
        )
    }
}

/// What SQL says of a statement that changes tables: how they are after it, where this is
/// how they were.
pub open spec fn changes(
    statement: (Seq<char>, Seq<BindView>),
    before: Store,
    after: Store,
) -> bool {
    let text = statement.0;
    let binds = statement.1;
    &&& text == "INSERT INTO manga_library (source_id, manga_id)
VALUES (?1, ?2)
ON CONFLICT DO NOTHING"@ ==> after == (Store {
        library: before.library.insert(bound_manga(binds, 0)),
        ..before
    })
    &&& text == "DELETE FROM manga_library
WHERE source_id = ?1 AND manga_id = ?2"@ ==> after == (Store {
        library: before.library.remove(bound_manga(binds, 0)),
        ..before
    })
    &&& text == "INSERT INTO manga_state (source_id, manga_id, preferred_scanlator)
VALUES (?1, ?2, ?3)
ON CONFLICT DO UPDATE SET
preferred_scanlator = excluded.preferred_scanlator"@ ==> after == (Store {
        preferred: before.preferred.insert(bound_manga(binds, 0), bound_optional_text(binds[2])),
        ..before
    })
    &&& text == "INSERT INTO chapter_state (source_id, manga_id, chapter_id, read, last_read)
VALUES (?1, ?2, ?3, ?4, ?5)
ON CONFLICT DO UPDATE SET
read = excluded.read,
last_read = excluded.last_read"@ ==> after == (Store {
        states: before.states.insert(
            bound_chapter(binds, 0),
            ChapterState {
                read: bound_true(binds[3]),
                last_read: bound_optional_number(binds[4]),
            },
        ),
        ..before
    })
    &&& text == "INSERT INTO chapter_state (source_id, manga_id, chapter_id, read, last_read)
VALUES (?1, ?2, ?3, ?4, ?5)
ON CONFLICT DO UPDATE SET
read = excluded.read,
last_read = CASE
WHEN excluded.read = TRUE THEN excluded.last_read
ELSE NULL
END"@ ==> after == (Store {
        states: before.states.insert(
            bound_chapter(binds, 0),
            ChapterState {
                read: bound_true(binds[3]),
                last_read: if bound_true(binds[3]) || !before.states.dom().contains(
                    bound_chapter(binds, 0),
                ) {
                    bound_optional_number(binds[4])
                } else {
                    None
                },
            },
        ),
        ..before
    })
    &&& text == "INSERT INTO chapter_state (source_id, manga_id, chapter_id, read, last_read)
VALUES (?1, ?2, ?3, FALSE, ?4)
ON CONFLICT DO UPDATE SET
last_read = excluded.last_read"@ ==> after == (Store {
        states: before.states.insert(
            bound_chapter(binds, 0),
            ChapterState {
                read: before.states.dom().contains(bound_chapter(binds, 0))
                    && before.states[bound_chapter(binds, 0)].read,
                last_read: Some(bound_number(binds[3])),
            },
        ),
        ..before
    })
    &&& text == "INSERT INTO last_check_update (
    source_id,
    manga_id,
    last_check,
    next_ts_arima
) VALUES (?1, ?2, ?3, ?4)
ON CONFLICT(source_id, manga_id) DO UPDATE SET
last_check = excluded.last_check,
next_ts_arima = excluded.next_ts_arima"@ ==> after == (Store {
        checks: before.checks.insert(
            bound_manga(binds, 0),
            Check { last: bound_number(binds[2]), next: bound_number(binds[3]) },
        ),
        ..before
    })
    &&& text == "DELETE FROM last_check_update WHERE source_id = ?1 AND manga_id = ?2"@ ==> after == (Store { checks: before.checks.remove(bound_manga(binds, 0)), ..before })
    &&& text == "DELETE FROM notifications WHERE id = ?1"@ ==> after == (Store {
        notifications: before.notifications.remove(bound_number(binds[0])),
        ..before
    })
    &&& text == "DELETE FROM notifications WHERE 1 = 1"@ ==> after == (Store { notifications: Map::empty(), ..before })
    &&& text == "UPDATE playlists SET name = ?1 WHERE id = ?2"@ ==> after == (Store {
        playlists: if before.playlists.dom().contains(bound_number(binds[1])) {
            before.playlists.insert(bound_number(binds[1]), bound_text(binds[0]))
        } else {
            before.playlists
        },
        ..before
    })
    &&& text == "INSERT INTO playlist_mangas (playlist_id, source_id, manga_id) VALUES (?1, ?2, ?3) ON CONFLICT DO NOTHING"@ ==> after == (Store {
        members: before.members.insert((bound_number(binds[0]), bound_manga(binds, 1))),
        ..before
    })
    &&& text == "DELETE FROM playlist_mangas WHERE playlist_id = ?1 AND source_id = ?2 AND manga_id = ?3"@ ==> after == (Store {
        members: before.members.remove((bound_number(binds[0]), bound_manga(binds, 1))),
        ..before
    })
    &&& text == "INSERT INTO manga_details (
    source_id,
    id,
    title,
    author,
    artist,
    description,
    tags,
    cover_url,
    url,
    status,
    nsfw,
    viewer,
    last_updated,
    last_opened,
    date_added
)
VALUES (?1, ?2, ?3, ?4, ?5, ?6, ?7, ?8, ?9, ?10, ?11, ?12, ?13, ?14, ?15)
ON CONFLICT(source_id, id) DO UPDATE SET
title        = excluded.title,
author       = excluded.author,
artist       = excluded.artist,
description  = excluded.description,
tags         = excluded.tags,
cover_url    = excluded.cover_url,
url          = excluded.url,
status       = excluded.status,
nsfw         = excluded.nsfw,
viewer       = excluded.viewer,
last_updated = excluded.last_updated,
last_opened  = excluded.last_opened,
date_added   = excluded.date_added"@ ==> after == (Store { details: before.details.insert(bound_manga(binds, 0), binds.skip(2)), ..before })
    &&& text == "DELETE FROM playlists WHERE id = ?1"@ ==> after.playlists == before.playlists.remove(
        bound_number(binds[0]),
    )
    &&& forall|n: nat|
        text == "INSERT INTO chapter_state (source_id, manga_id, chapter_id, read)
VALUES
"@ + #[trigger] placeholder_rows(n, 4)
            + "
ON CONFLICT (source_id, manga_id, chapter_id)
DO UPDATE SET
read = excluded.read,
last_read = CASE
WHEN excluded.read = TRUE THEN chapter_state.last_read
ELSE NULL
END"@ ==> after == (Store {
            states: states_marked(before.states, binds),
            ..before
        })
    &&& forall|n: nat|
        text == "INSERT INTO manga_informations (
    source_id, manga_id, title, author, artist, cover_url
)
VALUES "@ + #[trigger] placeholder_rows(n, 6)
            + "
ON CONFLICT(source_id, manga_id) DO UPDATE SET
title = excluded.title,
author = excluded.author,
artist = excluded.artist,
cover_url = excluded.cover_url"@ ==> after == (Store {
            mangas: mangas_written(before.mangas, binds),
            ..before
        })
    &&& forall|n: nat|
        text == "INSERT INTO chapter_informations (source_id, manga_id, chapter_id, manga_order, title, scanlator, chapter_number, volume_number, last_updated, thumbnail, lang, locked)"@ + ("VALUES "@ + #[trigger] placeholder_rows(n, 12))
            + " ON CONFLICT DO UPDATE SET
manga_order = excluded.manga_order,
title = excluded.title,
scanlator = excluded.scanlator,
chapter_number = excluded.chapter_number,
volume_number = excluded.volume_number,
last_updated = excluded.last_updated"@ ==> after == (Store {
            chapters: chapters_written(before.chapters, binds),
            ..before
        })
    &&& forall|n: nat|
        text == "DELETE FROM chapter_informations WHERE source_id = "@ + "?"@ + " AND manga_id = "@ + "?"@ + " AND chapter_id IN "@ + (" ("@ + #[trigger] placeholder_rows(n, 1) + ") "@)
            ==> after == (Store {
            chapters: before.chapters.remove_keys(
                Set::new(
                    |k: (Seq<char>, Seq<char>, Seq<char>)|
                        k.0 == bound_text(binds[0]) && k.1 == bound_text(binds[1])
                            && binds.skip(2).contains(BindView::Text(k.2)),
                ),
            ),
            ..before
        })
    &&& forall|n: nat|
        text == "INSERT INTO notifications (source_id, manga_id, chapter_id, created_at) VALUES "@ + #[trigger] placeholder_rows(n, 4) ==> {
            &&& after == (Store { notifications: after.notifications, ..before })
            &&& forall|i: i64|
                before.notifications.dom().contains(i) ==> after.notifications.dom().contains(i)
                    && #[trigger] after.notifications[i] == before.notifications[i]
            &&& forall|j: int|
                0 <= j && 4 * j + 4 <= binds.len() ==> notified(
                    before,
                    after,
                    #[trigger] bound_chapter(binds, 4 * j),
                    bound_number(binds[4 * j + 3]),
                )
        }
}

/// Whether there is a new notification of a chapter, at a time.
pub open spec fn notified(
    before: Store,
    after: Store,
    chapter: (Seq<char>, Seq<char>, Seq<char>),
    at: i64,
) -> bool {
    exists|i: i64|
        !before.notifications.dom().contains(i) && #[trigger] after.notifications.dom().contains(i)
            && after.notifications[i] == (Notification { chapter, created_at: at })
}

}
