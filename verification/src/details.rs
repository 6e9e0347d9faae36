//! Writing the details of a manga, and reading them back.
use vstd::prelude::*;
use vstd::string::*;

use crate::clock::{format_rfc3339, rfc3339_instant, rfc3339_text, Instant};
use crate::database::Database;
use crate::effects::{changes, Store};
use crate::model::MangaId;
use crate::rows::{optional_texts, MangaDetailsRow};
use crate::source::{instant_valid, Manga};
use crate::sql;
use crate::statement::{
    bind_integer, bind_manga, bind_optional_text, bind_views, manga_binds, no_binds, statement,
    BindView, Statement,
};
use crate::tags::{json_of_texts, texts_of_json, write_tags};
use crate::text::{optional_text, texts};

verus! {

/// The text of an optional list of tags.
pub open spec fn tags_text(tags: Option<Vec<String>>) -> Option<Seq<char>> {
    match tags {
        Some(tags) => Some(json_of_texts(texts(tags@))),
        None => None,
    }
}

/// The text of an optional time.
pub open spec fn instant_text(t: Option<Instant>) -> Option<Seq<char>> {
    match t {
        Some(t) => Some(rfc3339_text(t.seconds, t.nanos)),
        None => None,
    }
}

/// The values for the details of a manga.
pub open spec fn details_binds(id: (Seq<char>, Seq<char>), manga: Manga) -> Seq<BindView> {
    manga_binds(id) + seq![
        BindView::OptionalText(optional_text(manga.title)),
        BindView::OptionalText(optional_text(manga.author)),
        BindView::OptionalText(optional_text(manga.artist)),
        BindView::OptionalText(optional_text(manga.description)),
        BindView::OptionalText(tags_text(manga.tags)),
        BindView::OptionalText(optional_text(manga.cover_url)),
        BindView::OptionalText(optional_text(manga.url)),
        BindView::Integer(manga.status as i64),
        BindView::Integer(manga.nsfw as i64),
        BindView::Integer(manga.viewer as i64),
        BindView::OptionalText(instant_text(manga.last_updated)),
        BindView::OptionalText(instant_text(manga.last_opened)),
        BindView::OptionalText(instant_text(manga.date_added)),
    ]
}

/// Whether the text of an optional list of tags is read as that list.
pub open spec fn tags_read_back(tags: Option<Vec<String>>) -> bool {
    tags matches Some(tags) ==> texts_of_json(json_of_texts(texts(tags@))) == Some(texts(tags@))
}

/// Whether the text of an optional time is read as that time.
pub open spec fn instant_reads_back(t: Option<Instant>) -> bool {
    t matches Some(t) ==> (t.ordinary() ==> rfc3339_instant(rfc3339_text(t.seconds, t.nanos))
        == Some(t))
}

/// Whether the tags of a manga, and those of its times that are ordinary, are read as
/// they were written.
pub open spec fn reads_back(manga: Manga) -> bool {
    &&& tags_read_back(manga.tags)
    &&& instant_reads_back(manga.last_updated)
    &&& instant_reads_back(manga.last_opened)
    &&& instant_reads_back(manga.date_added)
}

/// Writes an optional list of tags.
fn write_optional_tags(tags: &Option<Vec<String>>) -> (r: Option<String>)
    ensures
        optional_text(r) == tags_text(*tags),
        tags_read_back(*tags),
{
    match tags {
        Some(tags) => Some(write_tags(tags)),
        None => None,
    }
}

/// Writes an optional time.
fn write_optional_instant(t: Option<Instant>) -> (r: Option<String>)
    requires
        instant_valid(t),
    ensures
        optional_text(r) == instant_text(t),
        instant_reads_back(t),
{
    match t {
        Some(t) => Some(format_rfc3339(t)),
        None => None,
    }
}

impl Database {
    /// Writes the details of a manga. When it was last read is not written.
    pub fn upsert_cached_manga_details(&self, manga_id: &MangaId, manga: &Manga) -> (r: Statement)
        requires
            manga.valid(),
        ensures
            r.is(sql::UPSERT_MANGA_DETAILS@, details_binds(manga_id@, *manga)),
            reads_back(*manga),
            forall|before: Store, after: Store| #[trigger]
                changes(r@, before, after) ==> after == (Store {
                    details: before.details.insert(
                        manga_id@,
                        details_binds(manga_id@, *manga).skip(2),
                    ),
                    ..before
                }),
    {
        let tags = write_optional_tags(&manga.tags);
        let last_updated = write_optional_instant(manga.last_updated);
        let last_opened = write_optional_instant(manga.last_opened);
        let date_added = write_optional_instant(manga.date_added);
        let mut binds = no_binds();
        bind_manga(&mut binds, manga_id);
        bind_optional_text(&mut binds, &manga.title);
        bind_optional_text(&mut binds, &manga.author);
        bind_optional_text(&mut binds, &manga.artist);
        bind_optional_text(&mut binds, &manga.description);
        bind_optional_text(&mut binds, &tags);
        bind_optional_text(&mut binds, &manga.cover_url);
        bind_optional_text(&mut binds, &manga.url);
        bind_integer(&mut binds, manga.status as i64);
        bind_integer(&mut binds, manga.nsfw as i64);
        bind_integer(&mut binds, manga.viewer as i64);
        bind_optional_text(&mut binds, &last_updated);
        bind_optional_text(&mut binds, &last_opened);
        bind_optional_text(&mut binds, &date_added);
        assert(bind_views(binds@) =~= details_binds(manga_id@, *manga));
        statement(sql::UPSERT_MANGA_DETAILS, binds)
    }
}

/// Whether a row holds the values of a statement that writes details.
pub open spec fn row_holds(row: MangaDetailsRow, binds: Seq<BindView>) -> bool {
    binds == seq![
        BindView::Text(row.source_id@),
        BindView::Text(row.id@),
        BindView::OptionalText(optional_text(row.title)),
        BindView::OptionalText(optional_text(row.author)),
        BindView::OptionalText(optional_text(row.artist)),
        BindView::OptionalText(optional_text(row.description)),
        BindView::OptionalText(optional_text(row.tags)),
        BindView::OptionalText(optional_text(row.cover_url)),
        BindView::OptionalText(optional_text(row.url)),
        BindView::Integer(row.status),
        BindView::Integer(row.nsfw),
        BindView::Integer(row.viewer),
        BindView::OptionalText(optional_text(row.last_updated)),
        BindView::OptionalText(optional_text(row.last_opened)),
        BindView::OptionalText(optional_text(row.date_added)),
    ]
}

/// Whether two descriptions of a manga say the same, but for when it was last read.
pub open spec fn same_details(a: Manga, b: Manga) -> bool {
    &&& optional_text(a.title) == optional_text(b.title)
    &&& optional_text(a.author) == optional_text(b.author)
    &&& optional_text(a.artist) == optional_text(b.artist)
    &&& optional_text(a.description) == optional_text(b.description)
    &&& optional_texts(a.tags) == optional_texts(b.tags)
    &&& optional_text(a.cover_url) == optional_text(b.cover_url)
    &&& optional_text(a.url) == optional_text(b.url)
    &&& a.status == b.status
    &&& a.nsfw == b.nsfw
    &&& a.viewer == b.viewer
    &&& a.last_updated == b.last_updated
    &&& a.last_opened == b.last_opened
    &&& a.date_added == b.date_added
}

/// Details that were written are read back: a row that holds them can be read, and
/// says of the manga under which they were written what was written of it. Its URLs
/// must be texts of URLs, and its years from 0000 to 9999.
pub proof fn lemma_details_read_back(
    id: (Seq<char>, Seq<char>),
    manga: Manga,
    row: MangaDetailsRow,
    back: Manga,
)
    requires
        reads_back(manga),
        manga.ordinary(),
        row_holds(row, details_binds(id, manga)),
    ensures
        row.readable(),
        row.says(back) ==> back.source_id@ == id.0 && back.id@ == id.1 && same_details(back, manga),
{
    let binds = details_binds(id, manga);
    assert(binds.len() == 15);
    assert(binds[0] == BindView::Text(row.source_id@));
    assert(binds[1] == BindView::Text(row.id@));
    assert(binds[2] == BindView::OptionalText(optional_text(row.title)));
    assert(binds[3] == BindView::OptionalText(optional_text(row.author)));
    assert(binds[4] == BindView::OptionalText(optional_text(row.artist)));
    assert(binds[5] == BindView::OptionalText(optional_text(row.description)));
    assert(binds[6] == BindView::OptionalText(optional_text(row.tags)));
    assert(binds[7] == BindView::OptionalText(optional_text(row.cover_url)));
    assert(binds[8] == BindView::OptionalText(optional_text(row.url)));
    assert(binds[9] == BindView::Integer(row.status));
    assert(binds[10] == BindView::Integer(row.nsfw));
    assert(binds[11] == BindView::Integer(row.viewer));
    assert(binds[12] == BindView::OptionalText(optional_text(row.last_updated)));
    assert(binds[13] == BindView::OptionalText(optional_text(row.last_opened)));
    assert(binds[14] == BindView::OptionalText(optional_text(row.date_added)));
}

}
