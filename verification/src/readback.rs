//! What is read of the database after it was written: the same.
use vstd::prelude::*;
use vstd::string::*;

use crate::database::{mark_binds, marked_read};
use crate::model::{ChapterInformation, ChapterState, MangaInformation, MangaState};
use crate::rows::{ChapterInformationsRow, ChapterStateRow, MangaInformationsRow, MangaStateRow};
use crate::source::url_kept;
use crate::statement::{chapter_binds, manga_binds, BindView};
use crate::text::optional_text;
use crate::upserts::{chapter_row, manga_row};

verus! {

/// Whether a row holds the values with which the description of a manga is written.
pub open spec fn holds_manga(row: MangaInformationsRow, binds: Seq<BindView>) -> bool {
    binds == seq![
        BindView::Text(row.source_id@),
        BindView::Text(row.manga_id@),
        BindView::OptionalText(optional_text(row.title)),
        BindView::OptionalText(optional_text(row.author)),
        BindView::OptionalText(optional_text(row.artist)),
        BindView::OptionalText(optional_text(row.cover_url)),
    ]
}

/// The description of a manga is read as it was written: a row that holds it can be
/// read, and says the same. Its cover must be at a URL, in the text that URLs have.
pub proof fn lemma_manga_information_reads_back(
    info: MangaInformation,
    row: MangaInformationsRow,
    back: MangaInformation,
)
    requires
        url_kept(info.cover_url),
        holds_manga(row, manga_row(info)),
    ensures
        row.readable(),
        row.says(back) ==> {
            &&& back.id@ == info.id@
            &&& optional_text(back.title) == optional_text(info.title)
            &&& optional_text(back.author) == optional_text(info.author)
            &&& optional_text(back.artist) == optional_text(info.artist)
            &&& optional_text(back.cover_url) == optional_text(info.cover_url)
        },
{
    let binds = manga_row(info);
    assert(binds[0] == BindView::Text(row.source_id@));
    assert(binds[1] == BindView::Text(row.manga_id@));
    assert(binds[2] == BindView::OptionalText(optional_text(row.title)));
    assert(binds[3] == BindView::OptionalText(optional_text(row.author)));
    assert(binds[4] == BindView::OptionalText(optional_text(row.artist)));
    assert(binds[5] == BindView::OptionalText(optional_text(row.cover_url)));
}

/// Whether a row holds the values with which the description of a chapter is written.
pub open spec fn holds_chapter(row: ChapterInformationsRow, binds: Seq<BindView>) -> bool {
    binds == seq![
        BindView::Text(row.source_id@),
        BindView::Text(row.manga_id@),
        BindView::Text(row.chapter_id@),
        BindView::Integer(row.manga_order),
        BindView::OptionalText(optional_text(row.title)),
        BindView::OptionalText(optional_text(row.scanlator)),
        BindView::OptionalNumber(optional_text(row.chapter_number)),
        BindView::OptionalNumber(optional_text(row.volume_number)),
        BindView::OptionalInteger(row.last_updated),
        BindView::OptionalText(optional_text(row.thumbnail)),
        BindView::OptionalText(optional_text(row.lang)),
        BindView::Integer(row.locked),
    ]
}

/// The description of a chapter is read as it was written, but for its own URL, which
/// is not kept, and that a chapter of which it is not known whether it is locked is read
/// as one that is not. Its thumbnail must be at a URL, in the text that URLs have.
pub proof fn lemma_chapter_information_reads_back(
    info: ChapterInformation,
    place: int,
    row: ChapterInformationsRow,
    back: ChapterInformation,
)
    requires
        url_kept(info.thumbnail),
        holds_chapter(row, chapter_row(info, place)),
        row.says(back),
    ensures
        back.id@ == info.id@,
        optional_text(back.title) == optional_text(info.title),
        optional_text(back.scanlator) == optional_text(info.scanlator),
        optional_text(back.chapter_number) == optional_text(info.chapter_number),
        optional_text(back.volume_number) == optional_text(info.volume_number),
        back.last_updated == info.last_updated,
        optional_text(back.thumbnail) == optional_text(info.thumbnail),
        optional_text(back.lang) == optional_text(info.lang),
        back.url is None,
        back.locked == Some(info.locked == Some(true)),
        row.manga_order == place as i64,
{
    let binds = chapter_row(info, place);
    assert(binds[0] == BindView::Text(row.source_id@));
    assert(binds[1] == BindView::Text(row.manga_id@));
    assert(binds[2] == BindView::Text(row.chapter_id@));
    assert(binds[3] == BindView::Integer(row.manga_order));
    assert(binds[4] == BindView::OptionalText(optional_text(row.title)));
    assert(binds[5] == BindView::OptionalText(optional_text(row.scanlator)));
    assert(binds[6] == BindView::OptionalNumber(optional_text(row.chapter_number)));
    assert(binds[7] == BindView::OptionalNumber(optional_text(row.volume_number)));
    assert(binds[8] == BindView::OptionalInteger(row.last_updated));
    assert(binds[9] == BindView::OptionalText(optional_text(row.thumbnail)));
    assert(binds[10] == BindView::OptionalText(optional_text(row.lang)));
    assert(binds[11] == BindView::Integer(row.locked));
}

/// Whether a row holds the values with which the state of a manga is written.
pub open spec fn holds_manga_state(row: MangaStateRow, binds: Seq<BindView>) -> bool {
    binds == seq![
        BindView::Text(row.source_id@),
        BindView::Text(row.manga_id@),
        BindView::OptionalText(optional_text(row.preferred_scanlator)),
    ]
}

/// The state of a manga is read as it was written.
pub proof fn lemma_manga_state_reads_back(
    id: (Seq<char>, Seq<char>),
    state: MangaState,
    row: MangaStateRow,
)
    requires
        holds_manga_state(
            row,
            manga_binds(id).push(BindView::OptionalText(optional_text(state.preferred_scanlator))),
        ),
    ensures
        row.source_id@ == id.0,
        row.manga_id@ == id.1,
        optional_text(row.preferred_scanlator) == optional_text(state.preferred_scanlator),
{
    let binds = manga_binds(id).push(
        BindView::OptionalText(optional_text(state.preferred_scanlator)),
    );
    assert(binds[0] == BindView::Text(row.source_id@));
    assert(binds[1] == BindView::Text(row.manga_id@));
    assert(binds[2] == BindView::OptionalText(optional_text(row.preferred_scanlator)));
}

/// Whether a row holds the values with which the state of a chapter is written.
pub open spec fn holds_chapter_state(row: ChapterStateRow, binds: Seq<BindView>) -> bool {
    binds == seq![
        BindView::Text(row.source_id@),
        BindView::Text(row.manga_id@),
        BindView::Text(row.chapter_id@),
        BindView::Boolean(row.read),
        BindView::OptionalInteger(row.last_read),
    ]
}

/// The state of a chapter is read as it was written.
pub proof fn lemma_chapter_state_reads_back(
    id: (Seq<char>, Seq<char>, Seq<char>),
    state: ChapterState,
    row: ChapterStateRow,
)
    requires
        holds_chapter_state(
            row,
            chapter_binds(id) + seq![
                BindView::Boolean(state.read),
                BindView::OptionalInteger(state.last_read),
            ],
        ),
    ensures
        (row.source_id@, row.manga_id@, row.chapter_id@) == id,
        state == (ChapterState { read: row.read, last_read: row.last_read }),
{
    let binds = chapter_binds(id) + seq![
        BindView::Boolean(state.read),
        BindView::OptionalInteger(state.last_read),
    ];
    assert(binds[0] == BindView::Text(row.source_id@));
    assert(binds[1] == BindView::Text(row.manga_id@));
    assert(binds[2] == BindView::Text(row.chapter_id@));
    assert(binds[3] == BindView::Boolean(row.read));
    assert(binds[4] == BindView::OptionalInteger(row.last_read));
}

/// A chapter that was marked is read as it was marked; one that was marked as unread
/// has no time at which it was read.
pub proof fn lemma_mark_reads_back(
    id: (Seq<char>, Seq<char>, Seq<char>),
    value: Option<bool>,
    now: i64,
    row: ChapterStateRow,
)
    requires
        holds_chapter_state(row, mark_binds(id, value, now)),
    ensures
        (row.source_id@, row.manga_id@, row.chapter_id@) == id,
        row.read == marked_read(value),
        row.read ==> row.last_read == Some(now),
        !row.read ==> row.last_read is None,
{
    let binds = mark_binds(id, value, now);
    assert(binds[0] == BindView::Text(row.source_id@));
    assert(binds[1] == BindView::Text(row.manga_id@));
    assert(binds[2] == BindView::Text(row.chapter_id@));
    assert(binds[3] == BindView::Boolean(row.read));
    assert(binds[4] == BindView::OptionalInteger(row.last_read));
}

}
