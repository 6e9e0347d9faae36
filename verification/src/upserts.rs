//! Writing what sources say into the database.
use vstd::prelude::*;
use vstd::string::*;

use crate::database::{contains_chapter, Database};
use crate::model::{chapter_ids, ChapterId, ChapterInformation, MangaId, MangaInformation};
use crate::sql;
use crate::statement::{
    bind_chapter, bind_integer, bind_manga, bind_optional_integer, bind_optional_number,
    bind_optional_text, bind_text, bind_views, chapter_binds, lemma_placeholder_rows_count,
    manga_binds, no_binds, placeholder_rows, placeholders, statement_views, write_placeholder_rows, Bind, BindView,
    Statement,
};
use crate::text::{concat3, optional_text};

verus! {

/// How many values the database takes with one statement.
pub const BIND_LIMIT: usize = 32766;

/// How many descriptions of mangas are written with one statement.
pub const MAX_BATCH_SIZE: usize = 100;

/// How many chapters are deleted with one statement.
pub const REMOVE_CHUNK_SIZE: usize = BIND_LIMIT - 2;

/// By how many values the limit is divided for the descriptions of chapters.
pub const INSERT_FIELD_COUNT: usize = 8;

/// How many descriptions of chapters are written with one statement.
pub const CHUNK_SIZE: usize = BIND_LIMIT / INSERT_FIELD_COUNT;

/// The place where a part of a list ends that starts at a place.
pub open spec fn chunk_end(len: int, start: int, size: int) -> int {
    if start + size <= len {
        start + size
    } else {
        len
    }
}

/// The place where a part of a list ends that starts at a place.
fn find_chunk_end(len: usize, start: usize, size: usize) -> (r: usize)
    requires
        start <= len,
    ensures
        r == chunk_end(len as int, start as int, size as int),
{
    if size <= len - start {
        start + size
    } else {
        len
    }
}

/// The values for the description of a manga.
pub open spec fn manga_row(info: MangaInformation) -> Seq<BindView> {
    manga_binds(info.id@) + seq![
        BindView::OptionalText(optional_text(info.title)),
        BindView::OptionalText(optional_text(info.author)),
        BindView::OptionalText(optional_text(info.artist)),
        BindView::OptionalText(optional_text(info.cover_url)),
    ]
}

/// The values for descriptions of mangas, one row behind the other.
pub open spec fn manga_rows(infos: Seq<MangaInformation>) -> Seq<BindView>
    decreases infos.len(),
{
    if infos.len() == 0 {
        Seq::empty()
    } else {
        manga_rows(infos.drop_last()) + manga_row(infos.last())
    }
}

/// What is asked to write some descriptions of mangas at once.
pub open spec fn manga_batch(infos: Seq<MangaInformation>) -> (Seq<char>, Seq<BindView>) {
    (
        sql::UPSERT_MANGA_INFORMATION_HEAD@ + placeholder_rows(infos.len(), 6)
            + sql::UPSERT_MANGA_INFORMATION_TAIL@,
        manga_rows(infos),
    )
}

/// What is asked to write the descriptions of mangas from a place on.
pub open spec fn manga_batches(infos: Seq<MangaInformation>, start: int) -> Seq<
    (Seq<char>, Seq<BindView>),
>
    decreases infos.len() - start,
{
    if start >= infos.len() {
        Seq::empty()
    } else {
        let end = chunk_end(infos.len() as int, start, MAX_BATCH_SIZE as int);
        seq![manga_batch(infos.subrange(start, end))] + manga_batches(infos, end)
    }
}

/// The value for whether a chapter is locked.
pub open spec fn locked_value(locked: Option<bool>) -> i64 {
    if locked == Some(true) {
        1
    } else {
        0
    }
}

/// The values for the description of a chapter that stands at a place of its list.
pub open spec fn chapter_row(info: ChapterInformation, place: int) -> Seq<BindView> {
    chapter_binds(info.id@) + seq![
        BindView::Integer(place as i64),
        BindView::OptionalText(optional_text(info.title)),
        BindView::OptionalText(optional_text(info.scanlator)),
        BindView::OptionalNumber(optional_text(info.chapter_number)),
        BindView::OptionalNumber(optional_text(info.volume_number)),
        BindView::OptionalInteger(info.last_updated),
        BindView::OptionalText(optional_text(info.thumbnail)),
        BindView::OptionalText(optional_text(info.lang)),
        BindView::Integer(locked_value(info.locked)),
    ]
}

/// The values for descriptions of chapters, one row behind the other, the first of
/// which stands at a place of the whole list.
pub open spec fn chapter_rows(infos: Seq<ChapterInformation>, start: int) -> Seq<BindView>
    decreases infos.len(),
{
    if infos.len() == 0 {
        Seq::empty()
    } else {
        chapter_rows(infos.drop_last(), start) + chapter_row(infos.last(), start + infos.len() - 1)
    }
}

/// What is asked to write some descriptions of chapters at once.
pub open spec fn chapter_batch(infos: Seq<ChapterInformation>, start: int) -> (
    Seq<char>,
    Seq<BindView>,
) {
    (
        sql::INSERT_CHAPTERS_HEAD@ + ("VALUES "@ + placeholder_rows(infos.len(), 12))
            + sql::INSERT_CHAPTERS_TAIL@,
        chapter_rows(infos, start),
    )
}

/// What is asked to write the descriptions of chapters from a place on.
pub open spec fn chapter_batches(infos: Seq<ChapterInformation>, start: int) -> Seq<
    (Seq<char>, Seq<BindView>),
>
    decreases infos.len() - start,
{
    if start >= infos.len() {
        Seq::empty()
    } else {
        let end = chunk_end(infos.len() as int, start, CHUNK_SIZE as int);
        seq![chapter_batch(infos.subrange(start, end), start)] + chapter_batches(infos, end)
    }
}

/// The chapters of `cached` that are not in `kept`, in order.
pub open spec fn removed_ids(
    cached: Seq<(Seq<char>, Seq<char>, Seq<char>)>,
    kept: Seq<(Seq<char>, Seq<char>, Seq<char>)>,
) -> Seq<(Seq<char>, Seq<char>, Seq<char>)>
    decreases cached.len(),
{
    if cached.len() == 0 {
        Seq::empty()
    } else {
        let front = removed_ids(cached.drop_last(), kept);
        if kept.contains(cached.last()) {
            front
        } else {
            front.push(cached.last())
        }
    }
}

/// The values for the ids of chapters in their manga.
pub open spec fn id_binds(ids: Seq<(Seq<char>, Seq<char>, Seq<char>)>) -> Seq<BindView> {
    ids.map_values(|id: (Seq<char>, Seq<char>, Seq<char>)| BindView::Text(id.2))
}

/// What is asked to delete some chapters of a manga at once.
pub open spec fn delete_batch(
    manga: (Seq<char>, Seq<char>),
    ids: Seq<(Seq<char>, Seq<char>, Seq<char>)>,
) -> (Seq<char>, Seq<BindView>) {
    (
        sql::DELETE_CHAPTERS_SOURCE@ + "?"@ + sql::DELETE_CHAPTERS_MANGA@ + "?"@
            + sql::DELETE_CHAPTERS_IDS@ + (" ("@ + placeholder_rows(ids.len(), 1) + ") "@),
        manga_binds(manga) + id_binds(ids),
    )
}

/// What is asked to delete the chapters of a manga from a place of a list on.
pub open spec fn delete_batches(
    manga: (Seq<char>, Seq<char>),
    ids: Seq<(Seq<char>, Seq<char>, Seq<char>)>,
    start: int,
) -> Seq<(Seq<char>, Seq<BindView>)>
    decreases ids.len() - start,
{
    if start >= ids.len() {
        Seq::empty()
    } else {
        let end = chunk_end(ids.len() as int, start, REMOVE_CHUNK_SIZE as int);
        seq![delete_batch(manga, ids.subrange(start, end))] + delete_batches(manga, ids, end)
    }
}

/// The ids of chapters that are described.
pub open spec fn described_ids(infos: Seq<ChapterInformation>) -> Seq<
    (Seq<char>, Seq<char>, Seq<char>),
> {
    infos.map_values(|info: ChapterInformation| info.id@)
}

/// Binds the description of a manga.
fn bind_manga_row(binds: &mut Vec<Bind>, info: &MangaInformation)
    ensures
        bind_views(final(binds)@) == bind_views(old(binds)@) + manga_row(*info),
{
    bind_manga(binds, &info.id);
    bind_optional_text(binds, &info.title);
    bind_optional_text(binds, &info.author);
    bind_optional_text(binds, &info.artist);
    bind_optional_text(binds, &info.cover_url);
    assert(bind_views(binds@) =~= bind_views(old(binds)@) + manga_row(*info));
}

/// Binds the description of a chapter that stands at a place of its list.
fn bind_chapter_row(binds: &mut Vec<Bind>, info: &ChapterInformation, place: usize)
    ensures
        bind_views(final(binds)@) == bind_views(old(binds)@) + chapter_row(*info, place as int),
{
    let locked: i64 = match info.locked {
        Some(true) => 1,
        _ => 0,
    };
    bind_chapter(binds, &info.id);
    bind_integer(
        binds,
        #[verifier::truncate]
        (place as i64),
    );
    bind_optional_text(binds, &info.title);
    bind_optional_text(binds, &info.scanlator);
    bind_optional_number(binds, &info.chapter_number);
    bind_optional_number(binds, &info.volume_number);
    bind_optional_integer(binds, info.last_updated);
    bind_optional_text(binds, &info.thumbnail);
    bind_optional_text(binds, &info.lang);
    bind_integer(binds, locked);
    assert(bind_views(binds@) =~= bind_views(old(binds)@) + chapter_row(*info, place as int));
}

/// Writes the statement for the descriptions of mangas between two places.
fn write_manga_batch(infos: &Vec<MangaInformation>, start: usize, end: usize) -> (r: Statement)
    requires
        start <= end <= infos@.len(),
    ensures
        r@ == manga_batch(infos@.subrange(start as int, end as int)),
{
    let rows = write_placeholder_rows(end - start, 6);
    let mut binds = no_binds();
    let mut i: usize = start;
    assert(infos@.subrange(start as int, start as int) =~= Seq::<MangaInformation>::empty());
    while i < end
        invariant
            start <= i <= end <= infos@.len(),
            bind_views(binds@) == manga_rows(infos@.subrange(start as int, i as int)),
        decreases end - i,
    {
        bind_manga_row(&mut binds, &infos[i]);
        assert(infos@.subrange(start as int, i + 1).drop_last() =~= infos@.subrange(
            start as int,
            i as int,
        ));
        i += 1;
    }
    Statement {
        sql: concat3(
            sql::UPSERT_MANGA_INFORMATION_HEAD,
            rows.as_str(),
            sql::UPSERT_MANGA_INFORMATION_TAIL,
        ),
        binds,
    }
}

/// Writes the statement for the descriptions of chapters between two places.
fn write_chapter_batch(infos: &Vec<ChapterInformation>, start: usize, end: usize) -> (r: Statement)
    requires
        start <= end <= infos@.len(),
    ensures
        r@ == chapter_batch(infos@.subrange(start as int, end as int), start as int),
{
    let mut values = "VALUES ".to_owned();
    values.append(write_placeholder_rows(end - start, 12).as_str());
    let mut binds = no_binds();
    let mut i: usize = start;
    assert(infos@.subrange(start as int, start as int) =~= Seq::<ChapterInformation>::empty());
    while i < end
        invariant
            start <= i <= end <= infos@.len(),
            bind_views(binds@) == chapter_rows(
                infos@.subrange(start as int, i as int),
                start as int,
            ),
        decreases end - i,
    {
        bind_chapter_row(&mut binds, &infos[i], i);
        assert(infos@.subrange(start as int, i + 1).drop_last() =~= infos@.subrange(
            start as int,
            i as int,
        ));
        i += 1;
    }
    Statement {
        sql: concat3(sql::INSERT_CHAPTERS_HEAD, values.as_str(), sql::INSERT_CHAPTERS_TAIL),
        binds,
    }
}

/// Writes the statement that deletes the chapters of a manga between two places of
/// a list.
fn write_delete_batch(
    manga_id: &MangaId,
    ids: &Vec<ChapterId>,
    start: usize,
    end: usize,
) -> (r: Statement)
    requires
        start <= end <= ids@.len(),
    ensures
        r@ == delete_batch(
            manga_id@,
            chapter_ids(ids@).subrange(start as int, end as int),
        ),
{
    let mut sql = sql::DELETE_CHAPTERS_SOURCE.to_owned();
    sql.append("?");
    sql.append(sql::DELETE_CHAPTERS_MANGA);
    sql.append("?");
    sql.append(sql::DELETE_CHAPTERS_IDS);
    let list = concat3(" (", write_placeholder_rows(end - start, 1).as_str(), ") ");
    sql.append(list.as_str());
    let mut binds = no_binds();
    bind_manga(&mut binds, manga_id);
    let ghost all = chapter_ids(ids@);
    assert(bind_views(binds@) =~= manga_binds(manga_id@) + id_binds(
        all.subrange(start as int, start as int),
    ));
    let mut i: usize = start;
    while i < end
        invariant
            start <= i <= end <= ids@.len(),
            all == chapter_ids(ids@),
            bind_views(binds@) == manga_binds(manga_id@) + id_binds(
                all.subrange(start as int, i as int),
            ),
        decreases end - i,
    {
        bind_text(&mut binds, ids[i].value().as_str());
        i += 1;
        assert(bind_views(binds@) =~= manga_binds(manga_id@) + id_binds(
            all.subrange(start as int, i as int),
        ));
    }
    Statement { sql, binds }
}

/// Collects the ids of chapters that are not described.
fn collect_removed(cached: &Vec<ChapterId>, infos: &Vec<ChapterInformation>) -> (r: Vec<ChapterId>)
    ensures
        chapter_ids(r@) == removed_ids(chapter_ids(cached@), described_ids(infos@)),
{
    let mut kept: Vec<ChapterId> = Vec::new();
    let mut i: usize = 0;
    while i < infos.len()
        invariant
            i <= infos.len(),
            chapter_ids(kept@) == described_ids(infos@.take(i as int)),
        decreases infos.len() - i,
    {
        let ghost before = kept@;
        kept.push(infos[i].id.copy());
        assert(chapter_ids(kept@) =~= chapter_ids(before).push(infos@[i as int].id@));
        assert(described_ids(infos@.take(i + 1)) =~= described_ids(infos@.take(i as int)).push(
            infos@[i as int].id@,
        ));
        i += 1;
    }
    assert(infos@.take(i as int) =~= infos@);
    let ghost all = chapter_ids(cached@);
    let mut removed: Vec<ChapterId> = Vec::new();
    let mut i: usize = 0;
    assert(chapter_ids(removed@) =~= removed_ids(all.take(0), described_ids(infos@)));
    while i < cached.len()
        invariant
            i <= cached.len(),
            all == chapter_ids(cached@),
            chapter_ids(kept@) == described_ids(infos@),
            chapter_ids(removed@) == removed_ids(all.take(i as int), described_ids(infos@)),
        decreases cached.len() - i,
    {
        let ghost before = removed@;
        assert(all.take(i + 1).drop_last() =~= all.take(i as int));
        if !contains_chapter(&kept, &cached[i]) {
            removed.push(cached[i].copy());
            assert(chapter_ids(removed@) =~= chapter_ids(before).push(cached@[i as int]@));
        }
        i += 1;
    }
    assert(all.take(i as int) =~= all);
    removed
}

impl Database {
    /// Writes descriptions of mangas, in batches.
    pub fn upsert_cached_manga_information(&self, manga_informations: &Vec<MangaInformation>) -> (r:
        Vec<Statement>)
        ensures
            statement_views(r@) == manga_batches(manga_informations@, 0),
    {
        let ghost all = manga_informations@;
        let mut r: Vec<Statement> = Vec::new();
        let mut start: usize = 0;
        assert(statement_views(r@) + manga_batches(all, 0) =~= manga_batches(all, 0));
        while start < manga_informations.len()
            invariant
                start <= manga_informations.len(),
                all == manga_informations@,
                statement_views(r@) + manga_batches(all, start as int) == manga_batches(all, 0),
            decreases manga_informations.len() - start,
        {
            let ghost before = statement_views(r@);
            let end: usize = find_chunk_end(manga_informations.len(), start, MAX_BATCH_SIZE);
            let batch = write_manga_batch(manga_informations, start, end);
            r.push(batch);
            assert(statement_views(r@) =~= before.push(batch@));
            assert(statement_views(r@) + manga_batches(all, end as int) =~= before + manga_batches(
                all,
                start as int,
            ));
            start = end;
        }
        assert(statement_views(r@) =~= manga_batches(all, 0));
        r
    }

    /// Writes the descriptions of the chapters of a manga, where `cached_chapter_ids`
    /// is what `find_cached_chapter_ids` has found for it: first the chapters that are
    /// gone are deleted, then those that there are are written, in batches.
    pub fn upsert_cached_chapter_informations(
        &self,
        manga_id: &MangaId,
        cached_chapter_ids: &Vec<ChapterId>,
        chapter_informations: &Vec<ChapterInformation>,
    ) -> (r: Vec<Statement>)
        ensures
            statement_views(r@) == delete_batches(
                manga_id@,
                removed_ids(chapter_ids(cached_chapter_ids@), described_ids(chapter_informations@)),
                0,
            ) + chapter_batches(chapter_informations@, 0),
    {
        let removed = collect_removed(cached_chapter_ids, chapter_informations);
        let ghost gone = chapter_ids(removed@);
        let ghost deletes = delete_batches(manga_id@, gone, 0);
        let mut r: Vec<Statement> = Vec::new();
        let mut start: usize = 0;
        assert(statement_views(r@) + deletes =~= deletes);
        while start < removed.len()
            invariant
                start <= removed.len(),
                gone == chapter_ids(removed@),
                statement_views(r@) + delete_batches(manga_id@, gone, start as int) == deletes,
            decreases removed.len() - start,
        {
            let ghost before = statement_views(r@);
            let end: usize = find_chunk_end(removed.len(), start, REMOVE_CHUNK_SIZE);
            let batch = write_delete_batch(manga_id, &removed, start, end);
            r.push(batch);
            assert(statement_views(r@) =~= before.push(batch@));
            assert(statement_views(r@) + delete_batches(manga_id@, gone, end as int) =~= before
                + delete_batches(manga_id@, gone, start as int));
            start = end;
        }
        assert(statement_views(r@) =~= deletes);
        let ghost all = chapter_informations@;
        let ghost writes = chapter_batches(all, 0);
        let mut start: usize = 0;
        while start < chapter_informations.len()
            invariant
                start <= chapter_informations.len(),
                all == chapter_informations@,
                statement_views(r@) + chapter_batches(all, start as int) == deletes + writes,
            decreases chapter_informations.len() - start,
        {
            let ghost before = statement_views(r@);
            let end: usize = find_chunk_end(chapter_informations.len(), start, CHUNK_SIZE);
            let batch = write_chapter_batch(chapter_informations, start, end);
            r.push(batch);
            assert(statement_views(r@) =~= before.push(batch@));
            assert(statement_views(r@) + chapter_batches(all, end as int) =~= before
                + chapter_batches(all, start as int));
            start = end;
        }
        assert(statement_views(r@) =~= deletes + writes);
        r
    }
}

proof fn lemma_manga_rows_len(infos: Seq<MangaInformation>)
    ensures
        manga_rows(infos).len() == 6 * infos.len(),
    decreases infos.len(),
{
    if infos.len() > 0 {
        lemma_manga_rows_len(infos.drop_last());
    }
}

proof fn lemma_chapter_rows_len(infos: Seq<ChapterInformation>, start: int)
    ensures
        chapter_rows(infos, start).len() == 12 * infos.len(),
    decreases infos.len(),
{
    if infos.len() > 0 {
        lemma_chapter_rows_len(infos.drop_last(), start);
    }
}

/// The placeholders in the rows of a batch are as many as the values of the batch,
/// whether it describes mangas or chapters or names chapters to be deleted.
pub proof fn lemma_batch_placeholders(
    mangas: Seq<MangaInformation>,
    chapters: Seq<ChapterInformation>,
    start: int,
    ids: Seq<(Seq<char>, Seq<char>, Seq<char>)>,
)
    ensures
        placeholders(placeholder_rows(mangas.len(), 6)) == manga_batch(mangas).1.len(),
        placeholders(placeholder_rows(chapters.len(), 12)) == chapter_batch(
            chapters,
            start,
        ).1.len(),
        placeholders(placeholder_rows(ids.len(), 1)) == id_binds(ids).len(),
{
    lemma_manga_rows_len(mangas);
    lemma_chapter_rows_len(chapters, start);
    lemma_placeholder_rows_count(mangas.len(), 6);
    lemma_placeholder_rows_count(chapters.len(), 12);
    lemma_placeholder_rows_count(ids.len(), 1);
}

/// No statement that describes mangas takes more values than the database allows.
pub proof fn lemma_manga_batches_within_limit(infos: Seq<MangaInformation>, start: int, k: int)
    requires
        0 <= start,
        0 <= k < manga_batches(infos, start).len(),
    ensures
        manga_batches(infos, start)[k].1.len() <= BIND_LIMIT,
    decreases infos.len() - start,
{
    let end = chunk_end(infos.len() as int, start, MAX_BATCH_SIZE as int);
    if k == 0 {
        lemma_manga_rows_len(infos.subrange(start, end));
    } else {
        lemma_manga_batches_within_limit(infos, end, k - 1);
    }
}

/// No statement that deletes chapters takes more values than the database allows.
pub proof fn lemma_delete_batches_within_limit(
    manga: (Seq<char>, Seq<char>),
    ids: Seq<(Seq<char>, Seq<char>, Seq<char>)>,
    start: int,
    k: int,
)
    requires
        0 <= start,
        0 <= k < delete_batches(manga, ids, start).len(),
    ensures
        delete_batches(manga, ids, start)[k].1.len() <= BIND_LIMIT,
    decreases ids.len() - start,
{
    let end = chunk_end(ids.len() as int, start, REMOVE_CHUNK_SIZE as int);
    if k > 0 {
        lemma_delete_batches_within_limit(manga, ids, end, k - 1);
    }
}

/// How many chapters a statement describes, of those that describe so many chapters.
pub open spec fn batch_len(len: int, k: int) -> int {
    if len - CHUNK_SIZE * k < CHUNK_SIZE {
        len - CHUNK_SIZE * k
    } else {
        CHUNK_SIZE as int
    }
}

/// A statement that describes chapters takes twelve values for each.
pub proof fn lemma_chapter_batch_len(infos: Seq<ChapterInformation>, start: int, k: int)
    requires
        0 <= start,
        0 <= k < chapter_batches(infos, start).len(),
    ensures
        chapter_batches(infos, start)[k].1.len() == 12 * batch_len(infos.len() - start, k),
    decreases infos.len() - start,
{
    let end = chunk_end(infos.len() as int, start, CHUNK_SIZE as int);
    if k == 0 {
        lemma_chapter_rows_len(infos.subrange(start, end), start);
    } else {
        lemma_chapter_batch_len(infos, end, k - 1);
    }
}

/// A statement that describes chapters takes no more values than the database allows,
/// as long as it describes at most 2730.
pub proof fn lemma_chapter_batches_within_limit(infos: Seq<ChapterInformation>, k: int)
    requires
        0 <= k < chapter_batches(infos, 0).len(),
        batch_len(infos.len() as int, k) <= 2730,
    ensures
        chapter_batches(infos, 0)[k].1.len() <= BIND_LIMIT,
{
    lemma_chapter_batch_len(infos, 0, k);
}

proof fn lemma_chapter_row_in_rows(infos: Seq<ChapterInformation>, start: int, j: int)
    requires
        0 <= j < infos.len(),
    ensures
        chapter_rows(infos, start).len() == 12 * infos.len(),
        chapter_rows(infos, start).subrange(12 * j, 12 * j + 12) == chapter_row(
            infos[j],
            start + j,
        ),
    decreases infos.len(),
{
    let front = infos.drop_last();
    lemma_chapter_rows_len(infos, start);
    lemma_chapter_rows_len(front, start);
    if j == infos.len() - 1 {
        assert(chapter_rows(infos, start).subrange(12 * j, 12 * j + 12) =~= chapter_row(
            infos[j],
            start + j,
        ));
    } else {
        lemma_chapter_row_in_rows(front, start, j);
        assert(chapter_rows(infos, start).subrange(12 * j, 12 * j + 12) =~= chapter_rows(
            front,
            start,
        ).subrange(12 * j, 12 * j + 12));
    }
}

/// Whether row `j` of statement `k` writes a chapter at a place.
pub open spec fn writes_chapter(
    batches: Seq<(Seq<char>, Seq<BindView>)>,
    info: ChapterInformation,
    place: int,
    k: int,
    j: int,
) -> bool {
    &&& 0 <= k < batches.len()
    &&& 0 <= 12 * j <= batches[k].1.len() - 12
    &&& batches[k].1.subrange(12 * j, 12 * j + 12) == chapter_row(info, place)
}

/// Every chapter is written, with its place in the whole list as its order.
pub proof fn lemma_every_chapter_is_written(
    infos: Seq<ChapterInformation>,
    start: int,
    n: int,
) -> (r: (int, int))
    requires
        0 <= start <= n < infos.len(),
    ensures
        writes_chapter(chapter_batches(infos, start), infos[n], n, r.0, r.1),
    decreases infos.len() - start,
{
    let end = chunk_end(infos.len() as int, start, CHUNK_SIZE as int);
    let chunk = infos.subrange(start, end);
    let batches = chapter_batches(infos, start);
    assert(batches[0] == chapter_batch(chunk, start));
    if n < end {
        lemma_chapter_row_in_rows(chunk, start, n - start);
        (0, n - start)
    } else {
        let rest = chapter_batches(infos, end);
        let found = lemma_every_chapter_is_written(infos, end, n);
        assert(batches[found.0 + 1] == rest[found.0]);
        (found.0 + 1, found.1)
    }
}

/// The chapters that are deleted are those that were cached and are not described any
/// more, and no others.
pub proof fn lemma_removed_ids(
    cached: Seq<(Seq<char>, Seq<char>, Seq<char>)>,
    kept: Seq<(Seq<char>, Seq<char>, Seq<char>)>,
    id: (Seq<char>, Seq<char>, Seq<char>),
)
    ensures
        removed_ids(cached, kept).contains(id) <==> cached.contains(id) && !kept.contains(id),
    decreases cached.len(),
{
    if cached.len() > 0 {
        let front = cached.drop_last();
        let before = removed_ids(front, kept);
        let now = removed_ids(cached, kept);
        lemma_removed_ids(front, kept, id);
        if front.contains(id) {
            let m = choose|m: int| 0 <= m < front.len() && front[m] == id;
            assert(cached[m] == id);
        }
        if before.contains(id) {
            let m = choose|m: int| 0 <= m < before.len() && before[m] == id;
            assert(now[m] == id);
        }
        if now.contains(id) && !before.contains(id) {
            let m = choose|m: int| 0 <= m < now.len() && now[m] == id;
            if m < before.len() {
                assert(before[m] == id);
            }
        }
        if cached.contains(id) && !front.contains(id) {
            let m = choose|m: int| 0 <= m < cached.len() && cached[m] == id;
            if m < front.len() {
                assert(front[m] == id);
            }
            if !kept.contains(id) {
                assert(now[now.len() - 1] == id);
            }
        }
        if id == cached.last() {
            assert(cached[cached.len() - 1] == id);
        }
    }
}

/// Every chapter of a list that is to be deleted is named by one of the statements
/// that delete.
pub proof fn lemma_every_removed_id_is_deleted(
    manga: (Seq<char>, Seq<char>),
    ids: Seq<(Seq<char>, Seq<char>, Seq<char>)>,
    start: int,
    n: int,
) -> (k: int)
    requires
        0 <= start <= n < ids.len(),
    ensures
        0 <= k < delete_batches(manga, ids, start).len(),
        delete_batches(manga, ids, start)[k].1.contains(BindView::Text(ids[n].2)),
    decreases ids.len() - start,
{
    let end = chunk_end(ids.len() as int, start, REMOVE_CHUNK_SIZE as int);
    let batches = delete_batches(manga, ids, start);
    let chunk = ids.subrange(start, end);
    assert(batches[0] == delete_batch(manga, chunk));
    if n < end {
        assert(batches[0].1[2 + n - start] == BindView::Text(ids[n].2));
        0
    } else {
        let k = lemma_every_removed_id_is_deleted(manga, ids, end, n);
        assert(batches[k + 1] == delete_batches(manga, ids, end)[k]);
        k + 1
    }
}

/// The values with which a manga is described, each in its place.
pub proof fn lemma_manga_values(info: MangaInformation)
    ensures
        manga_row(info).len() == 6,
        manga_row(info)[0] == BindView::Text(info.id@.0),
        manga_row(info)[1] == BindView::Text(info.id@.1),
        manga_row(info)[2] == BindView::OptionalText(optional_text(info.title)),
        manga_row(info)[3] == BindView::OptionalText(optional_text(info.author)),
        manga_row(info)[4] == BindView::OptionalText(optional_text(info.artist)),
        manga_row(info)[5] == BindView::OptionalText(optional_text(info.cover_url)),
{
}

/// The values with which a chapter is described, each in its place. Its order is its place
/// in the list; it counts as locked only where that is said.
pub proof fn lemma_chapter_values(info: ChapterInformation, place: int)
    requires
        0 <= place <= i64::MAX,
    ensures
        chapter_row(info, place).len() == 12,
        chapter_row(info, place)[0] == BindView::Text(info.id@.0),
        chapter_row(info, place)[1] == BindView::Text(info.id@.1),
        chapter_row(info, place)[2] == BindView::Text(info.id@.2),
        chapter_row(info, place)[3] matches BindView::Integer(order) && order == place,
        chapter_row(info, place)[4] == BindView::OptionalText(optional_text(info.title)),
        chapter_row(info, place)[5] == BindView::OptionalText(optional_text(info.scanlator)),
        chapter_row(info, place)[6] == BindView::OptionalNumber(
            optional_text(info.chapter_number),
        ),
        chapter_row(info, place)[7] == BindView::OptionalNumber(optional_text(info.volume_number)),
        chapter_row(info, place)[8] == BindView::OptionalInteger(info.last_updated),
        chapter_row(info, place)[9] == BindView::OptionalText(optional_text(info.thumbnail)),
        chapter_row(info, place)[10] == BindView::OptionalText(optional_text(info.lang)),
        info.locked == Some(true) ==> chapter_row(info, place)[11] == BindView::Integer(1),
        info.locked != Some(true) ==> chapter_row(info, place)[11] == BindView::Integer(0),
{
}

proof fn lemma_manga_row_in_rows(infos: Seq<MangaInformation>, j: int)
    requires
        0 <= j < infos.len(),
    ensures
        manga_rows(infos).len() == 6 * infos.len(),
        manga_rows(infos).subrange(6 * j, 6 * j + 6) == manga_row(infos[j]),
    decreases infos.len(),
{
    let front = infos.drop_last();
    lemma_manga_rows_len(infos);
    lemma_manga_rows_len(front);
    if j == infos.len() - 1 {
        assert(manga_rows(infos).subrange(6 * j, 6 * j + 6) =~= manga_row(infos[j]));
    } else {
        lemma_manga_row_in_rows(front, j);
        assert(manga_rows(infos).subrange(6 * j, 6 * j + 6) =~= manga_rows(front).subrange(
            6 * j,
            6 * j + 6,
        ));
    }
}

/// Every manga is described by one of the statements: by the values of row `r.1` of
/// statement `r.0`.
pub proof fn lemma_every_manga_is_written(
    infos: Seq<MangaInformation>,
    start: int,
    n: int,
) -> (r: (int, int))
    requires
        0 <= start <= n < infos.len(),
    ensures
        0 <= r.0 < manga_batches(infos, start).len(),
        0 <= 6 * r.1 <= manga_batches(infos, start)[r.0].1.len() - 6,
        manga_batches(infos, start)[r.0].1[6 * r.1] == BindView::Text(infos[n].id@.0),
        manga_batches(infos, start)[r.0].1[6 * r.1 + 1] == BindView::Text(infos[n].id@.1),
        manga_batches(infos, start)[r.0].1[6 * r.1 + 2] == BindView::OptionalText(
            optional_text(infos[n].title),
        ),
        manga_batches(infos, start)[r.0].1[6 * r.1 + 3] == BindView::OptionalText(
            optional_text(infos[n].author),
        ),
        manga_batches(infos, start)[r.0].1[6 * r.1 + 4] == BindView::OptionalText(
            optional_text(infos[n].artist),
        ),
        manga_batches(infos, start)[r.0].1[6 * r.1 + 5] == BindView::OptionalText(
            optional_text(infos[n].cover_url),
        ),
    decreases infos.len() - start,
{
    let end = chunk_end(infos.len() as int, start, MAX_BATCH_SIZE as int);
    let chunk = infos.subrange(start, end);
    let batches = manga_batches(infos, start);
    assert(batches[0] == manga_batch(chunk));
    if n < end {
        let j = n - start;
        lemma_manga_row_in_rows(chunk, j);
        let row = manga_rows(chunk).subrange(6 * j, 6 * j + 6);
        assert(row[0] == manga_rows(chunk)[6 * j]);
        assert(row[1] == manga_rows(chunk)[6 * j + 1]);
        assert(row[2] == manga_rows(chunk)[6 * j + 2]);
        assert(row[3] == manga_rows(chunk)[6 * j + 3]);
        assert(row[4] == manga_rows(chunk)[6 * j + 4]);
        assert(row[5] == manga_rows(chunk)[6 * j + 5]);
        (0, j)
    } else {
        let rest = manga_batches(infos, end);
        let found = lemma_every_manga_is_written(infos, end, n);
        assert(batches[found.0 + 1] == rest[found.0]);
        (found.0 + 1, found.1)
    }
}

/// A statement that deletes chapters names the manga, and no chapter but those that are to
/// be deleted.
pub proof fn lemma_only_removed_ids_are_deleted(
    manga: (Seq<char>, Seq<char>),
    ids: Seq<(Seq<char>, Seq<char>, Seq<char>)>,
    start: int,
    k: int,
    j: int,
) -> (n: int)
    requires
        0 <= start,
        0 <= k < delete_batches(manga, ids, start).len(),
        2 <= j < delete_batches(manga, ids, start)[k].1.len(),
    ensures
        delete_batches(manga, ids, start)[k].1[0] == BindView::Text(manga.0),
        delete_batches(manga, ids, start)[k].1[1] == BindView::Text(manga.1),
        start <= n < ids.len(),
        delete_batches(manga, ids, start)[k].1[j] == BindView::Text(ids[n].2),
    decreases ids.len() - start,
{
    let end = chunk_end(ids.len() as int, start, REMOVE_CHUNK_SIZE as int);
    let batches = delete_batches(manga, ids, start);
    if k == 0 {
        assert(batches[0] == delete_batch(manga, ids.subrange(start, end)));
        start + j - 2
    } else {
        assert(batches[k] == delete_batches(manga, ids, end)[k - 1]);
        lemma_only_removed_ids_are_deleted(manga, ids, end, k - 1, j)
    }
}

/// A chapter that is described again is not deleted, and one that is not described any more
/// is; nothing else is touched. Without cached chapters nothing is deleted.
pub proof fn lemma_described_chapters_stay(
    cached: Seq<ChapterId>,
    infos: Seq<ChapterInformation>,
    n: int,
    m: int,
)
    requires
        0 <= n < infos.len(),
        0 <= m < cached.len(),
    ensures
        !removed_ids(chapter_ids(cached), described_ids(infos)).contains(infos[n].id@),
        removed_ids(chapter_ids(cached), described_ids(infos)).contains(cached[m]@) <==> (forall|
            k: int,
        |
            0 <= k < infos.len() ==> (#[trigger] infos[k]).id@ != cached[m]@),
        removed_ids(Seq::empty(), described_ids(infos)).len() == 0,
{
    let described = described_ids(infos);
    lemma_removed_ids(chapter_ids(cached), described, infos[n].id@);
    lemma_removed_ids(chapter_ids(cached), described, cached[m]@);
    assert(described[n] == infos[n].id@);
    assert(chapter_ids(cached)[m] == cached[m]@);
    if described.contains(cached[m]@) {
        let k = choose|k: int| 0 <= k < described.len() && described[k] == cached[m]@;
        assert(infos[k].id@ == cached[m]@);
    }
    assert forall|k: int| 0 <= k < infos.len() implies described.contains(
        (#[trigger] infos[k]).id@,
    ) by {
        assert(described[k] == infos[k].id@);
    }
}

}
