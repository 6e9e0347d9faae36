//! The rows that the database gives back, and what they say.
use vstd::prelude::*;
use vstd::string::*;

use crate::clock::{instant_of_seconds, parse_rfc3339, rfc3339_instant, Instant};
use crate::model::{
    ChapterId, ChapterInformation, ChapterState, MangaId, MangaInformation, MangaState,
    NotificationInformation, PublishingStatus,
};
use crate::source::Manga;
use crate::tags::{read_tags, texts_of_json};
use crate::text::{optional_text, texts};
use crate::web::{parse_optional_url, parse_url, url_if_any, url_parsed};

verus! {

/// A row holds a URL, a time or a list of tags that cannot be read.
#[derive(Clone, Copy, Debug, PartialEq, Eq, Structural)]
pub struct UnreadableRow;

/// A manga of the library.
#[derive(Clone, Debug, PartialEq, Eq)]
pub struct MangaLibraryRow {
    pub source_id: String,
    pub manga_id: String,
}

impl MangaLibraryRow {
    pub fn manga_id(self) -> (r: MangaId)
        ensures
            r@ == (self.source_id@, self.manga_id@),
    {
        MangaId::from_strings(self.source_id, self.manga_id)
    }
}

/// A manga, and how far it has come out.
#[derive(Clone, Debug, PartialEq, Eq)]
pub struct StatusRow {
    pub manga_id: String,
    pub source_id: String,
    pub status: Option<i64>,
}

/// The status that a number of the database stands for.
pub open spec fn status_of(status: Option<i64>) -> PublishingStatus {
    match status {
        Some(s) => PublishingStatus::Code(s as u8),
        None => PublishingStatus::Unknown,
    }
}

impl StatusRow {
    /// The manga of the row, and its status. Of a number only the lowest eight
    /// bits count.
    pub fn manga_and_status(self) -> (r: (MangaId, PublishingStatus))
        ensures
            r.0@ == (self.source_id@, self.manga_id@),
            r.1 == status_of(self.status),
    {
        let status = match self.status {
            Some(s) => PublishingStatus::Code(
                #[verifier::truncate]
                (s as u8),
            ),
            None => PublishingStatus::Unknown,
        };
        (MangaId::from_strings(self.source_id, self.manga_id), status)
    }
}

/// A manga of the library or of a playlist, with its description and the number
/// of its unread chapters.
#[derive(Clone, Debug, PartialEq, Eq)]
pub struct MangaLibraryRowWithReadCount {
    /// The id of the source.
    pub source_id: String,
    /// The id of the manga in its source.
    pub manga_id: String,
    pub title: Option<String>,
    pub author: Option<String>,
    pub artist: Option<String>,
    pub cover_url: Option<String>,
    /// The number of unread chapters.
    pub unread_chapters_count: Option<i64>,
    /// When a chapter was last read.
    pub last_read: Option<i64>,
}

/// What a row about a manga of the library or of a playlist holds.
#[verifier::ext_equal]
pub struct LibraryRowView {
    pub id: (Seq<char>, Seq<char>),
    pub title: Option<Seq<char>>,
    pub author: Option<Seq<char>>,
    pub artist: Option<Seq<char>>,
    pub cover_url: Option<Seq<char>>,
    pub unread_chapters_count: Option<i64>,
    pub last_read: Option<i64>,
}

impl View for MangaLibraryRowWithReadCount {
    type V = LibraryRowView;

    open spec fn view(&self) -> LibraryRowView {
        LibraryRowView {
            id: (self.source_id@, self.manga_id@),
            title: optional_text(self.title),
            author: optional_text(self.author),
            artist: optional_text(self.artist),
            cover_url: optional_text(self.cover_url),
            unread_chapters_count: self.unread_chapters_count,
            last_read: self.last_read,
        }
    }
}

/// What rows about mangas of the library or of a playlist hold.
pub open spec fn library_rows(rows: Seq<MangaLibraryRowWithReadCount>) -> Seq<LibraryRowView> {
    rows.map_values(|row: MangaLibraryRowWithReadCount| row@)
}

/// The cached description of a manga.
#[derive(Clone, Debug, PartialEq, Eq)]
pub struct MangaInformationsRow {
    pub source_id: String,
    pub manga_id: String,
    pub title: Option<String>,
    pub author: Option<String>,
    pub artist: Option<String>,
    pub cover_url: Option<String>,
}

/// Whether an optional text is one that can be read as a URL.
pub open spec fn url_readable(url: Option<String>) -> bool {
    url matches Some(u) ==> url_parsed(u@) is Some
}

/// Says whether an optional text is one that can be read as a URL.
fn is_url_readable(url: &Option<String>) -> (r: bool)
    ensures
        r == url_readable(*url),
{
    match url {
        Some(u) => parse_url(u.as_str()).is_some(),
        None => true,
    }
}

impl MangaInformationsRow {
    /// Whether the cover is at a URL, where there is one.
    pub open spec fn readable(self) -> bool {
        url_readable(self.cover_url)
    }

    /// Whether the row says this of the manga.
    pub open spec fn says(self, r: MangaInformation) -> bool {
        &&& r.id@ == (self.source_id@, self.manga_id@)
        &&& r.title == self.title
        &&& r.author == self.author
        &&& r.artist == self.artist
        &&& optional_text(r.cover_url) == url_if_any(optional_text(self.cover_url))
    }

    /// The description that the row holds.
    pub fn information(self) -> (r: MangaInformation)
        requires
            self.readable(),
        ensures
            self.says(r),
            r.cover_url is Some == self.cover_url is Some,
    {
        let cover_url = parse_optional_url(&self.cover_url);
        MangaInformation {
            id: MangaId::from_strings(self.source_id, self.manga_id),
            title: self.title,
            author: self.author,
            artist: self.artist,
            cover_url,
        }
    }

    /// Says whether the cover is at a URL, where there is one.
    pub fn is_readable(&self) -> (r: bool)
        ensures
            r == self.readable(),
    {
        is_url_readable(&self.cover_url)
    }
}

/// The cached details of a manga.
#[derive(Clone, Debug, PartialEq, Eq)]
pub struct MangaDetailsRow {
    pub source_id: String,
    pub id: String,
    pub title: Option<String>,
    pub author: Option<String>,
    pub artist: Option<String>,
    pub description: Option<String>,
    pub tags: Option<String>,
    pub cover_url: Option<String>,
    pub url: Option<String>,
    pub status: i64,
    pub nsfw: i64,
    pub viewer: i64,
    pub last_updated: Option<String>,
    pub last_opened: Option<String>,
    pub last_read: Option<i64>,
    pub date_added: Option<String>,
    /// Which part of the chapters has been read, as decimal text.
    pub per_read: Option<String>,
}

/// Whether an optional text is one that can be read as a time.
pub open spec fn instant_readable(text: Option<String>) -> bool {
    text matches Some(t) ==> rfc3339_instant(t@) is Some
}

/// The time that an optional text names.
pub open spec fn instant_if_any(text: Option<String>) -> Option<Instant> {
    match text {
        Some(t) => rfc3339_instant(t@),
        None => None,
    }
}

/// Reads the time that an optional text names.
fn parse_optional_instant(text: &Option<String>) -> (r: Option<Instant>)
    ensures
        r == instant_if_any(*text),
{
    match text {
        Some(t) => parse_rfc3339(t.as_str()),
        None => None,
    }
}

/// Says whether an optional text is one that can be read as a time.
fn is_instant_readable(text: &Option<String>) -> (r: bool)
    ensures
        r == instant_readable(*text),
{
    match text {
        Some(t) => parse_rfc3339(t.as_str()).is_some(),
        None => true,
    }
}

/// Whether an optional text is one that can be read as a list of tags.
pub open spec fn tags_readable(json: Option<String>) -> bool {
    json matches Some(j) ==> texts_of_json(j@) is Some
}

/// The tags that an optional text lists.
pub open spec fn tags_if_any(json: Option<String>) -> Option<Seq<Seq<char>>> {
    match json {
        Some(j) => texts_of_json(j@),
        None => None,
    }
}

/// The texts of an optional list.
pub open spec fn optional_texts(list: Option<Vec<String>>) -> Option<Seq<Seq<char>>> {
    match list {
        Some(list) => Some(texts(list@)),
        None => None,
    }
}

/// Says whether an optional text is one that can be read as a list of tags.
fn is_tags_readable(json: &Option<String>) -> (r: bool)
    ensures
        r == tags_readable(*json),
{
    match json {
        Some(j) => read_tags(j.as_str()).is_some(),
        None => true,
    }
}

/// The time that a number of seconds stands for: none before the start of 1970,
/// nor outside the calendar.
pub open spec fn seconds_instant(seconds: Option<i64>) -> Option<Instant> {
    match seconds {
        Some(s) => if s >= 0 && Instant::in_range(s as int) {
            Some(Instant { seconds: s, nanos: 0 })
        } else {
            None
        },
        None => None,
    }
}

impl MangaDetailsRow {
    /// Whether the tags, the URLs and the times can be read, where there are any.
    pub open spec fn readable(self) -> bool {
        &&& tags_readable(self.tags)
        &&& url_readable(self.cover_url)
        &&& url_readable(self.url)
        &&& instant_readable(self.last_updated)
        &&& instant_readable(self.last_opened)
        &&& instant_readable(self.date_added)
    }

    /// Whether the row says this of the manga.
    pub open spec fn says(self, r: Manga) -> bool {
        &&& r.source_id == self.source_id
        &&& r.id == self.id
        &&& r.title == self.title
        &&& r.author == self.author
        &&& r.artist == self.artist
        &&& r.description == self.description
        &&& optional_texts(r.tags) == tags_if_any(self.tags)
        &&& optional_text(r.cover_url) == url_if_any(optional_text(self.cover_url))
        &&& optional_text(r.url) == url_if_any(optional_text(self.url))
        &&& r.status == self.status as u8
        &&& r.nsfw == self.nsfw as u8
        &&& r.viewer == self.viewer as u8
        &&& r.last_updated == instant_if_any(self.last_updated)
        &&& r.last_opened == instant_if_any(self.last_opened)
        &&& r.last_read == seconds_instant(self.last_read)
        &&& r.date_added == instant_if_any(self.date_added)
    }

    /// The details that the row holds. Of the numbers for status, content rating
    /// and viewer only the lowest eight bits count.
    pub fn details(self) -> (r: Manga)
        requires
            self.readable(),
        ensures
            self.says(r),
    {
        let status: u8 = #[verifier::truncate]
        (self.status as u8);
        let nsfw: u8 = #[verifier::truncate]
        (self.nsfw as u8);
        let viewer: u8 = #[verifier::truncate]
        (self.viewer as u8);
        let tags = match &self.tags {
            Some(json) => read_tags(json.as_str()),
            None => None,
        };
        let cover_url = parse_optional_url(&self.cover_url);
        let url = parse_optional_url(&self.url);
        let last_read = match self.last_read {
            Some(seconds) => if seconds >= 0 {
                instant_of_seconds(seconds)
            } else {
                None
            },
            None => None,
        };
        Manga {
            last_updated: parse_optional_instant(&self.last_updated),
            last_opened: parse_optional_instant(&self.last_opened),
            date_added: parse_optional_instant(&self.date_added),
            source_id: self.source_id,
            id: self.id,
            title: self.title,
            author: self.author,
            artist: self.artist,
            description: self.description,
            tags,
            cover_url,
            url,
            status,
            nsfw,
            viewer,
            last_read,
        }
    }

    /// Says whether the tags, the URLs and the times can be read.
    pub fn is_readable(&self) -> (r: bool)
        ensures
            r == self.readable(),
    {
        is_tags_readable(&self.tags) && is_url_readable(&self.cover_url) && is_url_readable(
            &self.url,
        ) && is_instant_readable(&self.last_updated) && is_instant_readable(&self.last_opened)
            && is_instant_readable(&self.date_added)
    }
}

/// The cached description of a chapter. Its numbers are held as decimal text.
#[derive(Clone, Debug, PartialEq, Eq)]
pub struct ChapterInformationsRow {
    pub source_id: String,
    pub manga_id: String,
    pub chapter_id: String,
    pub manga_order: i64,
    pub title: Option<String>,
    pub scanlator: Option<String>,
    pub chapter_number: Option<String>,
    pub volume_number: Option<String>,
    pub last_updated: Option<i64>,
    pub thumbnail: Option<String>,
    pub lang: Option<String>,
    pub locked: i64,
}

/// What a row with the description of a chapter holds.
#[verifier::ext_equal]
pub struct DescriptionView {
    pub id: (Seq<char>, Seq<char>, Seq<char>),
    pub manga_order: i64,
    pub title: Option<Seq<char>>,
    pub scanlator: Option<Seq<char>>,
    pub chapter_number: Option<Seq<char>>,
    pub volume_number: Option<Seq<char>>,
    pub last_updated: Option<i64>,
    pub thumbnail: Option<Seq<char>>,
    pub lang: Option<Seq<char>>,
    pub locked: i64,
}

impl View for ChapterInformationsRow {
    type V = DescriptionView;

    open spec fn view(&self) -> DescriptionView {
        DescriptionView {
            id: (self.source_id@, self.manga_id@, self.chapter_id@),
            manga_order: self.manga_order,
            title: optional_text(self.title),
            scanlator: optional_text(self.scanlator),
            chapter_number: optional_text(self.chapter_number),
            volume_number: optional_text(self.volume_number),
            last_updated: self.last_updated,
            thumbnail: optional_text(self.thumbnail),
            lang: optional_text(self.lang),
            locked: self.locked,
        }
    }
}

/// What rows with the descriptions of chapters hold.
pub open spec fn description_rows(rows: Seq<ChapterInformationsRow>) -> Seq<DescriptionView> {
    rows.map_values(|row: ChapterInformationsRow| row@)
}

impl ChapterInformationsRow {
    /// Whether the row says this of the chapter.
    pub open spec fn says(self, r: ChapterInformation) -> bool {
        &&& r.id@ == (self.source_id@, self.manga_id@, self.chapter_id@)
        &&& r.title == self.title
        &&& r.scanlator == self.scanlator
        &&& r.chapter_number == self.chapter_number
        &&& r.volume_number == self.volume_number
        &&& r.last_updated == self.last_updated
        &&& optional_text(r.thumbnail) == url_if_any(optional_text(self.thumbnail))
        &&& r.lang == self.lang
        &&& r.url is None
        &&& r.locked == Some(self.locked != 0)
    }

    /// The description that the row holds. A thumbnail at no URL counts as absent.
    pub fn information(self) -> (r: ChapterInformation)
        ensures
            self.says(r),
    {
        let thumbnail = parse_optional_url(&self.thumbnail);
        ChapterInformation {
            id: ChapterId::from_strings(self.source_id, self.manga_id, self.chapter_id),
            title: self.title,
            scanlator: self.scanlator,
            chapter_number: self.chapter_number,
            volume_number: self.volume_number,
            last_updated: self.last_updated,
            thumbnail,
            lang: self.lang,
            url: None,
            locked: Some(self.locked != 0),
        }
    }
}

/// A cached chapter, joined with its state and the title of its manga.
#[derive(Clone, Debug, PartialEq, Eq)]
pub struct CachedChapterRow {
    pub source_id: String,
    pub manga_id: String,
    pub chapter_id: String,
    pub title: Option<String>,
    pub scanlator: Option<String>,
    pub chapter_number: Option<String>,
    pub volume_number: Option<String>,
    pub last_updated: Option<i64>,
    pub thumbnail: Option<String>,
    pub lang: Option<String>,
    pub locked: bool,
    pub manga_title: Option<String>,
    pub read: Option<bool>,
    pub last_read: Option<i64>,
}

/// What a row about a cached chapter holds.
#[verifier::ext_equal]
pub struct CachedChapterView {
    pub id: (Seq<char>, Seq<char>, Seq<char>),
    pub title: Option<Seq<char>>,
    pub scanlator: Option<Seq<char>>,
    pub chapter_number: Option<Seq<char>>,
    pub volume_number: Option<Seq<char>>,
    pub last_updated: Option<i64>,
    pub thumbnail: Option<Seq<char>>,
    pub lang: Option<Seq<char>>,
    pub locked: bool,
    pub manga_title: Option<Seq<char>>,
    pub read: Option<bool>,
    pub last_read: Option<i64>,
}

impl View for CachedChapterRow {
    type V = CachedChapterView;

    open spec fn view(&self) -> CachedChapterView {
        CachedChapterView {
            id: (self.source_id@, self.manga_id@, self.chapter_id@),
            title: optional_text(self.title),
            scanlator: optional_text(self.scanlator),
            chapter_number: optional_text(self.chapter_number),
            volume_number: optional_text(self.volume_number),
            last_updated: self.last_updated,
            thumbnail: optional_text(self.thumbnail),
            lang: optional_text(self.lang),
            locked: self.locked,
            manga_title: optional_text(self.manga_title),
            read: self.read,
            last_read: self.last_read,
        }
    }
}

/// What rows about cached chapters hold.
pub open spec fn cached_rows(rows: Seq<CachedChapterRow>) -> Seq<CachedChapterView> {
    rows.map_values(|row: CachedChapterRow| row@)
}

/// A chapter that has been read, with what its file name is made of.
#[derive(Clone, Debug, PartialEq, Eq)]
pub struct ReadChapterRow {
    pub source_id: String,
    pub manga_id: String,
    pub chapter_id: String,
    pub manga_title: Option<String>,
    pub chapter_number: Option<String>,
    pub volume_number: Option<String>,
}

/// What the reader has done with a chapter.
#[derive(Clone, Debug, PartialEq, Eq)]
pub struct ChapterStateRow {
    pub source_id: String,
    pub manga_id: String,
    pub chapter_id: String,
    pub read: bool,
    pub last_read: Option<i64>,
}

impl ChapterStateRow {
    /// The state that the row holds.
    pub fn state(&self) -> (r: ChapterState)
        ensures
            r == (ChapterState { read: self.read, last_read: self.last_read }),
    {
        ChapterState { read: self.read, last_read: self.last_read }
    }
}

/// How many chapters of a manga are unread.
#[derive(Clone, Debug, PartialEq, Eq)]
pub struct UnreadChaptersRow {
    pub count: Option<i64>,
    pub has_chapters: Option<bool>,
}

/// How many chapters of a manga are unread, and what else a list of mangas shows.
#[derive(Clone, Debug, PartialEq, Eq)]
pub struct UnreadChaptersRowFull {
    pub source_id: String,
    pub manga_id: String,
    pub count: Option<i32>,
    pub last_time: Option<i32>,
    pub in_library: bool,
}

/// What the reader has settled for a manga.
#[derive(Clone, Debug, PartialEq, Eq)]
pub struct MangaStateRow {
    pub source_id: String,
    pub manga_id: String,
    pub preferred_scanlator: Option<String>,
}

impl MangaStateRow {
    /// The state that the row holds.
    pub fn state(self) -> (r: MangaState)
        ensures
            r.preferred_scanlator == self.preferred_scanlator,
    {
        MangaState { preferred_scanlator: self.preferred_scanlator }
    }
}

/// The manga to be checked next.
#[derive(Clone, Debug, PartialEq, Eq)]
pub struct NextCheckRow {
    pub manga_id: String,
    pub source_id: String,
    pub next_ts_arima: i64,
}

/// A notification, joined with what is shown of it. Its chapter number is held as
/// decimal text.
#[derive(Clone, Debug, PartialEq, Eq)]
pub struct NotificationInformationRow {
    pub id: i64,
    pub source_id: String,
    pub manga_id: String,
    pub chapter_id: String,
    pub manga_title: Option<String>,
    pub manga_cover: Option<String>,
    pub manga_status: Option<i64>,
    pub chapter_title: Option<String>,
    pub chapter_number: Option<String>,
    pub created_at: i64,
}

/// The text, or another one where it is absent.
pub open spec fn text_or(text: Option<String>, other: Seq<char>) -> Seq<char> {
    match text {
        Some(t) => t@,
        None => other,
    }
}

/// The text, or another one where it is absent.
fn or_text(text: Option<String>, other: &str) -> (r: String)
    ensures
        r@ == text_or(text, other@),
{
    match text {
        Some(t) => t,
        None => other.to_owned(),
    }
}

impl NotificationInformationRow {
    /// Whether the row says this of the notification.
    pub open spec fn says(self, r: NotificationInformation) -> bool {
        &&& r.id == self.id
        &&& r.chapter_id@ == (self.source_id@, self.manga_id@, self.chapter_id@)
        &&& r.manga_title@ == text_or(self.manga_title, "Unknown"@)
        &&& optional_text(r.manga_cover) == url_if_any(optional_text(self.manga_cover))
        &&& r.manga_status == self.manga_status
        &&& r.chapter_title@ == text_or(self.chapter_title, "Unknown"@)
        &&& r.chapter_number@ == text_or(self.chapter_number, "-1"@)
        &&& r.created_at == self.created_at
    }

    /// The notification that the row holds. A cover at no URL counts as absent.
    pub fn information(self) -> (r: NotificationInformation)
        ensures
            self.says(r),
            r.manga_title@ == (match self.manga_title {
                Some(title) => title@,
                None => "Unknown"@,
            }),
            r.chapter_title@ == (match self.chapter_title {
                Some(title) => title@,
                None => "Unknown"@,
            }),
            r.chapter_number@ == (match self.chapter_number {
                Some(number) => number@,
                None => "-1"@,
            }),
    {
        let manga_cover = parse_optional_url(&self.manga_cover);
        NotificationInformation {
            id: self.id,
            chapter_id: ChapterId::from_strings(self.source_id, self.manga_id, self.chapter_id),
            manga_title: or_text(self.manga_title, "Unknown"),
            manga_cover,
            manga_status: self.manga_status,
            chapter_title: or_text(self.chapter_title, "Unknown"),
            chapter_number: or_text(self.chapter_number, "-1"),
            created_at: self.created_at,
        }
    }
}

/// A notification tells what its row holds, each column in its own place: the titles of the
/// manga and of the chapter are their own, and one that is absent is not known. A chapter
/// without a number has the number -1, and a cover at no URL is not shown.
pub proof fn lemma_notification_columns(
    row: NotificationInformationRow,
    r: NotificationInformation,
)
    requires
        row.says(r),
    ensures
        r.id == row.id,
        r.chapter_id@.0 == row.source_id@,
        r.chapter_id@.1 == row.manga_id@,
        r.chapter_id@.2 == row.chapter_id@,
        row.manga_title matches Some(title) ==> r.manga_title@ == title@,
        row.manga_title is None ==> r.manga_title@ == "Unknown"@,
        row.chapter_title matches Some(title) ==> r.chapter_title@ == title@,
        row.chapter_title is None ==> r.chapter_title@ == "Unknown"@,
        row.chapter_number matches Some(number) ==> r.chapter_number@ == number@,
        row.chapter_number is None ==> r.chapter_number@ == "-1"@,
        row.manga_cover matches Some(url) ==> optional_text(r.manga_cover) == url_parsed(url@),
        row.manga_cover is None ==> r.manga_cover is None,
        r.manga_status == row.manga_status,
        r.created_at == row.created_at,
{
}

/// What a notification tells of a chapter does not depend on the title of its manga, and
/// what it tells of the manga does not depend on the title of the chapter.
pub proof fn lemma_notification_titles_are_apart(
    a: NotificationInformationRow,
    b: NotificationInformationRow,
    x: NotificationInformation,
    y: NotificationInformation,
)
    requires
        a.says(x),
        b.says(y),
    ensures
        a.chapter_title == b.chapter_title ==> x.chapter_title@ == y.chapter_title@,
        a.manga_title == b.manga_title ==> x.manga_title@ == y.manga_title@,
        a.chapter_number == b.chapter_number ==> x.chapter_number@ == y.chapter_number@,
        a.manga_cover == b.manga_cover ==> optional_text(x.manga_cover) == optional_text(
            y.manga_cover,
        ),
        a.chapter_title matches Some(s) && (b.chapter_title matches Some(t) && s@ != t@)
            ==> x.chapter_title@ != y.chapter_title@,
        a.manga_title matches Some(s) && (b.manga_title matches Some(t) && s@ != t@)
            ==> x.manga_title@ != y.manga_title@,
{
}

/// A number of the database that fits is the status itself, numbers that differ by a
/// multiple of 256 are the same status, and without a number the status is not known.
pub proof fn lemma_status_of_number(a: i64, b: i64)
    ensures
        0 <= a < 256 ==> status_of(Some(a)) == PublishingStatus::Code(a as u8),
        0 <= a < 256 && 0 <= b < 256 && a != b ==> status_of(Some(a)) != status_of(Some(b)),
        status_of(Some(a)) == status_of(Some(b)) <==> a as u8 == b as u8,
        status_of(None) is Unknown,
        !(status_of(Some(a)) is Unknown),
{
}

/// What is told of a manga is what its row holds, each column in its own place.
pub proof fn lemma_manga_information_columns(row: MangaInformationsRow, r: MangaInformation)
    requires
        row.says(r),
    ensures
        r.id@.0 == row.source_id@,
        r.id@.1 == row.manga_id@,
        r.title == row.title,
        r.author == row.author,
        r.artist == row.artist,
        row.cover_url is None ==> r.cover_url is None,
        row.cover_url matches Some(url) ==> optional_text(r.cover_url) == url_parsed(url@),
        row.readable() <==> (row.cover_url is None || r.cover_url is Some),
{
}

/// What is told of a manga in full is what its row holds, each column in its own place. A
/// time before 1970 at which it was last read counts as none.
pub proof fn lemma_manga_details_columns(row: MangaDetailsRow, r: Manga)
    requires
        row.says(r),
    ensures
        r.source_id == row.source_id,
        r.id == row.id,
        r.title == row.title,
        r.author == row.author,
        r.artist == row.artist,
        r.description == row.description,
        row.tags is None ==> r.tags is None,
        row.tags matches Some(json) ==> (texts_of_json(json@) matches Some(list) ==> (r.tags matches
            Some(tags) && texts(tags@) == list)),
        row.cover_url is None ==> r.cover_url is None,
        row.cover_url matches Some(url) ==> optional_text(r.cover_url) == url_parsed(url@),
        row.url is None ==> r.url is None,
        row.url matches Some(url) ==> optional_text(r.url) == url_parsed(url@),
        0 <= row.status < 256 ==> r.status == row.status,
        0 <= row.nsfw < 256 ==> r.nsfw == row.nsfw,
        0 <= row.viewer < 256 ==> r.viewer == row.viewer,
        row.last_updated is None ==> r.last_updated is None,
        row.last_updated matches Some(t) ==> r.last_updated == rfc3339_instant(t@),
        row.last_opened is None ==> r.last_opened is None,
        row.last_opened matches Some(t) ==> r.last_opened == rfc3339_instant(t@),
        row.date_added is None ==> r.date_added is None,
        row.date_added matches Some(t) ==> r.date_added == rfc3339_instant(t@),
        row.last_read is None ==> r.last_read is None,
        row.last_read matches Some(s) ==> (s < 0 ==> r.last_read is None) && (0 <= s
            <= 8210266876799 ==> (r.last_read matches Some(t) && t.seconds == s && t.nanos == 0)),
{
}

/// What is told of a chapter is what its row holds, each column in its own place.
pub proof fn lemma_chapter_information_columns(row: ChapterInformationsRow, r: ChapterInformation)
    requires
        row.says(r),
    ensures
        r.id@.0 == row.source_id@,
        r.id@.1 == row.manga_id@,
        r.id@.2 == row.chapter_id@,
        r.title == row.title,
        r.scanlator == row.scanlator,
        r.chapter_number == row.chapter_number,
        r.volume_number == row.volume_number,
        r.last_updated == row.last_updated,
        r.lang == row.lang,
        r.url is None,
        row.thumbnail is None ==> r.thumbnail is None,
        row.thumbnail matches Some(url) ==> optional_text(r.thumbnail) == url_parsed(url@),
        r.locked == Some(true) <==> row.locked != 0,
        r.locked is Some,
{
}

/// A row with details can be read if and only if everything in it that has a form has it:
/// its tags are a list of texts, its URLs are URLs, and its times are times.
pub proof fn lemma_details_are_readable(row: MangaDetailsRow)
    ensures
        row.readable() <==> {
            &&& row.tags matches Some(json) ==> texts_of_json(json@) is Some
            &&& row.cover_url matches Some(url) ==> url_parsed(url@) is Some
            &&& row.url matches Some(url) ==> url_parsed(url@) is Some
            &&& row.last_updated matches Some(t) ==> rfc3339_instant(t@) is Some
            &&& row.last_opened matches Some(t) ==> rfc3339_instant(t@) is Some
            &&& row.date_added matches Some(t) ==> rfc3339_instant(t@) is Some
        },
{
}

}
