//! What the library is about: sources, mangas, chapters, playlists and
//! notifications.
use vstd::prelude::*;
use vstd::string::*;

verus! {

/// The id of a source of mangas.
#[derive(Clone, Debug, PartialEq, Eq, Hash)]
pub struct SourceId {
    pub text: String,
}

impl View for SourceId {
    type V = Seq<char>;

    open spec fn view(&self) -> Seq<char> {
        self.text@
    }
}

impl SourceId {
    pub fn new(text: String) -> (r: SourceId)
        ensures
            r@ == text@,
    {
        SourceId { text }
    }

    pub fn value(&self) -> (r: &String)
        ensures
            r@ == self@,
    {
        &self.text
    }
}

/// The id of a manga: its source, and its id there.
#[derive(Clone, Debug, PartialEq, Eq, Hash)]
pub struct MangaId {
    pub source: SourceId,
    pub manga: String,
}

impl View for MangaId {
    type V = (Seq<char>, Seq<char>);

    open spec fn view(&self) -> (Seq<char>, Seq<char>) {
        (self.source@, self.manga@)
    }
}

impl MangaId {
    pub fn new(source: SourceId, manga: String) -> (r: MangaId)
        ensures
            r@ == (source@, manga@),
    {
        MangaId { source, manga }
    }

    pub fn from_strings(source_id: String, manga_id: String) -> (r: MangaId)
        ensures
            r@ == (source_id@, manga_id@),
    {
        MangaId::new(SourceId::new(source_id), manga_id)
    }

    pub fn source_id(&self) -> (r: &SourceId)
        ensures
            r@ == self@.0,
    {
        &self.source
    }

    pub fn value(&self) -> (r: &String)
        ensures
            r@ == self@.1,
    {
        &self.manga
    }

    /// Copies the id.
    pub fn copy(&self) -> (r: MangaId)
        ensures
            r == *self,
    {
        MangaId { source: SourceId { text: self.source.text.clone() }, manga: self.manga.clone() }
    }

    /// Says whether two ids are the same.
    pub fn same(&self, other: &MangaId) -> (r: bool)
        ensures
            r == (self@ == other@),
    {
        self.source.text == other.source.text && self.manga == other.manga
    }
}

/// The id of a chapter: its manga, and its id there.
#[derive(Clone, Debug, PartialEq, Eq, Hash)]
pub struct ChapterId {
    pub manga: MangaId,
    pub chapter: String,
}

impl View for ChapterId {
    type V = (Seq<char>, Seq<char>, Seq<char>);

    open spec fn view(&self) -> (Seq<char>, Seq<char>, Seq<char>) {
        (self.manga@.0, self.manga@.1, self.chapter@)
    }
}

impl ChapterId {
    pub fn new(manga: MangaId, chapter: String) -> (r: ChapterId)
        ensures
            r@ == (manga@.0, manga@.1, chapter@),
    {
        ChapterId { manga, chapter }
    }

    pub fn from_strings(source_id: String, manga_id: String, chapter_id: String) -> (r: ChapterId)
        ensures
            r@ == (source_id@, manga_id@, chapter_id@),
    {
        ChapterId::new(MangaId::from_strings(source_id, manga_id), chapter_id)
    }

    pub fn source_id(&self) -> (r: &SourceId)
        ensures
            r@ == self@.0,
    {
        self.manga.source_id()
    }

    pub fn manga_id(&self) -> (r: &MangaId)
        ensures
            r@ == (self@.0, self@.1),
    {
        &self.manga
    }

    pub fn value(&self) -> (r: &String)
        ensures
            r@ == self@.2,
    {
        &self.chapter
    }

    /// Copies the id.
    pub fn copy(&self) -> (r: ChapterId)
        ensures
            r == *self,
    {
        ChapterId { manga: self.manga.copy(), chapter: self.chapter.clone() }
    }

    /// Says whether two ids are the same.
    pub fn same(&self, other: &ChapterId) -> (r: bool)
        ensures
            r == (self@ == other@),
    {
        self.manga.same(&other.manga) && self.chapter == other.chapter
    }
}

/// The ids of a list of chapters.
pub open spec fn chapter_ids(list: Seq<ChapterId>) -> Seq<(Seq<char>, Seq<char>, Seq<char>)> {
    list.map_values(|id: ChapterId| id@)
}

/// The ids of a list of mangas.
pub open spec fn manga_ids(list: Seq<MangaId>) -> Seq<(Seq<char>, Seq<char>)> {
    list.map_values(|id: MangaId| id@)
}

/// What a source says of a manga in a list. A URL is held as its text.
#[derive(Clone, Debug, PartialEq, Eq)]
pub struct MangaInformation {
    pub id: MangaId,
    pub title: Option<String>,
    pub author: Option<String>,
    pub artist: Option<String>,
    pub cover_url: Option<String>,
}

/// What a source says of a chapter. A number is held as its decimal text.
#[derive(Clone, Debug, PartialEq, Eq)]
pub struct ChapterInformation {
    pub id: ChapterId,
    pub title: Option<String>,
    pub scanlator: Option<String>,
    pub chapter_number: Option<String>,
    pub volume_number: Option<String>,
    pub last_updated: Option<i64>,
    pub thumbnail: Option<String>,
    pub lang: Option<String>,
    pub url: Option<String>,
    pub locked: Option<bool>,
}

/// What the reader has settled for a manga.
#[derive(Clone, Debug, PartialEq, Eq)]
pub struct MangaState {
    pub preferred_scanlator: Option<String>,
}

impl Default for MangaState {
    fn default() -> (r: MangaState)
        ensures
            r.preferred_scanlator is None,
    {
        MangaState { preferred_scanlator: None }
    }
}

/// What the reader has done with a chapter.
#[derive(Clone, Copy, Debug, PartialEq, Eq, Structural)]
pub struct ChapterState {
    pub read: bool,
    pub last_read: Option<i64>,
}

/// A chapter, with what is known of it here.
#[derive(Clone, Debug, PartialEq, Eq)]
pub struct Chapter {
    pub information: ChapterInformation,
    pub state: ChapterState,
    pub downloaded: bool,
    pub on_tmpfs: bool,
}

/// A source that is installed.
#[derive(Clone, Debug, PartialEq, Eq)]
pub struct SourceInformation {
    pub id: SourceId,
    pub name: String,
}

impl SourceInformation {
    /// Copies the description.
    pub fn copy(&self) -> (r: SourceInformation)
        ensures
            r == *self,
    {
        SourceInformation {
            id: SourceId { text: self.id.text.clone() },
            name: self.name.clone(),
        }
    }
}

/// A manga, with what is known of it here.
#[derive(Clone, Debug, PartialEq, Eq)]
pub struct Manga {
    pub source_information: SourceInformation,
    pub information: MangaInformation,
    pub state: MangaState,
    pub unread_chapters_count: Option<usize>,
    pub last_read: Option<i64>,
    pub in_library: bool,
}

/// A named list of mangas.
#[derive(Clone, Debug, PartialEq, Eq)]
pub struct Playlist {
    pub id: i64,
    pub name: String,
}

/// A note that a chapter has come out.
#[derive(Clone, Debug, PartialEq, Eq)]
pub struct NotificationInformation {
    pub id: i64,
    pub chapter_id: ChapterId,
    pub manga_title: String,
    pub manga_cover: Option<String>,
    pub manga_status: Option<i64>,
    pub chapter_title: String,
    pub chapter_number: String,
    pub created_at: i64,
}

/// How far a manga has come out, by the number that sources give.
#[derive(Clone, Copy, Debug, PartialEq, Eq, Structural)]
pub enum PublishingStatus {
    Unknown,
    Code(u8),
}

/// How the library is sorted.
#[derive(Clone, Copy, Debug, PartialEq, Eq, Structural)]
pub enum LibrarySortingMode {
    Ascending,
    Descending,
    TitleAsc,
    TitleDesc,
    UnreadAsc,
    UnreadDesc,
    LastReadAsc,
    LastReadDesc,
    SourceAsc,
    SourceDesc,
}

}
