//! What a source says of one manga in full.
use vstd::prelude::*;
use vstd::string::*;

use crate::clock::Instant;
use crate::web::url_parsed;

verus! {

/// A manga as its source describes it. URLs are held as their text; status,
/// content rating and viewer as the numbers that sources give them.
#[derive(Clone, Debug, PartialEq, Eq)]
pub struct Manga {
    pub source_id: String,
    pub id: String,
    pub title: Option<String>,
    pub author: Option<String>,
    pub artist: Option<String>,
    pub description: Option<String>,
    pub tags: Option<Vec<String>>,
    pub cover_url: Option<String>,
    pub url: Option<String>,
    pub status: u8,
    pub nsfw: u8,
    pub viewer: u8,
    pub last_updated: Option<Instant>,
    pub last_opened: Option<Instant>,
    pub last_read: Option<Instant>,
    pub date_added: Option<Instant>,
}

/// Whether an optional text is the text of a URL.
pub open spec fn url_kept(url: Option<String>) -> bool {
    url matches Some(u) ==> url_parsed(u@) == Some(u@)
}

/// Whether an optional time is one that can be written.
pub open spec fn instant_valid(t: Option<Instant>) -> bool {
    t matches Some(t) ==> t.valid()
}

/// Whether an optional time is in one of the years from 0000 to 9999.
pub open spec fn instant_ordinary(t: Option<Instant>) -> bool {
    t matches Some(t) ==> t.ordinary()
}

impl Manga {
    /// Whether the times can be written.
    pub open spec fn valid(self) -> bool {
        &&& instant_valid(self.last_updated)
        &&& instant_valid(self.last_opened)
        &&& instant_valid(self.date_added)
    }

    /// Whether the URLs are texts of URLs, and the times in the years from 0000 to 9999.
    pub open spec fn ordinary(self) -> bool {
        &&& url_kept(self.cover_url)
        &&& url_kept(self.url)
        &&& instant_ordinary(self.last_updated)
        &&& instant_ordinary(self.last_opened)
        &&& instant_ordinary(self.date_added)
    }
}

}
