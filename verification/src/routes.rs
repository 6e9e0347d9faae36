//! Which requests are answered, and by what.
use vstd::prelude::*;
use vstd::string::*;

verus! {

/// How a request is made.
#[derive(Clone, Copy, Debug, PartialEq, Eq, Structural)]
pub enum Method {
    Get,
    Post,
    Delete,
}

/// What answers a request.
#[derive(Clone, Copy, Debug, PartialEq, Eq, Structural)]
pub enum Endpoint {
    GetMangaLibrary,
    FindOrphanOrReadFiles,
    DeleteFile,
    SyncDatabase,
    CheckMangasUpdate,
    GetCountNotifications,
    GetNotifications,
    DeleteNotification,
    ClearNotifications,
    HandleSourceNotification,
    GetMangas,
    PostCancelRequest,
    AddMangaToLibrary,
    RemoveMangaFromLibrary,
    GetCachedMangaChapters,
    RefreshMangaChapters,
    GetCachedMangaDetails,
    RefreshMangaDetails,
    MarkChaptersAsRead,
    DownloadMangaChapter,
    RevokeMangaChapter,
    MarkChapterAsRead,
    UpdateLastRead,
    GetMangaPreferredScanlator,
    SetMangaPreferredScanlator,
}

/// A request that is answered. Names in braces stand for parts of the path.
#[derive(Clone, Debug, PartialEq, Eq)]
pub struct Route {
    pub method: Method,
    pub path: &'static str,
    pub endpoint: Endpoint,
}

/// How the request for an endpoint is made.
pub open spec fn method_of(endpoint: Endpoint) -> Method {
    match endpoint {
        Endpoint::GetMangaLibrary => Method::Get,
        Endpoint::FindOrphanOrReadFiles => Method::Get,
        Endpoint::GetCountNotifications => Method::Get,
        Endpoint::GetNotifications => Method::Get,
        Endpoint::DeleteNotification => Method::Delete,
        Endpoint::GetMangas => Method::Get,
        Endpoint::GetCachedMangaChapters => Method::Get,
        Endpoint::GetCachedMangaDetails => Method::Get,
        Endpoint::GetMangaPreferredScanlator => Method::Get,
        _ => Method::Post,
    }
}

/// The path of the request for an endpoint.
pub open spec fn path_of(endpoint: Endpoint) -> Seq<char> {
    match endpoint {
        Endpoint::GetMangaLibrary => "/library"@,
        Endpoint::FindOrphanOrReadFiles => "/find-orphan-or-read-files"@,
        Endpoint::DeleteFile => "/delete-file"@,
        Endpoint::SyncDatabase => "/sync-database"@,
        Endpoint::CheckMangasUpdate => "/check-mangas-update"@,
        Endpoint::GetCountNotifications => "/count-notifications"@,
        Endpoint::GetNotifications => "/notifications"@,
        Endpoint::DeleteNotification => "/notifications/{id}"@,
        Endpoint::ClearNotifications => "/clear-notifications"@,
        Endpoint::HandleSourceNotification => "/{source_id}/handle-source-notification/{key}"@,
        Endpoint::GetMangas => "/mangas"@,
        Endpoint::PostCancelRequest => "/cancel-request"@,
        Endpoint::AddMangaToLibrary => "/mangas/{source_id}/{manga_id}/add-to-library"@,
        Endpoint::RemoveMangaFromLibrary => "/mangas/{source_id}/{manga_id}/remove-from-library"@,
        Endpoint::GetCachedMangaChapters => "/mangas/{source_id}/{manga_id}/chapters"@,
        Endpoint::RefreshMangaChapters => "/mangas/{source_id}/{manga_id}/refresh-chapters"@,
        Endpoint::GetCachedMangaDetails => "/mangas/{source_id}/{manga_id}/details"@,
        Endpoint::RefreshMangaDetails => "/mangas/{source_id}/{manga_id}/refresh-details"@,
        Endpoint::MarkChaptersAsRead => "/mangas/{source_id}/{manga_id}/mark-as-read"@,
        Endpoint::DownloadMangaChapter => "/mangas/{source_id}/{manga_id}/chapters/{chapter_id}/download"@,
        Endpoint::RevokeMangaChapter => "/mangas/{source_id}/{manga_id}/chapters/{chapter_id}/revoke"@,
        Endpoint::MarkChapterAsRead => "/mangas/{source_id}/{manga_id}/chapters/{chapter_id}/mark-as-read"@,
        Endpoint::UpdateLastRead => "/mangas/{source_id}/{manga_id}/chapters/{chapter_id}/update-last-read"@,
        Endpoint::GetMangaPreferredScanlator => "/mangas/{source_id}/{manga_id}/preferred-scanlator"@,
        Endpoint::SetMangaPreferredScanlator => "/mangas/{source_id}/{manga_id}/preferred-scanlator"@,
    }
}

/// All endpoints, in order.
pub open spec fn endpoints() -> Seq<Endpoint> {
    seq![
        Endpoint::GetMangaLibrary,
        Endpoint::FindOrphanOrReadFiles,
        Endpoint::DeleteFile,
        Endpoint::SyncDatabase,
        Endpoint::CheckMangasUpdate,
        Endpoint::GetCountNotifications,
        Endpoint::GetNotifications,
        Endpoint::DeleteNotification,
        Endpoint::ClearNotifications,
        Endpoint::HandleSourceNotification,
        Endpoint::GetMangas,
        Endpoint::PostCancelRequest,
        Endpoint::AddMangaToLibrary,
        Endpoint::RemoveMangaFromLibrary,
        Endpoint::GetCachedMangaChapters,
        Endpoint::RefreshMangaChapters,
        Endpoint::GetCachedMangaDetails,
        Endpoint::RefreshMangaDetails,
        Endpoint::MarkChaptersAsRead,
        Endpoint::DownloadMangaChapter,
        Endpoint::RevokeMangaChapter,
        Endpoint::MarkChapterAsRead,
        Endpoint::UpdateLastRead,
        Endpoint::GetMangaPreferredScanlator,
        Endpoint::SetMangaPreferredScanlator,
    ]
}

/// Whether a route is the one of its endpoint.
pub open spec fn is_route(route: Route, endpoint: Endpoint) -> bool {
    &&& route.endpoint == endpoint
    &&& route.method == method_of(endpoint)
    &&& route.path@ == path_of(endpoint)
}

/// The requests that are answered.
pub fn routes() -> (r: Vec<Route>)
    ensures
        r@.len() == endpoints().len(),
        forall|i: int| 0 <= i < r@.len() ==> is_route(#[trigger] r@[i], endpoints()[i]),
{
    vec![
        Route {
            method: Method::Get,
            path: "/library",
            endpoint: Endpoint::GetMangaLibrary,
        },
        Route {
            method: Method::Get,
            path: "/find-orphan-or-read-files",
            endpoint: Endpoint::FindOrphanOrReadFiles,
        },
        Route {
            method: Method::Post,
            path: "/delete-file",
            endpoint: Endpoint::DeleteFile,
        },
        Route {
            method: Method::Post,
            path: "/sync-database",
            endpoint: Endpoint::SyncDatabase,
        },
        Route {
            method: Method::Post,
            path: "/check-mangas-update",
            endpoint: Endpoint::CheckMangasUpdate,
        },
        Route {
            method: Method::Get,
            path: "/count-notifications",
            endpoint: Endpoint::GetCountNotifications,
        },
        Route {
            method: Method::Get,
            path: "/notifications",
            endpoint: Endpoint::GetNotifications,
        },
        Route {
            method: Method::Delete,
            path: "/notifications/{id}",
            endpoint: Endpoint::DeleteNotification,
        },
        Route {
            method: Method::Post,
            path: "/clear-notifications",
            endpoint: Endpoint::ClearNotifications,
        },
        Route {
            method: Method::Post,
            path: "/{source_id}/handle-source-notification/{key}",
            endpoint: Endpoint::HandleSourceNotification,
        },
        Route {
            method: Method::Get,
            path: "/mangas",
            endpoint: Endpoint::GetMangas,
        },
        Route {
            method: Method::Post,
            path: "/cancel-request",
            endpoint: Endpoint::PostCancelRequest,
        },
        Route {
            method: Method::Post,
            path: "/mangas/{source_id}/{manga_id}/add-to-library",
            endpoint: Endpoint::AddMangaToLibrary,
        },
        Route {
            method: Method::Post,
            path: "/mangas/{source_id}/{manga_id}/remove-from-library",
            endpoint: Endpoint::RemoveMangaFromLibrary,
        },
        Route {
            method: Method::Get,
            path: "/mangas/{source_id}/{manga_id}/chapters",
            endpoint: Endpoint::GetCachedMangaChapters,
        },
        Route {
            method: Method::Post,
            path: "/mangas/{source_id}/{manga_id}/refresh-chapters",
            endpoint: Endpoint::RefreshMangaChapters,
        },
        Route {
            method: Method::Get,
            path: "/mangas/{source_id}/{manga_id}/details",
            endpoint: Endpoint::GetCachedMangaDetails,
        },
        Route {
            method: Method::Post,
            path: "/mangas/{source_id}/{manga_id}/refresh-details",
            endpoint: Endpoint::RefreshMangaDetails,
        },
        Route {
            method: Method::Post,
            path: "/mangas/{source_id}/{manga_id}/mark-as-read",
            endpoint: Endpoint::MarkChaptersAsRead,
        },
        Route {
            method: Method::Post,
            path: "/mangas/{source_id}/{manga_id}/chapters/{chapter_id}/download",
            endpoint: Endpoint::DownloadMangaChapter,
        },
        Route {
            method: Method::Post,
            path: "/mangas/{source_id}/{manga_id}/chapters/{chapter_id}/revoke",
            endpoint: Endpoint::RevokeMangaChapter,
        },
        Route {
            method: Method::Post,
            path: "/mangas/{source_id}/{manga_id}/chapters/{chapter_id}/mark-as-read",
            endpoint: Endpoint::MarkChapterAsRead,
        },
        Route {
            method: Method::Post,
            path: "/mangas/{source_id}/{manga_id}/chapters/{chapter_id}/update-last-read",
            endpoint: Endpoint::UpdateLastRead,
        },
        Route {
            method: Method::Get,
            path: "/mangas/{source_id}/{manga_id}/preferred-scanlator",
            endpoint: Endpoint::GetMangaPreferredScanlator,
        },
        Route {
            method: Method::Post,
            path: "/mangas/{source_id}/{manga_id}/preferred-scanlator",
            endpoint: Endpoint::SetMangaPreferredScanlator,
        },
    ]
}

/// What tells the path of an endpoint from those of the others.
proof fn lemma_path(endpoint: Endpoint)
    ensures
        match endpoint {
            Endpoint::GetMangaLibrary => path_of(endpoint).len() == 8,
            Endpoint::FindOrphanOrReadFiles => path_of(endpoint).len() == 26,
            Endpoint::DeleteFile => path_of(endpoint).len() == 12,
            Endpoint::SyncDatabase => path_of(endpoint).len() == 14,
            Endpoint::CheckMangasUpdate => path_of(endpoint).len() == 20 && path_of(endpoint)[2]
                == 'h',
            Endpoint::GetCountNotifications => path_of(endpoint).len() == 20,
            Endpoint::GetNotifications => path_of(endpoint).len() == 14,
            Endpoint::DeleteNotification => path_of(endpoint).len() == 19,
            Endpoint::ClearNotifications => path_of(endpoint).len() == 20 && path_of(endpoint)[2]
                == 'l',
            Endpoint::HandleSourceNotification => path_of(endpoint).len() == 45 && path_of(endpoint)[1]
                == '{',
            Endpoint::GetMangas => path_of(endpoint).len() == 7,
            Endpoint::PostCancelRequest => path_of(endpoint).len() == 15,
            Endpoint::AddMangaToLibrary => path_of(endpoint).len() == 45 && path_of(endpoint)[1]
                == 'm',
            Endpoint::RemoveMangaFromLibrary => path_of(endpoint).len() == 50 && path_of(endpoint)[31]
                == 'r',
            Endpoint::GetCachedMangaChapters => path_of(endpoint).len() == 39,
            Endpoint::RefreshMangaChapters => path_of(endpoint).len() == 47,
            Endpoint::GetCachedMangaDetails => path_of(endpoint).len() == 38,
            Endpoint::RefreshMangaDetails => path_of(endpoint).len() == 46,
            Endpoint::MarkChaptersAsRead => path_of(endpoint).len() == 43,
            Endpoint::DownloadMangaChapter => path_of(endpoint).len() == 61,
            Endpoint::RevokeMangaChapter => path_of(endpoint).len() == 59,
            Endpoint::MarkChapterAsRead => path_of(endpoint).len() == 65,
            Endpoint::UpdateLastRead => path_of(endpoint).len() == 69,
            Endpoint::GetMangaPreferredScanlator => path_of(endpoint).len() == 50,
            Endpoint::SetMangaPreferredScanlator => path_of(endpoint).len() == 50 && path_of(endpoint)[31]
                == 'p',
        },
{
    match endpoint {
        Endpoint::GetMangaLibrary => {
            reveal_strlit("/library");
        },
        Endpoint::FindOrphanOrReadFiles => {
            reveal_strlit("/find-orphan-or-read-files");
        },
        Endpoint::DeleteFile => {
            reveal_strlit("/delete-file");
        },
        Endpoint::SyncDatabase => {
            reveal_strlit("/sync-database");
        },
        Endpoint::CheckMangasUpdate => {
            reveal_strlit("/check-mangas-update");
        },
        Endpoint::GetCountNotifications => {
            reveal_strlit("/count-notifications");
        },
        Endpoint::GetNotifications => {
            reveal_strlit("/notifications");
        },
        Endpoint::DeleteNotification => {
            reveal_strlit("/notifications/{id}");
        },
        Endpoint::ClearNotifications => {
            reveal_strlit("/clear-notifications");
        },
        Endpoint::HandleSourceNotification => {
            reveal_strlit("/{source_id}/handle-source-notification/{key}");
        },
        Endpoint::GetMangas => {
            reveal_strlit("/mangas");
        },
        Endpoint::PostCancelRequest => {
            reveal_strlit("/cancel-request");
        },
        Endpoint::AddMangaToLibrary => {
            reveal_strlit("/mangas/{source_id}/{manga_id}/add-to-library");
        },
        Endpoint::RemoveMangaFromLibrary => {
            reveal_strlit("/mangas/{source_id}/{manga_id}/remove-from-library");
        },
        Endpoint::GetCachedMangaChapters => {
            reveal_strlit("/mangas/{source_id}/{manga_id}/chapters");
        },
        Endpoint::RefreshMangaChapters => {
            reveal_strlit("/mangas/{source_id}/{manga_id}/refresh-chapters");
        },
        Endpoint::GetCachedMangaDetails => {
            reveal_strlit("/mangas/{source_id}/{manga_id}/details");
        },
        Endpoint::RefreshMangaDetails => {
            reveal_strlit("/mangas/{source_id}/{manga_id}/refresh-details");
        },
        Endpoint::MarkChaptersAsRead => {
            reveal_strlit("/mangas/{source_id}/{manga_id}/mark-as-read");
        },
        Endpoint::DownloadMangaChapter => {
            reveal_strlit("/mangas/{source_id}/{manga_id}/chapters/{chapter_id}/download");
        },
        Endpoint::RevokeMangaChapter => {
            reveal_strlit("/mangas/{source_id}/{manga_id}/chapters/{chapter_id}/revoke");
        },
        Endpoint::MarkChapterAsRead => {
            reveal_strlit("/mangas/{source_id}/{manga_id}/chapters/{chapter_id}/mark-as-read");
        },
        Endpoint::UpdateLastRead => {
            reveal_strlit("/mangas/{source_id}/{manga_id}/chapters/{chapter_id}/update-last-read");
        },
        Endpoint::GetMangaPreferredScanlator => {
            reveal_strlit("/mangas/{source_id}/{manga_id}/preferred-scanlator");
        },
        Endpoint::SetMangaPreferredScanlator => {
            reveal_strlit("/mangas/{source_id}/{manga_id}/preferred-scanlator");
        },
    }
}

/// No two endpoints answer the same request.
pub proof fn lemma_requests_differ(a: Endpoint, b: Endpoint)
    requires
        a != b,
    ensures
        method_of(a) != method_of(b) || path_of(a) != path_of(b),
{
    lemma_path(a);
    lemma_path(b);
}

/// Every endpoint has exactly one route.
pub proof fn lemma_every_endpoint_has_one_route(endpoint: Endpoint) -> (i: int)
    ensures
        0 <= i < endpoints().len(),
        endpoints()[i] == endpoint,
        forall|j: int| 0 <= j < endpoints().len() && #[trigger] endpoints()[j] == endpoint ==> j
            == i,
{
    match endpoint {
        Endpoint::GetMangaLibrary => 0,
        Endpoint::FindOrphanOrReadFiles => 1,
        Endpoint::DeleteFile => 2,
        Endpoint::SyncDatabase => 3,
        Endpoint::CheckMangasUpdate => 4,
        Endpoint::GetCountNotifications => 5,
        Endpoint::GetNotifications => 6,
        Endpoint::DeleteNotification => 7,
        Endpoint::ClearNotifications => 8,
        Endpoint::HandleSourceNotification => 9,
        Endpoint::GetMangas => 10,
        Endpoint::PostCancelRequest => 11,
        Endpoint::AddMangaToLibrary => 12,
        Endpoint::RemoveMangaFromLibrary => 13,
        Endpoint::GetCachedMangaChapters => 14,
        Endpoint::RefreshMangaChapters => 15,
        Endpoint::GetCachedMangaDetails => 16,
        Endpoint::RefreshMangaDetails => 17,
        Endpoint::MarkChaptersAsRead => 18,
        Endpoint::DownloadMangaChapter => 19,
        Endpoint::RevokeMangaChapter => 20,
        Endpoint::MarkChapterAsRead => 21,
        Endpoint::UpdateLastRead => 22,
        Endpoint::GetMangaPreferredScanlator => 23,
        Endpoint::SetMangaPreferredScanlator => 24,
    }
}

/// A request reaches the endpoint that its path names, by the method that fits it: what only
/// reads is asked for with `GET`, what changes something with `POST`, and a notification is
/// deleted with `DELETE`. The scanlator that is preferred for a manga is read and settled
/// under one path, by two methods.
pub proof fn lemma_request_reaches_its_endpoint(method: Method, path: Seq<char>, endpoint: Endpoint)
    requires
        method_of(endpoint) == method,
        path_of(endpoint) == path,
    ensures
        path == "/library"@ ==> endpoint is GetMangaLibrary && method is Get,
        path == "/find-orphan-or-read-files"@ ==> endpoint is FindOrphanOrReadFiles && method is Get,
        path == "/delete-file"@ ==> endpoint is DeleteFile && method is Post,
        path == "/sync-database"@ ==> endpoint is SyncDatabase && method is Post,
        path == "/check-mangas-update"@ ==> endpoint is CheckMangasUpdate && method is Post,
        path == "/count-notifications"@ ==> endpoint is GetCountNotifications && method is Get,
        path == "/notifications"@ ==> endpoint is GetNotifications && method is Get,
        path == "/notifications/{id}"@ ==> endpoint is DeleteNotification && method is Delete,
        path == "/clear-notifications"@ ==> endpoint is ClearNotifications && method is Post,
        path == "/{source_id}/handle-source-notification/{key}"@ ==> endpoint is HandleSourceNotification && method is Post,
        path == "/mangas"@ ==> endpoint is GetMangas && method is Get,
        path == "/cancel-request"@ ==> endpoint is PostCancelRequest && method is Post,
        path == "/mangas/{source_id}/{manga_id}/add-to-library"@ ==> endpoint is AddMangaToLibrary && method is Post,
        path == "/mangas/{source_id}/{manga_id}/remove-from-library"@ ==> endpoint is RemoveMangaFromLibrary && method is Post,
        path == "/mangas/{source_id}/{manga_id}/chapters"@ ==> endpoint is GetCachedMangaChapters && method is Get,
        path == "/mangas/{source_id}/{manga_id}/refresh-chapters"@ ==> endpoint is RefreshMangaChapters && method is Post,
        path == "/mangas/{source_id}/{manga_id}/details"@ ==> endpoint is GetCachedMangaDetails && method is Get,
        path == "/mangas/{source_id}/{manga_id}/refresh-details"@ ==> endpoint is RefreshMangaDetails && method is Post,
        path == "/mangas/{source_id}/{manga_id}/mark-as-read"@ ==> endpoint is MarkChaptersAsRead && method is Post,
        path == "/mangas/{source_id}/{manga_id}/chapters/{chapter_id}/download"@ ==> endpoint is DownloadMangaChapter && method is Post,
        path == "/mangas/{source_id}/{manga_id}/chapters/{chapter_id}/revoke"@ ==> endpoint is RevokeMangaChapter && method is Post,
        path == "/mangas/{source_id}/{manga_id}/chapters/{chapter_id}/mark-as-read"@ ==> endpoint is MarkChapterAsRead && method is Post,
        path == "/mangas/{source_id}/{manga_id}/chapters/{chapter_id}/update-last-read"@ ==> endpoint is UpdateLastRead && method is Post,
        path == "/mangas/{source_id}/{manga_id}/preferred-scanlator"@ ==> (endpoint is GetMangaPreferredScanlator
            && method is Get) || (endpoint is SetMangaPreferredScanlator && method is Post),
{
    reveal_strlit("/library");
    reveal_strlit("/find-orphan-or-read-files");
    reveal_strlit("/delete-file");
    reveal_strlit("/sync-database");
    reveal_strlit("/check-mangas-update");
    reveal_strlit("/count-notifications");
    reveal_strlit("/notifications");
    reveal_strlit("/notifications/{id}");
    reveal_strlit("/clear-notifications");
    reveal_strlit("/{source_id}/handle-source-notification/{key}");
    reveal_strlit("/mangas");
    reveal_strlit("/cancel-request");
    reveal_strlit("/mangas/{source_id}/{manga_id}/add-to-library");
    reveal_strlit("/mangas/{source_id}/{manga_id}/remove-from-library");
    reveal_strlit("/mangas/{source_id}/{manga_id}/chapters");
    reveal_strlit("/mangas/{source_id}/{manga_id}/refresh-chapters");
    reveal_strlit("/mangas/{source_id}/{manga_id}/details");
    reveal_strlit("/mangas/{source_id}/{manga_id}/refresh-details");
    reveal_strlit("/mangas/{source_id}/{manga_id}/mark-as-read");
    reveal_strlit("/mangas/{source_id}/{manga_id}/chapters/{chapter_id}/download");
    reveal_strlit("/mangas/{source_id}/{manga_id}/chapters/{chapter_id}/revoke");
    reveal_strlit("/mangas/{source_id}/{manga_id}/chapters/{chapter_id}/mark-as-read");
    reveal_strlit("/mangas/{source_id}/{manga_id}/chapters/{chapter_id}/update-last-read");
    reveal_strlit("/mangas/{source_id}/{manga_id}/preferred-scanlator");
    assert("/sync-database"@[1] == 's' && "/notifications"@[1] == 'n');
    assert("/mangas/{source_id}/{manga_id}/remove-from-library"@[31] == 'r');
    assert("/mangas/{source_id}/{manga_id}/preferred-scanlator"@[31] == 'p');
    assert("/check-mangas-update"@[2] == 'h' && "/count-notifications"@[2] == 'o');
    lemma_path(endpoint);
}

/// Every endpoint that is about one manga names it in its path, by its source and its id
/// there; and every one that is about one chapter names the chapter as well. What is cached
/// is read under the name under which it is refreshed.
pub proof fn lemma_paths_name_what_they_are_about(endpoint: Endpoint)
    ensures
        endpoint is AddMangaToLibrary || endpoint is RemoveMangaFromLibrary
            || endpoint is GetCachedMangaChapters || endpoint is RefreshMangaChapters
            || endpoint is GetCachedMangaDetails || endpoint is RefreshMangaDetails
            || endpoint is MarkChaptersAsRead || endpoint is DownloadMangaChapter
            || endpoint is RevokeMangaChapter || endpoint is MarkChapterAsRead
            || endpoint is UpdateLastRead || endpoint is GetMangaPreferredScanlator
            || endpoint is SetMangaPreferredScanlator
            ==> "/mangas/{source_id}/{manga_id}/"@.is_prefix_of(path_of(endpoint)),
        endpoint is DownloadMangaChapter || endpoint is RevokeMangaChapter
            || endpoint is MarkChapterAsRead || endpoint is UpdateLastRead
            ==> "/mangas/{source_id}/{manga_id}/chapters/{chapter_id}/"@.is_prefix_of(
            path_of(endpoint),
        ),
        path_of(Endpoint::RefreshMangaChapters) == "/mangas/{source_id}/{manga_id}/refresh-"@
            + path_of(Endpoint::GetCachedMangaChapters).skip(31),
        path_of(Endpoint::RefreshMangaDetails) == "/mangas/{source_id}/{manga_id}/refresh-"@
            + path_of(Endpoint::GetCachedMangaDetails).skip(31),
        path_of(Endpoint::GetMangaPreferredScanlator) == path_of(
            Endpoint::SetMangaPreferredScanlator,
        ),
{
    reveal_strlit("/library");
    reveal_strlit("/find-orphan-or-read-files");
    reveal_strlit("/delete-file");
    reveal_strlit("/sync-database");
    reveal_strlit("/check-mangas-update");
    reveal_strlit("/count-notifications");
    reveal_strlit("/notifications");
    reveal_strlit("/notifications/{id}");
    reveal_strlit("/clear-notifications");
    reveal_strlit("/{source_id}/handle-source-notification/{key}");
    reveal_strlit("/mangas");
    reveal_strlit("/cancel-request");
    reveal_strlit("/mangas/{source_id}/{manga_id}/add-to-library");
    reveal_strlit("/mangas/{source_id}/{manga_id}/remove-from-library");
    reveal_strlit("/mangas/{source_id}/{manga_id}/chapters");
    reveal_strlit("/mangas/{source_id}/{manga_id}/refresh-chapters");
    reveal_strlit("/mangas/{source_id}/{manga_id}/details");
    reveal_strlit("/mangas/{source_id}/{manga_id}/refresh-details");
    reveal_strlit("/mangas/{source_id}/{manga_id}/mark-as-read");
    reveal_strlit("/mangas/{source_id}/{manga_id}/chapters/{chapter_id}/download");
    reveal_strlit("/mangas/{source_id}/{manga_id}/chapters/{chapter_id}/revoke");
    reveal_strlit("/mangas/{source_id}/{manga_id}/chapters/{chapter_id}/mark-as-read");
    reveal_strlit("/mangas/{source_id}/{manga_id}/chapters/{chapter_id}/update-last-read");
    reveal_strlit("/mangas/{source_id}/{manga_id}/preferred-scanlator");
    reveal_strlit("/mangas/{source_id}/{manga_id}/");
    reveal_strlit("/mangas/{source_id}/{manga_id}/chapters/{chapter_id}/");
    reveal_strlit("/mangas/{source_id}/{manga_id}/refresh-");
    let path = path_of(endpoint);
    let manga = "/mangas/{source_id}/{manga_id}/"@;
    let chapter = "/mangas/{source_id}/{manga_id}/chapters/{chapter_id}/"@;
    assert(path.len() >= manga.len() && path.take(manga.len() as int) =~= manga
        ==> manga.is_prefix_of(path));
    assert(path.len() >= chapter.len() && path.take(chapter.len() as int) =~= chapter
        ==> chapter.is_prefix_of(path));
    assert(path_of(Endpoint::RefreshMangaChapters) =~= "/mangas/{source_id}/{manga_id}/refresh-"@
        + path_of(Endpoint::GetCachedMangaChapters).skip(31));
    assert(path_of(Endpoint::RefreshMangaDetails) =~= "/mangas/{source_id}/{manga_id}/refresh-"@
        + path_of(Endpoint::GetCachedMangaDetails).skip(31));
}

}
