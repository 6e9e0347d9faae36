use rakuyomi::chapter_storage::ChapterStorage;
use rakuyomi::chapters::CleanUp;
use rakuyomi::clock::Instant;
use rakuyomi::database::Database;
use rakuyomi::model::{
    ChapterId, ChapterInformation, ChapterState, LibrarySortingMode, MangaId, MangaInformation,
    MangaState, PublishingStatus, SourceId, SourceInformation,
};
use rakuyomi::rows::{
    CachedChapterRow, ChapterInformationsRow, ChapterStateRow, MangaDetailsRow,
    MangaInformationsRow, MangaLibraryRow, MangaLibraryRowWithReadCount, MangaStateRow,
    NextCheckRow, NotificationInformationRow, ReadChapterRow, StatusRow, UnreadChaptersRow,
    UnreadChaptersRowFull, UnreadableRow,
};
use rakuyomi::source::Manga;
use rakuyomi::statement::{Bind, Statement};
use rakuyomi::storage_files::FileEntry;
use sqlx::sqlite::{SqliteArguments, SqliteConnection, SqliteRow};
use sqlx::{Connection, Executor, Row};

const SCHEMA: &str = "
CREATE TABLE manga_informations (source_id TEXT NOT NULL, manga_id TEXT NOT NULL, title TEXT,
    author TEXT, artist TEXT, cover_url TEXT, PRIMARY KEY (source_id, manga_id));
CREATE TABLE chapter_informations (source_id TEXT NOT NULL, manga_id TEXT NOT NULL,
    chapter_id TEXT NOT NULL, manga_order INTEGER NOT NULL, title TEXT, scanlator TEXT,
    chapter_number REAL, volume_number REAL, last_updated INTEGER, thumbnail TEXT, lang TEXT,
    locked INTEGER NOT NULL DEFAULT 0, PRIMARY KEY (source_id, manga_id, chapter_id));
CREATE TABLE manga_library (source_id TEXT NOT NULL, manga_id TEXT NOT NULL,
    PRIMARY KEY (source_id, manga_id));
CREATE TABLE chapter_state (source_id TEXT NOT NULL, manga_id TEXT NOT NULL,
    chapter_id TEXT NOT NULL, read BOOLEAN NOT NULL, last_read INTEGER,
    PRIMARY KEY (source_id, manga_id, chapter_id));
CREATE TABLE manga_state (source_id TEXT NOT NULL, manga_id TEXT NOT NULL,
    preferred_scanlator TEXT, PRIMARY KEY (source_id, manga_id));
CREATE TABLE manga_details (source_id TEXT NOT NULL, id TEXT NOT NULL, title TEXT, author TEXT,
    artist TEXT, description TEXT, tags TEXT, cover_url TEXT, url TEXT, status INTEGER NOT NULL,
    nsfw INTEGER NOT NULL, viewer INTEGER NOT NULL, last_updated TEXT, last_opened TEXT,
    date_added TEXT, PRIMARY KEY (source_id, id));
CREATE TABLE last_check_update (source_id TEXT NOT NULL, manga_id TEXT NOT NULL,
    last_check INTEGER NOT NULL, next_ts_arima INTEGER NOT NULL,
    PRIMARY KEY (source_id, manga_id));
CREATE TABLE notifications (id INTEGER PRIMARY KEY AUTOINCREMENT, source_id TEXT NOT NULL,
    manga_id TEXT NOT NULL, chapter_id TEXT NOT NULL, created_at INTEGER NOT NULL,
    is_read INTEGER NOT NULL DEFAULT 0);
CREATE TABLE playlists (id INTEGER PRIMARY KEY AUTOINCREMENT, name TEXT NOT NULL);
CREATE TABLE playlist_mangas (playlist_id INTEGER NOT NULL, source_id TEXT NOT NULL,
    manga_id TEXT NOT NULL, PRIMARY KEY (playlist_id, source_id, manga_id));
";

/// An empty database in memory, and a runtime to ask it with.
struct Sqlite {
    runtime: tokio::runtime::Runtime,
    connection: SqliteConnection,
}

impl Sqlite {
    fn new() -> Sqlite {
        let runtime = tokio::runtime::Builder::new_current_thread().enable_all().build().unwrap();
        let connection = runtime.block_on(async {
            let mut connection = SqliteConnection::connect("sqlite::memory:").await.unwrap();
            connection.execute(SCHEMA).await.unwrap();
            connection
        });
        Sqlite { runtime, connection }
    }

    fn bound(statement: &Statement) -> sqlx::query::Query<'_, sqlx::Sqlite, SqliteArguments<'_>> {
        let mut query = sqlx::query(&statement.sql);
        for bind in &statement.binds {
            query = match bind {
                Bind::Text(t) => query.bind(t),
                Bind::OptionalText(t) => query.bind(t.as_ref()),
                Bind::Integer(v) => query.bind(v),
                Bind::OptionalInteger(v) => query.bind(v),
                Bind::Boolean(v) => query.bind(v),
                Bind::OptionalNumber(t) => query.bind(t.as_ref().map(|t| t.parse::<f32>().unwrap())),
            };
        }
        query
    }

    fn run(&mut self, statement: &Statement) {
        let connection = &mut self.connection;
        self.runtime.block_on(async {
            Self::bound(statement).execute(connection).await.unwrap();
        });
    }

    fn ask(&mut self, statement: &Statement) -> Vec<SqliteRow> {
        let connection = &mut self.connection;
        self.runtime.block_on(async {
            Self::bound(statement).fetch_all(connection).await.unwrap()
        })
    }
}

fn text(t: &str) -> String {
    t.to_string()
}

fn database() -> Database {
    Database { filename: text("/d/db") }
}

fn manga(n: &str) -> MangaId {
    MangaId::from_strings(text("src"), text(n))
}

fn chapter(manga_id: &str, n: &str) -> ChapterId {
    ChapterId::from_strings(text("src"), text(manga_id), text(n))
}

fn manga_info(n: &str, title: &str) -> MangaInformation {
    MangaInformation {
        id: manga(n),
        title: Some(text(title)),
        author: Some(text("Author")),
        artist: None,
        cover_url: Some(text("https://example.org/c.png")),
    }
}

fn chapter_info(manga_id: &str, n: &str, number: &str) -> ChapterInformation {
    ChapterInformation {
        id: chapter(manga_id, n),
        title: Some(format!("Chapter {}", n)),
        scanlator: None,
        chapter_number: Some(text(number)),
        volume_number: None,
        last_updated: Some(1700000000),
        thumbnail: Some(text("https://example.org/t.png")),
        lang: Some(text("en")),
        url: Some(text("https://example.org/u")),
        locked: Some(true),
    }
}

fn number(row: &SqliteRow, column: &str) -> Option<String> {
    row.get::<Option<f64>, _>(column).map(|n| (n as f32).to_string())
}

fn chapter_row(row: &SqliteRow) -> ChapterInformationsRow {
    ChapterInformationsRow {
        source_id: row.get("source_id"),
        manga_id: row.get("manga_id"),
        chapter_id: row.get("chapter_id"),
        manga_order: row.get("manga_order"),
        title: row.get("title"),
        scanlator: row.get("scanlator"),
        chapter_number: number(row, "chapter_number"),
        volume_number: number(row, "volume_number"),
        last_updated: row.get("last_updated"),
        thumbnail: row.get("thumbnail"),
        lang: row.get("lang"),
        locked: row.get("locked"),
    }
}

fn library_row(row: &SqliteRow) -> MangaLibraryRowWithReadCount {
    MangaLibraryRowWithReadCount {
        source_id: row.get(0),
        manga_id: row.get(1),
        title: row.get(2),
        author: row.get(3),
        artist: row.get(4),
        cover_url: row.get(5),
        unread_chapters_count: row.get(6),
        last_read: row.get(7),
    }
}

fn status_row(row: &SqliteRow) -> StatusRow {
    StatusRow {
        manga_id: row.get("manga_id"),
        source_id: row.get("source_id"),
        status: row.get("status"),
    }
}

fn sources() -> Vec<SourceInformation> {
    vec![SourceInformation { id: SourceId::new(text("src")), name: text("Source") }]
}

fn write_chapters(sqlite: &mut Sqlite, id: &MangaId, infos: &Vec<ChapterInformation>) {
    let db = database();
    let rows = sqlite.ask(&db.find_cached_chapter_ids_statement(id));
    let cached: Vec<String> = rows.iter().map(|row| row.get(0)).collect();
    let cached = db.find_cached_chapter_ids(id, &cached);
    for statement in db.upsert_cached_chapter_informations(id, &cached, infos) {
        sqlite.run(&statement);
    }
}

fn titles(sqlite: &mut Sqlite, statement: &Statement) -> Vec<String> {
    sqlite.ask(statement).iter().map(|row| row.get::<String, _>(2)).collect()
}

/// Three mangas in the library: one read in part, one not begun, one without chapters.
fn library() -> Sqlite {
    let mut sqlite = Sqlite::new();
    let db = database();
    let infos = vec![manga_info("1", "beta"), manga_info("2", "Alpha"), manga_info("3", "gamma")];
    for statement in db.upsert_cached_manga_information(&infos) {
        sqlite.run(&statement);
    }
    for n in ["1", "2", "3"] {
        sqlite.run(&db.add_manga_to_library(&manga(n)));
    }
    let chapters = vec![
        chapter_info("1", "a", "1"),
        chapter_info("1", "b", "2"),
        chapter_info("1", "c", "2.5"),
    ];
    write_chapters(&mut sqlite, &manga("1"), &chapters);
    write_chapters(&mut sqlite, &manga("2"), &vec![chapter_info("2", "a", "1")]);
    sqlite.run(&db.mark_chapter_as_read_at(&chapter("1", "a"), None, 1000));
    sqlite
}

#[test]
fn the_library_lists_its_mangas_with_unread_chapters() {
    let mut sqlite = library();
    let db = database();
    let statement = db.get_manga_library_with_read_count_statement(LibrarySortingMode::Ascending);
    let rows: Vec<_> = sqlite.ask(&statement).iter().map(library_row).collect();
    let mangas = db.get_manga_library_with_read_count(&rows, &sources());
    assert_eq!(mangas.len(), 3);
    let unread: Vec<_> = mangas.iter().map(|m| m.unread_chapters_count).collect();
    assert_eq!(unread, vec![Some(2), Some(1), Some(0)]);
    assert_eq!(mangas[0].last_read, Some(1000));
    assert_eq!(mangas[1].last_read, None);
    assert_eq!(mangas[0].information, manga_info("1", "beta"));
    assert_eq!(mangas[0].source_information, sources()[0]);
    assert!(mangas.iter().all(|m| m.in_library));
    assert_eq!(db.get_manga_library_with_read_count(&rows, &vec![]), vec![]);
}

#[test]
fn every_sorting_mode_sorts_the_library() {
    let mut sqlite = library();
    let db = database();
    let mut sorted = |mode: LibrarySortingMode| {
        titles(&mut sqlite, &db.get_manga_library_with_read_count_statement(mode)).join(" ")
    };
    assert_eq!(sorted(LibrarySortingMode::Ascending), "beta Alpha gamma");
    assert_eq!(sorted(LibrarySortingMode::Descending), "gamma Alpha beta");
    assert_eq!(sorted(LibrarySortingMode::TitleAsc), "Alpha beta gamma");
    assert_eq!(sorted(LibrarySortingMode::TitleDesc), "gamma beta Alpha");
    assert_eq!(sorted(LibrarySortingMode::UnreadAsc), "gamma Alpha beta");
    assert_eq!(sorted(LibrarySortingMode::UnreadDesc), "beta Alpha gamma");
    assert!(sorted(LibrarySortingMode::LastReadAsc).starts_with("beta"));
    assert!(sorted(LibrarySortingMode::LastReadDesc).starts_with("beta"));
    assert_eq!(sorted(LibrarySortingMode::SourceAsc), "Alpha beta gamma");
    assert_eq!(sorted(LibrarySortingMode::SourceDesc), "gamma beta Alpha");
}

#[test]
fn every_sorting_mode_shows_the_same_mangas() {
    let mut sqlite = library();
    let db = database();
    let mut shown = |mode: LibrarySortingMode| {
        let statement = db.get_manga_library_with_read_count_statement(mode);
        let rows: Vec<_> = sqlite.ask(&statement).iter().map(library_row).collect();
        db.get_manga_library_with_read_count(&rows, &sources())
    };
    let ascending = shown(LibrarySortingMode::Ascending);
    assert_eq!(ascending.len(), 3);
    assert!(ascending.iter().all(|manga| manga.in_library));
    let mut reversed = shown(LibrarySortingMode::Descending);
    reversed.reverse();
    assert_eq!(reversed, ascending);
    for mode in [
        LibrarySortingMode::TitleAsc,
        LibrarySortingMode::TitleDesc,
        LibrarySortingMode::UnreadAsc,
        LibrarySortingMode::UnreadDesc,
        LibrarySortingMode::LastReadAsc,
        LibrarySortingMode::LastReadDesc,
        LibrarySortingMode::SourceAsc,
        LibrarySortingMode::SourceDesc,
    ] {
        let mangas = shown(mode);
        assert_eq!(mangas.len(), ascending.len());
        for manga in &ascending {
            assert_eq!(mangas.iter().filter(|other| *other == manga).count(), 1);
        }
    }
}

#[test]
fn playlists_hold_mangas_in_every_order() {
    let mut sqlite = library();
    let db = database();
    let row = &sqlite.ask(&db.create_playlist_statement(&text("Later")))[0];
    let playlist = db.create_playlist(text("Later"), row.get(0));
    for n in ["3", "1", "1"] {
        sqlite.run(&db.add_manga_to_playlist(playlist.id, &manga(n)));
    }
    let mut sorted = |mode: LibrarySortingMode| {
        let statement =
            db.get_manga_library_in_playlist_with_read_count_statement(playlist.id, mode);
        titles(&mut sqlite, &statement).join(" ")
    };
    assert_eq!(sorted(LibrarySortingMode::Ascending), "gamma beta");
    assert_eq!(sorted(LibrarySortingMode::Descending), "beta gamma");
    assert_eq!(sorted(LibrarySortingMode::TitleAsc), "beta gamma");
    assert_eq!(sorted(LibrarySortingMode::TitleDesc), "gamma beta");
    assert_eq!(sorted(LibrarySortingMode::UnreadAsc), "gamma beta");
    assert_eq!(sorted(LibrarySortingMode::UnreadDesc), "beta gamma");
    assert_eq!(sorted(LibrarySortingMode::LastReadAsc), "beta gamma");
    assert_eq!(sorted(LibrarySortingMode::LastReadDesc), "beta gamma");
    assert_eq!(sorted(LibrarySortingMode::SourceAsc), "beta gamma");
    assert_eq!(sorted(LibrarySortingMode::SourceDesc), "gamma beta");
    let statement = db.get_manga_library_in_playlist_with_read_count_statement(
        playlist.id,
        LibrarySortingMode::TitleAsc,
    );
    let rows: Vec<_> = sqlite.ask(&statement).iter().map(library_row).collect();
    let mangas = db.get_manga_library_in_playlist_with_read_count(&rows, &sources());
    assert_eq!(mangas[0].unread_chapters_count, Some(2));
    assert!(!mangas[0].in_library);
    sqlite.run(&db.rename_playlist(playlist.id, &text("Now")));
    sqlite.run(&db.remove_manga_from_playlist(playlist.id, &manga("3")));
    assert_eq!(titles(&mut sqlite, &statement), vec![text("beta")]);
    let names: Vec<String> =
        sqlite.ask(&db.get_playlists()).iter().map(|row| row.get("name")).collect();
    assert_eq!(names, vec![text("Now")]);
    sqlite.run(&db.delete_playlist(playlist.id));
    assert!(sqlite.ask(&db.get_playlists()).is_empty());
}

#[test]
fn mangas_enter_and_leave_the_library() {
    let mut sqlite = library();
    let db = database();
    let read = |sqlite: &mut Sqlite| {
        let rows = sqlite
            .ask(&db.get_manga_library_statement())
            .iter()
            .map(|row| MangaLibraryRow {
                source_id: row.get("source_id"),
                manga_id: row.get("manga_id"),
            })
            .collect();
        db.get_manga_library(rows)
    };
    sqlite.run(&db.add_manga_to_library(&manga("1")));
    assert_eq!(read(&mut sqlite), vec![manga("1"), manga("2"), manga("3")]);
    sqlite.run(&db.remove_manga_from_library(&manga("2")));
    assert_eq!(read(&mut sqlite), vec![manga("1"), manga("3")]);
}

#[test]
fn unread_chapters_are_counted() {
    let mut sqlite = library();
    let db = database();
    let count = |sqlite: &mut Sqlite, n: &str, state: Option<MangaState>| {
        let rows = sqlite.ask(&db.count_unread_chapters_statement(&manga(n), &state));
        db.count_unread_chapters(&UnreadChaptersRow {
            count: rows[0].get(0),
            has_chapters: rows[0].get(1),
        })
    };
    assert_eq!(count(&mut sqlite, "1", None), Some(2));
    assert_eq!(count(&mut sqlite, "3", None), None);
    let preferred = MangaState { preferred_scanlator: Some(text("nobody")) };
    assert_eq!(count(&mut sqlite, "1", Some(preferred)), Some(2));
    let ids = vec![chapter("1", "a"), chapter("1", "b"), chapter("1", "c")];
    sqlite.run(&db.set_chapters_read_state(&manga("1"), &ids, true).write.unwrap());
    assert_eq!(count(&mut sqlite, "1", None), Some(0));
    sqlite.run(&db.set_chapters_read_state(&manga("1"), &ids, false).write.unwrap());
    assert_eq!(count(&mut sqlite, "1", None), Some(3));
    let nothing = db.set_chapters_read_state(&manga("1"), &vec![], true);
    assert_eq!(nothing.write, None);
    assert_eq!(nothing.find_manga_state, db.find_manga_state_statement(&manga("1")));
    let none = UnreadChaptersRow { count: Some(5), has_chapters: None };
    assert_eq!(db.count_unread_chapters(&none), None);
}

#[test]
fn unread_counts_have_an_entry_for_every_manga() {
    let mut sqlite = library();
    let db = database();
    let ids = vec![manga("1"), manga("3"), manga("unknown"), manga("1")];
    let statement = db.fetch_unread_chapter_counts_minimal_statement(&ids).unwrap();
    let rows: Vec<_> = sqlite
        .ask(&statement)
        .iter()
        .map(|row| UnreadChaptersRowFull {
            source_id: row.get("source_id"),
            manga_id: row.get("manga_id"),
            count: row.get("count"),
            last_time: row.get("last_time"),
            in_library: row.get("in_library"),
        })
        .collect();
    let counts = db.fetch_unread_chapter_counts_minimal(&rows, &ids);
    assert_eq!(counts.entries.len(), 3);
    let of = |n: &str| *counts.get(&manga(n)).unwrap();
    assert_eq!(of("3"), (Some(0), None, true));
    assert_eq!(of("unknown"), (Some(0), None, false));
    assert_eq!(of("1").1, Some(1000));
    assert_eq!(counts.get(&manga("2")), None);
    assert_eq!(db.fetch_unread_chapter_counts_minimal_statement(&vec![]), None);
    let absent = db.fetch_unread_chapter_counts_minimal(&vec![], &vec![manga("9")]);
    assert_eq!(absent.get(&manga("9")), Some(&(None, None, false)));
}

#[test]
fn of_two_counts_for_a_manga_the_later_is_taken() {
    let row = |count: i32, last_time: Option<i32>| UnreadChaptersRowFull {
        source_id: text("src"),
        manga_id: text("1"),
        count: Some(count),
        last_time,
        in_library: true,
    };
    let rows = vec![row(1, Some(5)), row(-1, Some(-7))];
    let counts = database().fetch_unread_chapter_counts_minimal(&rows, &vec![]);
    let found = counts.get(&manga("1"));
    assert_eq!(found, Some(&(Some(-1i32 as usize), Some(-7), true)));
}

#[test]
fn manga_descriptions_are_read_as_they_were_written() {
    let mut sqlite = library();
    let db = database();
    let rows = sqlite.ask(&db.find_cached_manga_information_statement(&manga("1")));
    let row = |cover_url: Option<String>| {
        Some(MangaInformationsRow {
            source_id: rows[0].get("source_id"),
            manga_id: rows[0].get("manga_id"),
            title: rows[0].get("title"),
            author: rows[0].get("author"),
            artist: rows[0].get("artist"),
            cover_url,
        })
    };
    let cover: Option<String> = rows[0].get("cover_url");
    assert_eq!(
        db.find_cached_manga_information(row(cover.clone())),
        Some(manga_info("1", "beta"))
    );
    assert_eq!(
        db.find_readable_manga_information(row(cover)),
        Ok(Some(manga_info("1", "beta")))
    );
    assert_eq!(
        db.find_readable_manga_information(row(Some(text("no url")))),
        Err(UnreadableRow)
    );
    assert_eq!(db.find_readable_manga_information(None), Ok(None));
}

#[test]
fn many_manga_descriptions_are_written_in_batches() {
    let mut sqlite = Sqlite::new();
    let db = database();
    let infos: Vec<_> = (0..250).map(|n| manga_info(&n.to_string(), "T")).collect();
    let statements = db.upsert_cached_manga_information(&infos);
    let sizes: Vec<_> = statements.iter().map(|s| s.binds.len()).collect();
    assert_eq!(sizes, vec![600, 600, 300]);
    for statement in &statements {
        sqlite.run(statement);
    }
    let rows = sqlite.ask(&db.find_cached_manga_information_statement(&manga("249")));
    assert_eq!(rows.len(), 1);
    assert!(db.upsert_cached_manga_information(&vec![]).is_empty());
}

#[test]
fn chapter_descriptions_are_read_as_they_were_written() {
    let mut sqlite = library();
    let db = database();
    let rows = sqlite.ask(&db.find_cached_chapter_informations_statement(&manga("1")));
    let rows: Vec<_> = rows.iter().map(chapter_row).collect();
    assert_eq!(rows[2].manga_order, 2);
    let infos = db.find_cached_chapter_informations(rows);
    let mut expected = chapter_info("1", "c", "2.5");
    expected.url = None;
    assert_eq!(infos[2], expected);
    let rows = sqlite.ask(&db.find_cached_chapter_information_statement(&chapter("1", "c")));
    let found = db.find_cached_chapter_information(Some(chapter_row(&rows[0])));
    assert_eq!(found, Some(expected));
    assert_eq!(db.find_cached_chapter_information(None), None);
}

#[test]
fn chapters_that_are_gone_are_deleted() {
    let mut sqlite = library();
    let db = database();
    let now = vec![chapter_info("1", "c", "3"), chapter_info("1", "d", "4")];
    write_chapters(&mut sqlite, &manga("1"), &now);
    let rows = sqlite.ask(&db.find_cached_chapter_informations_statement(&manga("1")));
    let ids: Vec<String> = rows.iter().map(|row| row.get("chapter_id")).collect();
    assert_eq!(ids, vec![text("c"), text("d")]);
    assert_eq!(number(&rows[0], "chapter_number"), Some(text("3")));
    write_chapters(&mut sqlite, &manga("1"), &vec![]);
    let rows = sqlite.ask(&db.find_cached_chapter_ids_statement(&manga("1")));
    assert!(rows.is_empty());
    let rows = sqlite.ask(&db.find_cached_chapter_ids_statement(&manga("2")));
    assert_eq!(rows.len(), 1);
}

#[test]
fn statements_for_chapters_have_their_text() {
    let db = database();
    let cached = vec![chapter("1", "x"), chapter("1", "y")];
    let statements =
        db.upsert_cached_chapter_informations(&manga("1"), &cached, &vec![chapter_info("1", "a", "1")]);
    assert_eq!(statements.len(), 2);
    assert_eq!(
        statements[0].sql,
        "DELETE FROM chapter_informations WHERE source_id = ? AND manga_id = ? AND chapter_id IN  ((?), (?)) "
    );
    assert_eq!(
        statements[0].binds,
        vec![
            Bind::Text(text("src")),
            Bind::Text(text("1")),
            Bind::Text(text("x")),
            Bind::Text(text("y")),
        ]
    );
    assert!(statements[1].sql.contains(", lang, locked)VALUES (?, ?, ?, ?, ?, ?, ?, ?, ?, ?, ?, ?) ON CONFLICT"));
    assert_eq!(statements[1].binds[3], Bind::Integer(0));
    assert_eq!(statements[1].binds[11], Bind::Integer(1));
}

#[test]
fn statements_are_built_as_by_a_query_builder() {
    let mut deletes: sqlx::QueryBuilder<'_, sqlx::Sqlite> =
        sqlx::QueryBuilder::new("DELETE FROM chapter_informations WHERE ");
    deletes
        .push("source_id = ")
        .push_bind("src")
        .push(" AND manga_id = ")
        .push_bind("1")
        .push(" AND chapter_id IN ")
        .push_tuples(["x", "y", "z"], |mut b, id| {
            b.push_bind(id);
        });
    let cached = vec![chapter("1", "x"), chapter("1", "y"), chapter("1", "z")];
    let statements =
        database().upsert_cached_chapter_informations(&manga("1"), &cached, &vec![]);
    assert_eq!(statements[0].sql, deletes.sql());
    let mut inserts: sqlx::QueryBuilder<'_, sqlx::Sqlite> = sqlx::QueryBuilder::new("HEAD");
    inserts.push_values([1, 2], |mut b, v| {
        for _ in 0..12 {
            b.push_bind(v);
        }
    });
    let infos = vec![chapter_info("1", "a", "1"), chapter_info("1", "b", "2")];
    let statements = database().upsert_cached_chapter_informations(&manga("1"), &vec![], &infos);
    assert!(statements[0].sql.contains(&inserts.sql()[4..]));
}

#[test]
fn chapters_are_written_in_batches_that_keep_their_order() {
    let infos: Vec<_> =
        (0..4100).map(|n| chapter_info("1", &n.to_string(), "1")).collect();
    let statements = database().upsert_cached_chapter_informations(&manga("1"), &vec![], &infos);
    assert_eq!(statements.len(), 2);
    assert_eq!(statements[0].binds.len(), 4095 * 12);
    assert_eq!(statements[1].binds.len(), 5 * 12);
    assert_eq!(statements[1].binds[3], Bind::Integer(4095));
    assert_eq!(statements[1].binds[4 * 12 + 3], Bind::Integer(4099));
}

#[test]
fn deletes_stay_within_the_limit_of_binds() {
    let cached: Vec<_> = (0..32770).map(|n| chapter("1", &n.to_string())).collect();
    let statements = database().upsert_cached_chapter_informations(&manga("1"), &cached, &vec![]);
    assert_eq!(statements.len(), 2);
    assert_eq!(statements[0].binds.len(), 32766);
    assert_eq!(statements[1].binds.len(), 8);
}

#[test]
fn cached_chapter_ids_are_listed_once() {
    let ids = database().find_cached_chapter_ids(&manga("1"), &vec![text("a"), text("b"), text("a")]);
    assert_eq!(ids, vec![chapter("1", "a"), chapter("1", "b")]);
}

#[test]
fn cached_chapters_know_whether_they_are_stored() {
    let mut sqlite = library();
    let db = database();
    let rows: Vec<_> = sqlite
        .ask(&db.find_cached_chapters_statement(&manga("1")))
        .iter()
        .map(|row| CachedChapterRow {
            source_id: row.get(0),
            manga_id: row.get(1),
            chapter_id: row.get(2),
            title: row.get(3),
            scanlator: row.get(4),
            chapter_number: row.get::<Option<f64>, _>(5).map(|n| (n as f32).to_string()),
            volume_number: row.get::<Option<f64>, _>(6).map(|n| (n as f32).to_string()),
            last_updated: row.get(7),
            thumbnail: row.get(8),
            lang: row.get(9),
            locked: row.get(10),
            manga_title: row.get(11),
            read: row.get(12),
            last_read: row.get(13),
        })
        .collect();
    assert_eq!(rows.len(), 3);
    let storage = ChapterStorage::new(text("/d/downloads"), 0, true);
    let existing = vec![
        text("/d/downloads/beta/beta - Chapter 1.cbz"),
        text("/d/tmpfs/beta/beta - Chapter 2.epub"),
    ];
    assert_eq!(db.cached_chapter_paths(&rows[1], &storage, true)[1], existing[1]);
    let chapters = db.find_cached_chapters(&rows, &storage, true, &existing);
    let flags: Vec<_> = chapters.iter().map(|c| (c.downloaded, c.on_tmpfs)).collect();
    assert_eq!(flags, vec![(true, false), (true, true), (false, false)]);
    assert_eq!(chapters[0].state, ChapterState { read: true, last_read: Some(1000) });
    assert_eq!(chapters[1].state, ChapterState { read: false, last_read: None });
    let described = sqlite.ask(&db.find_cached_chapter_informations_statement(&manga("1")));
    let informations =
        db.find_cached_chapter_informations(described.iter().map(chapter_row).collect());
    let cached: Vec<_> = chapters.iter().map(|c| c.information.clone()).collect();
    assert_eq!(cached, informations);
    assert_eq!(chapters[0].information.locked, Some(true));
    let off = db.find_cached_chapters(&rows, &storage, false, &existing);
    assert_eq!((off[1].downloaded, off[1].on_tmpfs), (false, false));
}

#[test]
fn files_of_no_chapter_are_orphans() {
    let mut sqlite = library();
    let db = database();
    let storage = ChapterStorage::new(text("/d"), 0, false);
    let rows = sqlite.ask(&db.find_orphan_or_read_files_statement(true));
    let file = |path: &str| FileEntry {
        path: text(path),
        is_file: true,
        size: None,
        modified: None,
    };
    let known = "/d/Unknown Manga/Unknown Manga - Chapter 1.cbz";
    let clean_up = CleanUp::Orphans {
        entries: vec![file(known), file("/d/other.cbz"), file("/d/notes.txt")],
        rows: rows.iter().map(chapter_row).collect(),
    };
    let candidates = db.orphan_or_read_candidates(&storage, &clean_up);
    assert_eq!(candidates.len(), 16);
    assert!(candidates.contains(&text("/d/Unknown Manga/.Unknown Manga - Chapter 1.errors")));
    let found = db.find_orphan_or_read_files(&storage, &clean_up, &vec![text(known)]);
    assert_eq!(found, vec![text("/d/other.cbz")]);
    let gone = db.find_orphan_or_read_files(&storage, &clean_up, &vec![]);
    assert_eq!(gone, vec![text(known), text("/d/other.cbz")]);
}

#[test]
fn files_of_read_chapters_are_found() {
    let mut sqlite = library();
    let db = database();
    let storage = ChapterStorage::new(text("/d"), 0, false);
    let rows: Vec<_> = sqlite
        .ask(&db.find_orphan_or_read_files_statement(false))
        .iter()
        .map(|row| ReadChapterRow {
            source_id: row.get("source_id"),
            manga_id: row.get("manga_id"),
            chapter_id: row.get("chapter_id"),
            manga_title: row.get("manga_title"),
            chapter_number: number(row, "chapter_number"),
            volume_number: number(row, "volume_number"),
        })
        .collect();
    assert_eq!(rows.len(), 1);
    let clean_up = CleanUp::Read { rows };
    assert_eq!(
        db.orphan_or_read_candidates(&storage, &clean_up),
        vec![
            text("/d/beta/beta - Chapter 1.cbz"),
            text("/d/beta/.beta - Chapter 1.errors"),
            text("/d/beta/beta - Chapter 1.epub"),
            text("/d/beta/.beta - Chapter 1.errors"),
        ]
    );
    let existing = vec![text("/d/beta/.beta - Chapter 1.errors")];
    let found = db.find_orphan_or_read_files(&storage, &clean_up, &existing);
    assert_eq!(found, vec![existing[0].clone(), existing[0].clone()]);
}

#[test]
fn marking_chapters_leaves_the_others_alone() {
    let mut sqlite = library();
    let db = database();
    let all = |sqlite: &mut Sqlite| -> Vec<(String, bool, Option<i64>)> {
        let mut rows: Vec<_> = sqlite
            .ask(&db.find_chapter_states_for_manga_statement(&manga("1")))
            .iter()
            .map(|row| (row.get(2), row.get(3), row.get(4)))
            .collect();
        rows.sort();
        rows
    };
    let change = db.set_chapters_read_state(
        &manga("1"),
        &vec![chapter("1", "a"), chapter("1", "b")],
        true,
    );
    let write = change.write.unwrap();
    assert_eq!(write.binds.len(), 8);
    assert_eq!(write.binds[6], Bind::Text(text("b")));
    assert_eq!(write.binds[7], Bind::Boolean(true));
    sqlite.run(&write);
    assert_eq!(
        all(&mut sqlite),
        vec![(text("a"), true, Some(1000)), (text("b"), true, None)]
    );
    let change = db.set_chapters_read_state(&manga("1"), &vec![chapter("1", "a")], false);
    sqlite.run(&change.write.unwrap());
    assert_eq!(all(&mut sqlite), vec![(text("a"), false, None), (text("b"), true, None)]);
}

#[test]
fn the_library_counts_unread_chapters_as_they_are_counted_by_themselves() {
    let mut sqlite = library();
    let db = database();
    for preferred in [None, Some(text("nobody"))] {
        let state = MangaState { preferred_scanlator: preferred };
        sqlite.run(&db.upsert_manga_state(&manga("1"), &state));
        let statement =
            db.get_manga_library_with_read_count_statement(LibrarySortingMode::UnreadDesc);
        let rows: Vec<_> = sqlite.ask(&statement).iter().map(library_row).collect();
        for shown in db.get_manga_library_with_read_count(&rows, &sources()) {
            let id = &shown.information.id;
            let settled = if id.same(&manga("1")) { Some(state.clone()) } else { None };
            let row = &sqlite.ask(&db.count_unread_chapters_statement(id, &settled))[0];
            let count = db.count_unread_chapters(&UnreadChaptersRow {
                count: row.get(0),
                has_chapters: row.get(1),
            });
            assert_eq!(shown.unread_chapters_count, Some(count.unwrap_or(0)));
        }
    }
}

fn details() -> Manga {
    Manga {
        source_id: text("src"),
        id: text("1"),
        title: Some(text("Title")),
        author: None,
        artist: Some(text("Artist")),
        description: Some(text("A \"quoted\" text")),
        tags: Some(vec![text("a\"b"), text("ü")]),
        cover_url: Some(text("https://example.org/c.png")),
        url: None,
        status: 2,
        nsfw: 1,
        viewer: 255,
        last_updated: Some(Instant { seconds: 1700000000, nanos: 123456789 }),
        last_opened: Some(Instant { seconds: 253402300799, nanos: 1999999999 }),
        last_read: None,
        date_added: Some(Instant { seconds: -62167219200, nanos: 0 }),
    }
}

fn details_row(row: &SqliteRow) -> MangaDetailsRow {
    MangaDetailsRow {
        source_id: row.get("source_id"),
        id: row.get("id"),
        title: row.get("title"),
        author: row.get("author"),
        artist: row.get("artist"),
        description: row.get("description"),
        tags: row.get("tags"),
        cover_url: row.get("cover_url"),
        url: row.get("url"),
        status: row.get("status"),
        nsfw: row.get("nsfw"),
        viewer: row.get("viewer"),
        last_updated: row.get("last_updated"),
        last_opened: row.get("last_opened"),
        date_added: row.get("date_added"),
        last_read: row.get("last_read: i64"),
        per_read: row
            .try_get::<f64, _>("per_read: f64")
            .ok()
            .map(|part| part.to_string()),
    }
}

#[test]
fn details_are_read_as_they_were_written() {
    let mut sqlite = library();
    let db = database();
    sqlite.run(&db.upsert_cached_manga_details(&manga("1"), &details()));
    let row = details_row(&sqlite.ask(&db.find_cached_manga_details_statement(&manga("1")))[0]);
    let mut expected = details();
    expected.last_read = Some(Instant { seconds: 1000, nanos: 0 });
    assert_eq!(
        db.find_cached_manga_details(Some(row.clone())),
        Some((expected.clone(), text("1")))
    );
    assert_eq!(db.find_readable_manga_details(Some(row.clone())), Ok(Some((expected, text("1")))));
    for broken in [
        MangaDetailsRow { tags: Some(text("[1]")), ..row.clone() },
        MangaDetailsRow { cover_url: Some(text("c.png")), ..row.clone() },
        MangaDetailsRow { url: Some(text("")), ..row.clone() },
        MangaDetailsRow { last_updated: Some(text("yesterday")), ..row.clone() },
        MangaDetailsRow { last_opened: Some(text("2023-01-01")), ..row.clone() },
        MangaDetailsRow { date_added: Some(text("")), ..row.clone() },
    ] {
        assert_eq!(db.find_readable_manga_details(Some(broken)), Err(UnreadableRow));
    }
    assert_eq!(db.find_readable_manga_details(None), Ok(None));
}

#[test]
fn details_are_written_once() {
    let mut sqlite = library();
    let db = database();
    let rows = |sqlite: &mut Sqlite, n: &str| -> Vec<MangaDetailsRow> {
        let statement = db.find_cached_manga_details_statement(&manga(n));
        sqlite.ask(&statement).iter().map(details_row).collect()
    };
    sqlite.run(&db.upsert_cached_manga_details(&manga("2"), &details()));
    let other = rows(&mut sqlite, "2");
    sqlite.run(&db.upsert_cached_manga_details(&manga("1"), &details()));
    let mut less = details();
    less.id = text("elsewhere");
    less.title = None;
    less.tags = None;
    less.last_updated = None;
    let write = db.upsert_cached_manga_details(&manga("1"), &less);
    sqlite.run(&write);
    let once = rows(&mut sqlite, "1");
    assert_eq!(once.len(), 1);
    assert_eq!((once[0].source_id.as_str(), once[0].id.as_str()), ("src", "1"));
    assert_eq!(once[0].title, None);
    assert_eq!(once[0].tags, None);
    assert_eq!(once[0].last_updated, None);
    assert_eq!(once[0].author, details().author);
    sqlite.run(&write);
    assert_eq!(rows(&mut sqlite, "1"), once);
    assert_eq!(rows(&mut sqlite, "2"), other);
    assert_eq!(rows(&mut sqlite, "elsewhere"), vec![]);
}

#[test]
fn details_are_bound_as_text() {
    let statement = database().upsert_cached_manga_details(&manga("1"), &details());
    assert_eq!(statement.binds.len(), 15);
    assert_eq!(statement.binds[6], Bind::OptionalText(Some(text("[\"a\\\"b\",\"ü\"]"))));
    assert_eq!(
        statement.binds[12],
        Bind::OptionalText(Some(text("2023-11-14T22:13:20.123456789+00:00")))
    );
    assert_eq!(
        statement.binds[14],
        Bind::OptionalText(Some(text("0000-01-01T00:00:00+00:00")))
    );
    assert_eq!(
        statement.binds[13],
        Bind::OptionalText(Some(text("9999-12-31T23:59:60.999999999+00:00")))
    );
    let mut edges = details();
    edges.last_updated = Some(Instant { seconds: -8334601228800, nanos: 0 });
    edges.last_opened = Some(Instant { seconds: 8210266876799, nanos: 1999999999 });
    let statement = database().upsert_cached_manga_details(&manga("1"), &edges);
    assert_eq!(
        statement.binds[12],
        Bind::OptionalText(Some(text("-262143-01-01T00:00:00+00:00")))
    );
    assert_eq!(
        statement.binds[13],
        Bind::OptionalText(Some(text("+262142-12-31T23:59:60.999999999+00:00")))
    );
}

#[test]
fn times_of_reading_stay_within_the_calendar() {
    let row = |last_read: Option<i64>| {
        Some(MangaDetailsRow {
            source_id: text("src"),
            id: text("1"),
            title: None,
            author: None,
            artist: None,
            description: None,
            tags: None,
            cover_url: None,
            url: None,
            status: 257,
            nsfw: -1,
            viewer: 0,
            last_updated: Some(text("2023-11-15T00:13:20.5+02:00")),
            last_opened: None,
            last_read,
            date_added: None,
            per_read: None,
        })
    };
    let read = |last_read: Option<i64>| {
        database().find_cached_manga_details(row(last_read)).unwrap().0.last_read
    };
    assert_eq!(read(None), None);
    assert_eq!(read(Some(-1)), None);
    assert_eq!(read(Some(0)), Some(Instant { seconds: 0, nanos: 0 }));
    assert_eq!(
        read(Some(8210266876799)),
        Some(Instant { seconds: 8210266876799, nanos: 0 })
    );
    assert_eq!(read(Some(8210266876800)), None);
    let (manga, part) = database().find_cached_manga_details(row(None)).unwrap();
    assert_eq!((manga.status, manga.nsfw, manga.viewer), (1, 255, 0));
    assert_eq!(manga.last_updated, Some(Instant { seconds: 1700000000, nanos: 500000000 }));
    assert_eq!(part, "0");
}

#[test]
fn states_are_read_as_they_were_written() {
    let mut sqlite = library();
    let db = database();
    let state = MangaState { preferred_scanlator: Some(text("group")) };
    sqlite.run(&db.upsert_manga_state(&manga("1"), &state));
    let row = &sqlite.ask(&db.find_manga_state_statement(&manga("1")))[0];
    let row = MangaStateRow {
        source_id: row.get("source_id"),
        manga_id: row.get("manga_id"),
        preferred_scanlator: row.get("preferred_scanlator"),
    };
    assert_eq!(db.find_manga_state(Some(row)), Some(state));
    assert_eq!(db.find_manga_state(None), None);
    let read = |sqlite: &mut Sqlite, n: &str| {
        let rows = sqlite.ask(&db.find_chapter_state_statement(&chapter("1", n)));
        let row = rows.first().map(|row| ChapterStateRow {
            source_id: row.get(0),
            manga_id: row.get(1),
            chapter_id: row.get(2),
            read: row.get(3),
            last_read: row.get(4),
        });
        db.find_chapter_state(&row)
    };
    let state = ChapterState { read: false, last_read: Some(77) };
    sqlite.run(&db.upsert_chapter_state(&chapter("1", "b"), state));
    assert_eq!(read(&mut sqlite, "b"), Some(state));
    assert_eq!(read(&mut sqlite, "c"), None);
    sqlite.run(&db.mark_chapter_as_read_at(&chapter("1", "b"), Some(true), 88));
    assert_eq!(read(&mut sqlite, "b"), Some(ChapterState { read: true, last_read: Some(88) }));
    sqlite.run(&db.mark_chapter_as_read_at(&chapter("1", "b"), Some(false), 99));
    assert_eq!(read(&mut sqlite, "b"), Some(ChapterState { read: false, last_read: None }));
    sqlite.run(&db.update_last_read_chapter_at(&chapter("1", "a"), 5));
    assert_eq!(read(&mut sqlite, "a"), Some(ChapterState { read: true, last_read: Some(5) }));
    let rows: Vec<_> = sqlite
        .ask(&db.find_chapter_states_for_manga_statement(&manga("1")))
        .iter()
        .map(|row| ChapterStateRow {
            source_id: row.get(0),
            manga_id: row.get(1),
            chapter_id: row.get(2),
            read: row.get(3),
            last_read: row.get(4),
        })
        .collect();
    let states = db.find_chapter_states_for_manga(&rows);
    assert_eq!(states.entries.len(), 2);
    assert_eq!(
        states.get(&text("a")),
        Some(&ChapterState { read: true, last_read: Some(5) })
    );
    assert_eq!(states.get(&text("z")), None);
}

#[test]
fn the_clock_is_read_when_a_chapter_is_marked() {
    let before = chrono::Utc::now().timestamp();
    let db = database();
    let marked = db.mark_chapter_as_read(&chapter("1", "a"), None);
    let opened = db.update_last_read_chapter(&chapter("1", "a"));
    let due = db.get_due_mangas_statement();
    let notified =
        db.insert_notification(&manga("1"), &vec![chapter_info("1", "a", "1")]).unwrap();
    let after = chrono::Utc::now().timestamp();
    let within = |v: i64| before <= v && v <= after;
    assert!(matches!(marked.binds[4], Bind::OptionalInteger(Some(v)) if within(v)));
    assert!(matches!(opened.binds[3], Bind::Integer(v) if within(v)));
    assert!(matches!(due.binds[0], Bind::Integer(v) if within(v)));
    assert!(matches!(notified.binds[3], Bind::Integer(v) if within(v)));
    let unread = db.mark_chapter_as_read(&chapter("1", "a"), Some(false));
    assert_eq!(unread.binds[3], Bind::Boolean(false));
    assert_eq!(unread.binds[4], Bind::OptionalInteger(None));
}

#[test]
fn mangas_fall_due_for_a_check() {
    let mut sqlite = library();
    let db = database();
    sqlite.run(&db.upsert_cached_manga_details(&manga("1"), &details()));
    sqlite.run(&db.set_last_check_update_manga(&manga("1"), 10, 200));
    sqlite.run(&db.set_last_check_update_manga(&manga("2"), 20, 100));
    sqlite.run(&db.set_last_check_update_manga(&manga("2"), 30, 150));
    let row = &sqlite.ask(&db.get_last_check_update_manga(&manga("2")))[0];
    assert_eq!((row.get::<i64, _>(0), row.get::<i64, _>(1)), (30, 150));
    let next = |sqlite: &mut Sqlite, skip: &Vec<String>| {
        let rows = sqlite.ask(&db.get_next_ts_arima_min_statement(skip));
        let row = rows.first().map(|row| NextCheckRow {
            manga_id: row.get("manga_id"),
            source_id: row.get("source_id"),
            next_ts_arima: row.get("next_ts_arima"),
        });
        db.get_next_ts_arima_min(row)
    };
    assert_eq!(next(&mut sqlite, &vec![]), Some((manga("2"), 150)));
    assert_eq!(next(&mut sqlite, &vec![text("other")]), Some((manga("2"), 150)));
    assert_eq!(next(&mut sqlite, &vec![text("other"), text("src")]), None);
    let statement = db.get_next_ts_arima_min_statement(&vec![text("a"), text("b")]);
    assert!(statement.sql.contains("AND source_id NOT IN (?,?)"));
    let due = |sqlite: &mut Sqlite, now: i64| {
        let rows = sqlite.ask(&db.get_due_mangas_statement_at(now));
        db.get_due_mangas(rows.iter().map(status_row).collect())
    };
    assert_eq!(due(&mut sqlite, 150), vec![(manga("2"), PublishingStatus::Unknown)]);
    assert_eq!(due(&mut sqlite, 200).len(), 2);
    assert!(due(&mut sqlite, 200).contains(&(manga("1"), PublishingStatus::Code(2))));
    sqlite.run(&db.delete_last_check_update_manga(&manga("2")));
    assert_eq!(due(&mut sqlite, 200), vec![(manga("1"), PublishingStatus::Code(2))]);
    let rows = sqlite.ask(&db.get_manga_library_and_status_statement());
    let library = db.get_manga_library_and_status(rows.iter().map(status_row).collect());
    assert!(library.contains(&(manga("1"), PublishingStatus::Code(2))));
    assert!(library.contains(&(manga("3"), PublishingStatus::Unknown)));
}

#[test]
fn a_status_keeps_eight_bits() {
    let row = StatusRow { manga_id: text("1"), source_id: text("src"), status: Some(258) };
    assert_eq!(
        database().get_due_mangas(vec![row]),
        vec![(manga("1"), PublishingStatus::Code(2))]
    );
}

#[test]
fn notifications_are_written_read_and_deleted() {
    let mut sqlite = library();
    let db = database();
    let new = vec![chapter_info("1", "a", "1"), chapter_info("1", "c", "2.5")];
    sqlite.run(&db.insert_notification_at(&manga("1"), &new, 500).unwrap());
    sqlite.run(
        &db.insert_notification_at(&manga("9"), &vec![chapter_info("9", "x", "1")], 600).unwrap(),
    );
    assert_eq!(db.insert_notification_at(&manga("1"), &vec![], 500), None);
    let read = |sqlite: &mut Sqlite| {
        let rows = sqlite
            .ask(&db.get_notifications_statement())
            .iter()
            .map(|row| NotificationInformationRow {
                id: row.get("id"),
                source_id: row.get("source_id"),
                manga_id: row.get("manga_id"),
                chapter_id: row.get("chapter_id"),
                manga_title: row.get("manga_title"),
                manga_cover: row.get("manga_cover"),
                manga_status: row.get("manga_status"),
                chapter_title: row.get("chapter_title"),
                chapter_number: row
                    .get::<Option<f64>, _>("chapter_number")
                    .map(|n| n.to_string()),
                created_at: row.get("created_at"),
            })
            .collect();
        db.get_notifications(rows)
    };
    let all = read(&mut sqlite);
    assert_eq!(all.len(), 3);
    assert_eq!(all[0].manga_title, "Unknown");
    assert_eq!(all[0].chapter_title, "Unknown");
    assert_eq!(all[0].chapter_number, "-1");
    assert_eq!(all[0].created_at, 600);
    assert_eq!(all[1].manga_title, "beta");
    let last = all.iter().find(|n| n.chapter_id == chapter("1", "c")).unwrap();
    assert_eq!(last.chapter_number, "2.5");
    let count: i64 = sqlite.ask(&db.get_count_notifications())[0].get(0);
    assert_eq!(count, 3);
    sqlite.run(&db.delete_notification(all[0].id as i32));
    assert_eq!(read(&mut sqlite).len(), 2);
    sqlite.run(&db.clear_notifications());
    assert_eq!(read(&mut sqlite).len(), 0);
}

#[test]
fn covers_at_no_url_are_left_out() {
    let row = NotificationInformationRow {
        id: 1,
        source_id: text("s"),
        manga_id: text("m"),
        chapter_id: text("c"),
        manga_title: Some(text("T")),
        manga_cover: Some(text("nowhere")),
        manga_status: Some(3),
        chapter_title: None,
        chapter_number: None,
        created_at: 4,
    };
    let found = database().get_notifications(vec![row.clone()]);
    assert_eq!(found[0].manga_cover, None);
    let row = NotificationInformationRow {
        manga_cover: Some(text("HTTPS://Example.org")),
        ..row
    };
    let found = database().get_notifications(vec![row]);
    assert_eq!(found[0].manga_cover, Some(text("https://example.org/")));
}
