use base64::Engine;
use rakuyomi::chapter_storage::{
    is_existing, ChapterStorage, DeleteError, ErrorsPathError, MountAttempt, MountResult,
    MountStep, Removal,
};
use rakuyomi::keyed::ListMap;
use rakuyomi::model::{
    ChapterId, ChapterInformation, Manga, MangaId, MangaInformation, MangaState, SourceId,
    SourceInformation,
};
use rakuyomi::persist::{CachedSize, ErrorsFile, PersistStep};
use rakuyomi::requests::show_posters;
use rakuyomi::revoke::{find_revocation, revoke_candidates, revoke_manga_chapter};
use rakuyomi::storage_files::FileEntry;
use sha2::Digest;

fn text(t: &str) -> String {
    t.to_string()
}

fn storage(ram: bool) -> ChapterStorage {
    ChapterStorage::new(text("/data/downloads"), 1000, ram)
}

fn chapter() -> ChapterId {
    ChapterId::from_strings(text("en.src"), text("manga/1"), text("ch:7"))
}

fn entry(path: &str, size: Option<u64>, modified: Option<i128>) -> FileEntry {
    FileEntry { path: text(path), is_file: true, size, modified }
}

#[test]
fn chapters_are_stored_under_their_manga() {
    let s = storage(false);
    let path = s.get_path_to_store_chapter(
        &Some(text("12.5")),
        "A/B: C?",
        &Some(text("3")),
        &chapter(),
        false,
        false,
    );
    assert_eq!(path, "/data/downloads/A-B- C-/A-B- C- - Vol.3 Chapter 12.5.cbz");
    let path = s.get_path_to_store_chapter(&Some(text("1")), "T", &None, &chapter(), true, true);
    assert_eq!(path, "/data/downloads/T/T - Chapter 1.epub");
    let path =
        s.get_path_to_store_chapter(&None, "T", &Some(text("3")), &chapter(), false, false);
    assert_eq!(path, "/data/downloads/T/T - Chapter Unknown (ch:7).cbz");
    let path = storage(true).get_path_to_store_chapter(
        &Some(text("1")),
        "T",
        &None,
        &chapter(),
        false,
        true,
    );
    assert_eq!(path, "/data/tmpfs/T/T - Chapter 1.cbz");
}

#[test]
fn titles_name_a_folder_below_the_other() {
    let s = storage(false);
    let path = |title: &str| {
        s.get_path_to_store_chapter(&Some(text("1")), title, &None, &chapter(), false, false)
    };
    assert_eq!(path(""), "/data/downloads/ - Chapter 1.cbz");
    assert_eq!(path(".."), "/data/downloads/-/- - Chapter 1.cbz");
    assert_eq!(path("."), "/data/downloads/-/- - Chapter 1.cbz");
    assert_eq!(path("/etc"), "/data/downloads/-etc/-etc - Chapter 1.cbz");
}

#[test]
fn sums_of_sizes_go_through_a_floating_point_number() {
    let s = ChapterStorage::new(text("/d"), 1 << 53, false);
    let cached = CachedSize { bytes: 1 << 53 };
    let persist = s.persist_chapter(&None, "T", &None, &chapter(), false, false, 1, &cached);
    assert!(matches!(persist.next(), PersistStep::Store { .. }));
    let persist = s.persist_chapter(&None, "T", &None, &chapter(), false, false, 2, &cached);
    assert_eq!(persist.next(), PersistStep::Evict);
}

#[test]
fn the_folder_in_memory_stands_beside_the_other() {
    assert_eq!(storage(false).tmpfs_path(), "/data/tmpfs");
    assert_eq!(ChapterStorage::new(text("/"), 0, false).tmpfs_path(), "/tmpfs");
    assert_eq!(ChapterStorage::new(text("downloads"), 0, false).tmpfs_path(), "tmpfs");
    assert_eq!(storage(false).downloads_path(), "/data/downloads");
}

#[test]
fn stored_chapters_are_looked_for_in_order() {
    let s = storage(false);
    let id = chapter();
    let number = Some(text("1"));
    let paths = s.stored_chapter_paths(&number, "T", &None, &id, false);
    assert_eq!(
        paths,
        vec![
            text("/data/downloads/T/T - Chapter 1.cbz"),
            text("/data/downloads/T/T - Chapter 1.epub"),
            text("/data/downloads/en.src-ch7.cbz"),
            text("/data/downloads/en.src-ch7.epub"),
        ]
    );
    assert_eq!(s.stored_chapter_paths(&number, "T", &None, &id, true).len(), 2);
    let existing = vec![paths[3].clone(), paths[1].clone()];
    assert_eq!(
        s.get_stored_chapter(&number, "T", &None, &id, false, &existing),
        Some(paths[1].clone())
    );
    assert_eq!(
        s.get_stored_chapter(&number, "T", &None, &id, false, &vec![paths[3].clone()]),
        Some(paths[3].clone())
    );
    assert_eq!(s.get_stored_chapter(&number, "T", &None, &id, true, &vec![paths[3].clone()]), None);
    assert_eq!(
        s.get_stored_chapter_and_errors(&number, "T", &None, &id, false, &existing),
        Ok(Some((paths[1].clone(), text("/data/downloads/T/.T - Chapter 1.errors"))))
    );
    assert_eq!(
        s.get_stored_chapter_and_errors(&number, "T", &None, &id, false, &vec![]),
        Ok(None)
    );
}

#[test]
fn a_chapter_that_is_stored_is_found_again() {
    for ram in [false, true] {
        for novel in [false, true] {
            let s = storage(ram);
            let path =
                s.get_path_to_store_chapter(&None, "T", &None, &chapter(), novel, true);
            let found =
                s.get_stored_chapter(&None, "T", &None, &chapter(), true, &vec![path.clone()]);
            assert_eq!(found, Some(path));
        }
    }
}

#[test]
fn errors_stand_in_a_hidden_file_beside_the_chapter() {
    let s = storage(false);
    assert_eq!(s.errors_source_path("/a/b.c.cbz"), Ok(text("/a/.b.c.errors")));
    assert_eq!(s.errors_source_path("b.cbz"), Ok(text(".b.errors")));
    assert_eq!(s.errors_source_path("/"), Err(ErrorsPathError::NoParent));
    assert_eq!(s.errors_source_path(""), Err(ErrorsPathError::NoParent));
    assert_eq!(s.errors_source_path("a/.."), Err(ErrorsPathError::NoFileStem));
    assert_eq!(ErrorsPathError::NoParent.message(), ".errors file has no parent directory");
    assert_eq!(ErrorsPathError::NoFileStem.message(), ".errors file has no filename stem");
}

#[test]
fn posters_are_named_after_a_digest() {
    let s = storage(false);
    let id = MangaId::from_strings(text("en.src"), text("ü"));
    let mut hasher = sha2::Sha256::new();
    hasher.update("en.srcü".as_bytes());
    let name = base64::engine::general_purpose::URL_SAFE_NO_PAD.encode(hasher.finalize());
    let expected = format!("/data/downloads/.posters/{}.jpg", name);
    assert_eq!(s.path_for_poster(&id), expected);
    assert_eq!(s.poster_exists(&id, &vec![]), None);
    assert_eq!(s.poster_exists(&id, &vec![expected.clone()]), Some(expected.clone()));
    let request = s.cached_poster(&id, &vec![]);
    assert_eq!(request.folder, "/data/downloads/.posters");
    assert_eq!(request.file, expected);
    assert!(request.fetch);
    assert!(!s.cached_poster(&id, &vec![expected]).fetch);
}

#[test]
fn the_digest_of_the_empty_id_is_that_of_nothing() {
    let id = MangaId::from_strings(text(""), text(""));
    assert_eq!(
        storage(false).path_for_poster(&id),
        "/data/downloads/.posters/47DEQpj8HBSa-_TImW-5JCeuQeRkm5NMpJWZG3hSuFU.jpg"
    );
}

#[test]
fn memory_is_mounted_or_remounted() {
    let mut s = storage(false);
    let request = s.mount_request(64);
    assert_eq!(request.path, "/data/tmpfs");
    assert_eq!(request.options, "size=64M");
    let busy = || MountResult::Failed { busy: true, error: text("EBUSY: Device busy") };
    assert_eq!(s.enable_ram(MountAttempt::First, busy()), MountStep::Remount);
    assert_eq!(s, storage(false));
    assert_eq!(s.enable_ram(MountAttempt::Remount, MountResult::Mounted), MountStep::Enabled);
    assert!(s.is_ram_enabled());
    assert_eq!(s.tmpfs_mount_error(), None);
    assert_eq!(
        s.enable_ram(MountAttempt::Remount, busy()),
        MountStep::Failed(text("remount failed: EBUSY: Device busy"))
    );
    assert!(!s.is_ram_enabled());
    assert_eq!(s.tmpfs_mount_error(), Some("remount failed: EBUSY: Device busy"));
    let denied = MountResult::Failed { busy: false, error: text("EPERM") };
    assert_eq!(
        s.enable_ram(MountAttempt::First, denied),
        MountStep::Failed(text("mount failed: EPERM"))
    );
    assert_eq!(s.enable_ram(MountAttempt::First, MountResult::Mounted), MountStep::Enabled);
    assert_eq!(s.disable_ram(), Some(text("/data/tmpfs")));
    assert!(!s.is_ram_enabled());
    assert_eq!(s.disable_ram(), None);
}

#[test]
fn memory_is_cleared_only_where_it_is_on() {
    assert_eq!(storage(false).clean_tmpfs(), None);
    assert_eq!(storage(true).clean_tmpfs(), Some(text("/data/tmpfs")));
    assert_eq!(storage(true).clean_entry(text("a"), true), Removal::Folder(text("a")));
    assert_eq!(storage(true).clean_entry(text("a"), false), Removal::File(text("a")));
}

#[test]
fn memory_is_full_below_four_kibibytes() {
    assert!(storage(true).tmpfs_full_storage(Some((4095, 1))));
    assert!(!storage(true).tmpfs_full_storage(Some((1, 4096))));
    assert!(!storage(true).tmpfs_full_storage(None));
    assert!(!storage(false).tmpfs_full_storage(Some((0, 4096))));
}

#[test]
fn only_files_in_the_folder_may_be_deleted() {
    let s = storage(false);
    let request = s.delete_filename("T/a.cbz", false).unwrap();
    assert_eq!(request.folder, "/data/downloads");
    assert_eq!(request.file, "/data/downloads/T/a.cbz");
    assert_eq!(s.delete_filename("/etc/x", false).unwrap().file, "/etc/x");
    assert_eq!(s.delete_filename("a", true), Err(DeleteError::TmpfsNotEnabled));
    assert_eq!(storage(true).delete_filename("a", true).unwrap().file, "/data/tmpfs/a");
    assert_eq!(s.confirm_delete("/data/downloads/a", "/data/downloads"), Ok(()));
    assert_eq!(
        s.confirm_delete("/data/downloads2/a", "/data/downloads"),
        Err(DeleteError::PathTraversal)
    );
    assert_eq!(DeleteError::PathTraversal.message(), "path traversal denied");
    assert_eq!(DeleteError::TmpfsNotEnabled.message(), "tmpfs is not enabled");
    assert_eq!(s.deleted_size(false, Some(5)), Some(5));
    assert_eq!(s.deleted_size(true, Some(5)), None);
}

#[test]
fn the_folder_can_be_changed() {
    let mut s = storage(true);
    s.set_downloads_folder_path(text("/new/place"));
    assert_eq!(s.downloads_path(), "/new/place");
    assert_eq!(s.tmpfs_path(), "/new/tmpfs");
    assert!(s.is_ram_enabled());
}

#[test]
fn chapters_are_collected_whatever_the_case_of_their_extension() {
    let s = storage(false);
    let mut folder = entry("/d/folder.cbz", None, None);
    folder.is_file = false;
    let entries = vec![
        entry("/d/a.cbz", None, None),
        entry("/d/b.EPUB", None, None),
        entry("/d/c.txt", None, None),
        entry("/d//a.cbz", None, None),
        entry("/d/cbz", None, None),
        folder,
    ];
    assert_eq!(s.collect_all_files(&entries), vec![text("/d/a.cbz"), text("/d/b.EPUB")]);
}

#[test]
fn the_storage_size_counts_chapters_only() {
    let s = storage(false);
    let entries = vec![
        entry("/d/a.cbz", Some(10), None),
        entry("/d/b.EPUB", Some(100), None),
        entry("/d/c.epub", Some(5), None),
        entry("/d/d.cbz", None, None),
    ];
    assert_eq!(s.calculate_storage_size(&entries), 15);
    assert_eq!(s.checked_storage_size(&entries), Some(15));
    let huge = vec![entry("/d/a.cbz", Some(u64::MAX), None), entry("/d/b.cbz", Some(1), None)];
    assert_eq!(s.checked_storage_size(&huge), None);
}

#[test]
fn sizes_go_through_a_floating_point_number() {
    let s = storage(false);
    let exact = 1u64 << 53;
    assert_eq!(s.evicted_size(Some(exact)), exact as i64);
    assert_eq!(s.evicted_size(Some(exact + 1)), exact as i64);
    assert_eq!(s.evicted_size(Some(u64::MAX)), i64::MAX);
    assert_eq!(s.evicted_size(None), 0);
}

#[test]
fn the_oldest_chapter_goes_first() {
    let s = storage(false);
    let entries = vec![
        entry("/d/a.cbz", None, Some(30)),
        entry("/d/b.cbz", None, Some(10)),
        entry("/d/c.cbz", None, Some(10)),
        entry("/d/d.txt", None, Some(1)),
        entry("/d/e.cbz", None, None),
    ];
    assert_eq!(s.find_least_recently_modified_chapter(&entries), Some(text("/d/b.cbz")));
    assert_eq!(s.evict_least_recently_modified_chapter(&entries), Ok(text("/d/b.cbz")));
    let error = s.evict_least_recently_modified_chapter(&vec![]).unwrap_err();
    assert_eq!(error.message(), "couldn't find any chapters to evict from storage");
}

#[test]
fn what_is_older_than_the_current_chapter_goes_from_memory() {
    let s = storage(true);
    let current = "/data/tmpfs/T/T - Chapter 1.cbz";
    assert_eq!(
        s.current_in_memory(&Some(text("1")), "T", &None, &chapter(), false, &vec![text(current)]),
        Some(text(current))
    );
    assert_eq!(
        s.current_in_memory(&Some(text("1")), "T", &None, &chapter(), false, &vec![]),
        None
    );
    let entries = vec![
        entry("/data/tmpfs/old", Some(5), Some(9)),
        entry(current, Some(7), Some(9)),
        entry("/data/tmpfs/same", Some(11), Some(10)),
        entry("/data/tmpfs/older", Some(2), Some(-1)),
        entry("/data/tmpfs/undated", Some(3), None),
    ];
    let (paths, freed) = s.evict_tmpfs_older_than_current(current, 10, &entries);
    assert_eq!(paths, vec![text("/data/tmpfs/old"), text("/data/tmpfs/older")]);
    assert_eq!(freed, 7);
    let off = storage(false).checked_evict_tmpfs(current, 10, &entries);
    assert_eq!(off, Some((vec![], 0)));
}

#[test]
fn room_is_made_before_a_chapter_is_stored() {
    let s = storage(false);
    let mut cached = CachedSize { bytes: 900 };
    assert_eq!(s.cached_storage_size(&cached), 900);
    let mut persist =
        s.persist_chapter(&Some(text("1")), "T", &None, &chapter(), false, false, 300, &cached);
    assert_eq!(persist.next(), PersistStep::Evict);
    persist.evicted(150, &mut cached);
    assert_eq!(cached.bytes, 750);
    assert_eq!(persist.next(), PersistStep::Evict);
    persist.evicted(50, &mut cached);
    assert_eq!(
        persist.next(),
        PersistStep::Store {
            path: text("/data/downloads/T/T - Chapter 1.cbz"),
            folder: Some(text("/data/downloads/T")),
        }
    );
    persist.stored(Some(300), &mut cached);
    assert_eq!(cached.bytes, 1000);
    persist.stored(None, &mut cached);
    assert_eq!(cached.bytes, 1000);
}

#[test]
fn a_chapter_beyond_the_limit_is_never_stored() {
    let s = storage(false);
    let mut cached = CachedSize { bytes: 10 };
    let mut persist =
        s.persist_chapter(&None, "T", &None, &chapter(), false, false, 1001, &cached);
    for _ in 0..3 {
        assert_eq!(persist.next(), PersistStep::Evict);
        persist.evicted(10, &mut cached);
    }
    assert_eq!(persist.current, 0);
}

#[test]
fn the_cached_size_goes_round() {
    let mut cached = CachedSize { bytes: 5 };
    cached.shrink(10);
    assert_eq!(cached.bytes, u64::MAX - 4);
    cached.grow(10);
    assert_eq!(cached.bytes, 5);
    storage(false).refresh_storage_size(&mut cached, 77);
    assert_eq!(cached.bytes, 77);
}

#[test]
fn errors_are_written_or_removed_after_a_chapter_was_stored() {
    let s = storage(false);
    assert_eq!(s.errors_file("/a/b.cbz", true), Ok(ErrorsFile::Write(text("/a/.b.errors"))));
    assert_eq!(s.errors_file("/a/b.cbz", false), Ok(ErrorsFile::Remove(text("/a/.b.errors"))));
    assert_eq!(s.errors_file("/", false), Err(ErrorsPathError::NoParent));
}

#[test]
fn chapters_are_revoked_where_they_are_stored() {
    let s = storage(false);
    let info = Some(ChapterInformation {
        id: chapter(),
        title: Some(text("The End")),
        scanlator: None,
        chapter_number: Some(text("2")),
        volume_number: None,
        last_updated: None,
        thumbnail: None,
        lang: None,
        url: None,
        locked: None,
    });
    let candidates = revoke_candidates(&s, &info, &chapter(), false);
    assert_eq!(candidates[0], "/data/downloads/The End/The End - Chapter 2.cbz");
    let found = find_revocation(&s, &info, &chapter(), false, &vec![candidates[0].clone()]);
    let revocation = found.clone().unwrap();
    assert_eq!(revocation.path, candidates[0]);
    assert_eq!(
        revocation.errors,
        Some(text("/data/downloads/The End/.The End - Chapter 2.errors"))
    );
    assert!(revoke_manga_chapter(&found, true));
    assert!(!revoke_manga_chapter(&found, false));
    let none = find_revocation(&s, &None, &chapter(), false, &candidates);
    assert_eq!(none.unwrap().path, "/data/downloads/en.src-ch7.cbz");
    let nothing = find_revocation(&s, &info, &chapter(), true, &vec![]);
    assert_eq!(nothing, None);
    assert!(!revoke_manga_chapter(&nothing, true));
    assert!(is_existing(&candidates, "/data/downloads/en.src-ch7.cbz"));
}

fn shown_manga(cover: Option<&str>, id: &str) -> Manga {
    Manga {
        source_information: SourceInformation { id: SourceId::new(text("s")), name: text("S") },
        information: MangaInformation {
            id: MangaId::from_strings(text("s"), text(id)),
            title: None,
            author: None,
            artist: None,
            cover_url: cover.map(text),
        },
        state: MangaState::default(),
        unread_chapters_count: None,
        last_read: None,
        in_library: true,
    }
}

#[test]
fn posters_take_the_place_of_covers() {
    let s = storage(false);
    let mangas = vec![
        shown_manga(Some("http://a/"), "1"),
        shown_manga(Some("http://b/"), "2"),
        shown_manga(None, "1"),
    ];
    let poster = s.path_for_poster(&mangas[0].information.id);
    let existing = vec![poster.clone()];
    let canonical: ListMap<String, String> = ListMap::new();
    let base = show_posters(mangas.clone(), true, &s, &existing, &canonical);
    assert_eq!(base, mangas);
    let shown = show_posters(mangas, false, &s, &existing, &canonical);
    assert_eq!(shown[0].information.cover_url, Some(format!("file://{}", poster)));
    assert_eq!(shown[1].information.cover_url, None);
    assert_eq!(shown[2].information.cover_url, None);
}

#[test]
fn posters_below_a_relative_folder_are_resolved() {
    let s = ChapterStorage::new(text("downloads"), 0, false);
    let manga = shown_manga(Some("http://a/"), "1");
    let poster = s.path_for_poster(&manga.information.id);
    let mut canonical: ListMap<String, String> = ListMap::new();
    canonical.insert(poster.clone(), text("/full/p.jpg"));
    let shown = show_posters(vec![manga], false, &s, &vec![poster], &canonical);
    assert_eq!(shown[0].information.cover_url, Some(text("file:///full/p.jpg")));
}

#[test]
fn paths_are_joined_with_one_separator() {
    let joined = |folder: &str, name: &str| {
        ChapterStorage::new(text(folder), 0, false).delete_filename(name, false).unwrap().file
    };
    assert_eq!(joined("/d", "a"), "/d/a");
    assert_eq!(joined("/d/", "a"), "/d/a");
    assert_eq!(joined("/d//", "a/b"), "/d//a/b");
    assert_eq!(joined("", "a"), "a");
    assert_eq!(joined("/d", ""), "/d/");
    assert_eq!(joined("d", "./a"), "d/./a");
    assert_eq!(joined("/", "a"), "/a");
    assert_eq!(joined("/d", "/a"), "/a");
}

#[test]
fn paths_are_below_others_by_their_components() {
    let s = storage(false);
    let below = |file: &str, folder: &str| s.confirm_delete(file, folder).is_ok();
    assert!(below("/d/./a//b/", "/d/a"));
    assert!(below("/d", "/d/"));
    assert!(below("/d", ""));
    assert!(below("./a", "."));
    assert!(!below("a", "."));
    assert!(!below("./a", "a"));
    assert!(below("a/.", "a"));
    assert!(!below("d/a", "/d"));
    assert!(!below("/d/ab", "/d/a"));
    assert!(!below("/d", "/d/.."));
}

#[test]
fn the_parent_of_a_folder_is_found_by_its_components() {
    let beside = |folder: &str| ChapterStorage::new(text(folder), 0, false).tmpfs_path();
    assert_eq!(beside("/a/b/"), "/a/tmpfs");
    assert_eq!(beside("/a//b"), "/a/tmpfs");
    assert_eq!(beside("a/./b/."), "a/tmpfs");
    assert_eq!(beside("."), "tmpfs");
    assert_eq!(beside(""), "tmpfs");
    assert_eq!(beside("/."), "/./tmpfs");
    assert_eq!(beside("a/.."), "a/tmpfs");
}

#[test]
fn a_chapter_goes_to_memory_if_and_only_if_it_is_on() {
    for ram in [false, true] {
        let s = storage(ram);
        for novel in [false, true] {
            let path = s.get_path_to_store_chapter(&None, "T", &None, &chapter(), novel, true);
            assert_eq!(s.confirm_delete(&path, &s.tmpfs_path()).is_ok(), s.is_ram_enabled());
            let path = s.get_path_to_store_chapter(&None, "T", &None, &chapter(), novel, false);
            assert!(s.confirm_delete(&path, s.downloads_path()).is_ok());
        }
    }
}

#[test]
fn numbers_and_ids_tell_chapters_apart() {
    let s = storage(false);
    let other = ChapterId::from_strings(text("en.src"), text("manga/1"), text("ch:8"));
    let path = |id: &ChapterId, number: &Option<String>, novel: bool| {
        s.get_path_to_store_chapter(number, "T", &None, id, novel, false)
    };
    let one = Some(text("1"));
    assert_eq!(path(&chapter(), &one, false), path(&other, &one, false));
    assert_ne!(path(&chapter(), &None, false), path(&other, &None, false));
    let cbz = path(&chapter(), &one, false);
    let epub = path(&chapter(), &one, true);
    assert_eq!(cbz.strip_suffix(".cbz").unwrap(), epub.strip_suffix(".epub").unwrap());
}

#[test]
fn a_stored_chapter_is_found_with_its_errors() {
    let s = storage(false);
    for novel in [false, true] {
        let path = s.get_path_to_store_chapter(&None, "T", &None, &chapter(), novel, false);
        let found = s.get_stored_chapter_and_errors(
            &None,
            "T",
            &None,
            &chapter(),
            false,
            &vec![path.clone()],
        );
        let (stored, errors) = found.unwrap().unwrap();
        assert_eq!(stored, path);
        assert_eq!(s.errors_file(&path, true), Ok(ErrorsFile::Write(errors.clone())));
        assert_ne!(errors, path);
    }
}

#[test]
fn a_stored_chapter_counts_as_a_chapter() {
    let s = storage(false);
    for number in [None, Some(text("12.5"))] {
        for novel in [false, true] {
            let path = s.get_path_to_store_chapter(&number, "T", &None, &chapter(), novel, false);
            let entries = vec![entry(&path, Some(7), Some(1))];
            assert_eq!(s.collect_all_files(&entries), vec![path.clone()]);
            assert_eq!(s.evict_least_recently_modified_chapter(&entries), Ok(path));
        }
    }
}
