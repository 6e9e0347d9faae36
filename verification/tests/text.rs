use rakuyomi::requests::{
    concurrent_pages, download_to_memory, excluded_sources, file_summary, invalid_mode,
    path_to_file_url, requested_page, revoke_from_memory, sync_consent, DownloadMangaChapterParams,
    MangaChaptersPathParams,
};
use rakuyomi::model::{ChapterId, MangaId};
use rakuyomi::statement::write_placeholder_rows;
use rakuyomi::text::{
    copy_text, decimal_text, repeat_separated, same_text, split_text,
};

fn texts(list: &[&str]) -> Vec<String> {
    list.iter().map(|t| t.to_string()).collect()
}

#[test]
fn numbers_are_written_in_decimal() {
    assert_eq!(decimal_text(0), "0");
    assert_eq!(decimal_text(9), "9");
    assert_eq!(decimal_text(10), "10");
    assert_eq!(decimal_text(1024), "1024");
    assert_eq!(decimal_text(usize::MAX), usize::MAX.to_string());
}

#[test]
fn items_are_repeated_with_separators() {
    assert_eq!(repeat_separated("?", ", ", 0), "");
    assert_eq!(repeat_separated("?", ", ", 1), "?");
    assert_eq!(repeat_separated("?", ", ", 3), "?, ?, ?");
}

#[test]
fn placeholder_rows_have_one_mark_for_each_column_of_each_row() {
    assert_eq!(write_placeholder_rows(2, 3), "(?, ?, ?), (?, ?, ?)");
    assert_eq!(write_placeholder_rows(0, 3), "");
    let rows = write_placeholder_rows(7, 12);
    assert_eq!(rows.chars().filter(|c| *c == '?').count(), 84);
}

#[test]
fn texts_are_split_and_joined_back() {
    assert_eq!(split_text("a,b,,c", ','), texts(&["a", "b", "", "c"]));
    assert_eq!(split_text("", ','), texts(&[""]));
    assert_eq!(split_text(",", ','), texts(&["", ""]));
    assert_eq!(split_text("één, twee", ',').join(","), "één, twee");
}

#[test]
fn texts_are_copied_and_compared() {
    assert_eq!(copy_text(&Some("x".to_string())), Some("x".to_string()));
    assert_eq!(copy_text(&None), None);
    assert!(same_text("é", "é"));
    assert!(!same_text("a", "A"));
}

#[test]
fn excluded_sources_are_trimmed() {
    assert_eq!(excluded_sources(&None), None);
    assert_eq!(
        excluded_sources(&Some(" en.a , b\t,\u{3000}c\u{a0},".to_string())),
        Some(texts(&["en.a", "b", "c", ""]))
    );
}

#[test]
fn every_white_space_is_trimmed() {
    for c in (0..=0x10ffff).filter_map(char::from_u32).filter(|c| *c != ',') {
        let padded = format!("{}{}x y{}", c, c, c);
        let expected = vec![padded.trim().to_string()];
        assert_eq!(excluded_sources(&Some(padded)), Some(expected));
    }
    assert_eq!(excluded_sources(&Some(" \u{2028} ".to_string())), Some(texts(&[""])));
}

#[test]
fn pages_start_at_one() {
    assert_eq!(requested_page(None), 1);
    assert_eq!(requested_page(Some(0)), 1);
    assert_eq!(requested_page(Some(-5)), 1);
    assert_eq!(requested_page(Some(7)), 7);
}

#[test]
fn consent_is_given_only_where_it_is_said() {
    let none = sync_consent(&vec![]);
    assert!(!none.accept_migrate_local && !none.accept_replace_remote);
    let first = sync_consent(&vec![true]);
    assert!(first.accept_migrate_local && !first.accept_replace_remote);
    let second = sync_consent(&vec![false, true, true]);
    assert!(!second.accept_migrate_local && second.accept_replace_remote);
}

#[test]
fn query_flags_have_their_defaults() {
    assert!(invalid_mode("true"));
    assert!(!invalid_mode("True"));
    assert!(!invalid_mode(""));
    assert!(download_to_memory(None, true));
    assert!(download_to_memory(Some(false), true));
    assert!(!download_to_memory(Some(true), true));
    assert!(!download_to_memory(None, false));
    assert_eq!(concurrent_pages(None), 4);
    assert_eq!(concurrent_pages(Some(9)), 9);
    assert!(!revoke_from_memory(None));
    assert!(revoke_from_memory(Some(true)));
}

#[test]
fn path_parameters_name_mangas_and_chapters() {
    let manga = MangaId::from(MangaChaptersPathParams {
        source_id: "en.a".to_string(),
        manga_id: "m".to_string(),
    });
    assert_eq!(manga, MangaId::from_strings("en.a".to_string(), "m".to_string()));
    assert_eq!(manga.source_id().value(), "en.a");
    assert_eq!(manga.value(), "m");
    let chapter = ChapterId::from(DownloadMangaChapterParams {
        source_id: "en.a".to_string(),
        manga_id: "m".to_string(),
        chapter_id: "c".to_string(),
    });
    assert_eq!(chapter.source_id().value(), "en.a");
    assert_eq!(chapter.manga_id().value(), "m");
    assert_eq!(chapter.value(), "c");
    assert!(chapter.manga_id().same(&manga));
}

#[test]
fn file_summaries_name_files_below_the_folder() {
    let paths = texts(&["/d/A/one.cbz", "/elsewhere/two.cbz", "/d/three.epub"]);
    let summary = file_summary(&paths, "/d", &vec![Some(1000), None, Some(500)]);
    assert_eq!(summary.filenames, texts(&["A/one.cbz", "three.epub"]));
    assert_eq!(summary.total_size, 1500);
    assert_eq!(summary.total_text, "1.50 kB");
}

#[test]
fn file_urls_need_an_absolute_path() {
    assert_eq!(
        path_to_file_url("/d/a b.jpg", &None),
        Some("file:///d/a%20b.jpg".to_string())
    );
    assert_eq!(path_to_file_url("a.jpg", &None), None);
    assert_eq!(
        path_to_file_url("a.jpg", &Some("/full/a.jpg".to_string())),
        Some("file:///full/a.jpg".to_string())
    );
    assert_eq!(path_to_file_url("a.jpg", &Some("still/a.jpg".to_string())), None);
}
