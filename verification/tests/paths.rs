use rakuyomi::chapter_storage::{ChapterStorage, ErrorsPathError};
use rakuyomi::database::Database;
use rakuyomi::requests::file_summary;
use rakuyomi::storage_files::FileEntry;

/// All texts of at most `length` of some characters.
fn all_texts(characters: &[char], length: usize) -> Vec<String> {
    let mut all = vec![String::new()];
    let mut last = all.clone();
    for _ in 0..length {
        last = last
            .iter()
            .flat_map(|t| characters.iter().map(move |c| format!("{}{}", t, c)))
            .collect();
        all.extend(last.clone());
    }
    all
}

fn components(path: &str) -> Vec<String> {
    let mut found = Vec::new();
    if path.starts_with('/') {
        found.push("/".to_string());
    }
    for (i, part) in path.split('/').enumerate() {
        if !part.is_empty() && (part != "." || i == 0) {
            found.push(part.to_string());
        }
    }
    found
}

fn beginning(path: &str, wanted: &[String]) -> String {
    (0..path.len())
        .map(|n| &path[..n])
        .find(|p| components(p) == wanted)
        .unwrap_or(path)
        .to_string()
}

fn ending(path: &str, wanted: &[String]) -> String {
    (1..=path.len())
        .rev()
        .map(|n| &path[n..])
        .find(|p| components(p) == wanted)
        .unwrap_or(path)
        .to_string()
}

fn parent(path: &str) -> Option<String> {
    let parts = components(path);
    match parts.last() {
        None => None,
        Some(last) if last == "/" => None,
        Some(_) => Some(beginning(path, &parts[..parts.len() - 1])),
    }
}

fn file_name(path: &str) -> Option<String> {
    components(path).pop().filter(|name| name != "/" && name != "." && name != "..")
}

fn stem_and_extension(name: &str) -> (String, Option<String>) {
    match name.rfind('.') {
        Some(dot) if dot > 0 => (name[..dot].to_string(), Some(name[dot + 1..].to_string())),
        _ => (name.to_string(), None),
    }
}

fn joined(base: &str, rest: &str) -> String {
    if rest.starts_with('/') {
        rest.to_string()
    } else if base.is_empty() || base.ends_with('/') {
        format!("{}{}", base, rest)
    } else {
        format!("{}/{}", base, rest)
    }
}

fn stripped(path: &str, base: &str) -> Option<String> {
    let parts = components(path);
    let first = components(base);
    if !parts.starts_with(&first) {
        return None;
    }
    let body = beginning(path, &parts);
    if first.is_empty() {
        Some(body)
    } else {
        Some(ending(&body, &parts[first.len()..]))
    }
}

fn storage(folder: &str) -> ChapterStorage {
    ChapterStorage::new(folder.to_string(), 0, false)
}

#[test]
fn parents_of_all_short_paths() {
    for path in all_texts(&['/', '.', 'a'], 7) {
        let folder = parent(&path).unwrap_or(path.clone());
        assert_eq!(storage(&path).tmpfs_path(), joined(&folder, "tmpfs"), "{}", path);
    }
}

#[test]
fn error_files_of_all_short_paths() {
    let s = storage("/d");
    for path in all_texts(&['/', '.', 'a', 'b'], 6) {
        let expected = match (parent(&path), file_name(&path)) {
            (None, _) => Err(ErrorsPathError::NoParent),
            (Some(_), None) => Err(ErrorsPathError::NoFileStem),
            (Some(folder), Some(name)) => {
                Ok(joined(&folder, &format!(".{}.errors", stem_and_extension(&name).0)))
            }
        };
        assert_eq!(s.errors_source_path(&path), expected, "{}", path);
    }
}

#[test]
fn backups_of_all_short_paths() {
    for path in all_texts(&['/', '.', 'a', 'b'], 6) {
        let expected = match file_name(&path) {
            None => path.clone(),
            Some(name) if stem_and_extension(&name).0 == "." => continue,
            Some(name) => {
                let body = beginning(&path, &components(&path));
                let stem = stem_and_extension(&name).0;
                format!("{}{}.db.backup", &body[..body.len() - name.len()], stem)
            }
        };
        let (_, backup) = Database { filename: path.clone() }.hot_replace();
        assert_eq!(backup, expected, "{}", path);
    }
}

#[test]
fn extensions_of_all_short_paths() {
    let s = storage("/d");
    for start in all_texts(&['/', '.', 'a'], 4) {
        for end in ["cbz", ".cbz", ".EPUB", "cbz/", ".epub/.", ".cbz//", ".cbz."] {
            let path = format!("{}{}", start, end);
            let is_chapter = file_name(&path)
                .and_then(|name| stem_and_extension(&name).1)
                .is_some_and(|e| e.to_lowercase() == "cbz" || e.to_lowercase() == "epub");
            let entries =
                vec![FileEntry { path: path.clone(), is_file: true, size: Some(1), modified: None }];
            assert_eq!(s.collect_all_files(&entries).len(), is_chapter as usize, "{}", path);
        }
    }
}

#[test]
fn one_file_under_all_short_folders() {
    let s = storage("/d");
    let folders = all_texts(&['/', '.', 'a'], 4);
    for a in &folders {
        for b in &folders {
            let paths = [format!("{}/x.cbz", a), format!("{}/x.cbz", b)];
            let entries = paths
                .iter()
                .map(|path| FileEntry {
                    path: path.clone(),
                    is_file: true,
                    size: Some(1),
                    modified: None,
                })
                .collect();
            let same = components(&paths[0]) == components(&paths[1]);
            let expected = if same { 1 } else { 2 };
            assert_eq!(s.collect_all_files(&entries).len(), expected, "{:?}", paths);
        }
    }
}

#[test]
fn names_below_all_short_folders() {
    let s = storage("/d");
    let paths = all_texts(&['/', '.', 'a'], 6);
    for base in all_texts(&['/', '.', 'a'], 4) {
        for path in &paths {
            let expected = stripped(path, &base);
            assert_eq!(s.confirm_delete(path, &base).is_ok(), expected.is_some());
            let summary = file_summary(&vec![path.clone()], &base, &vec![None]);
            assert_eq!(summary.filenames, Vec::from_iter(expected), "{} below {}", path, base);
        }
    }
}
