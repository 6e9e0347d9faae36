use rakuyomi::cancel::CancelTokenStore;
use rakuyomi::database::Database;
use rakuyomi::hot_replace::{ReplaceFailure, ReplaceState};
use rakuyomi::routes::{routes, Endpoint, Method};

#[test]
fn every_request_has_one_endpoint() {
    let all = routes();
    assert_eq!(all.len(), 25);
    for (i, a) in all.iter().enumerate() {
        for b in &all[i + 1..] {
            assert!(a.method != b.method || a.path != b.path);
            assert_ne!(a.endpoint, b.endpoint);
        }
    }
    assert_eq!(all[0].method, Method::Get);
    assert_eq!(all[0].path, "/library");
    assert_eq!(all[0].endpoint, Endpoint::GetMangaLibrary);
    assert_eq!(all[7].method, Method::Delete);
    assert_eq!(all[7].path, "/notifications/{id}");
    assert_eq!(all[24].path, "/mangas/{source_id}/{manga_id}/preferred-scanlator");
    assert_eq!(all[24].method, Method::Post);
    assert_eq!(all[24].endpoint, Endpoint::SetMangaPreferredScanlator);
}

#[test]
fn requests_can_be_cancelled_until_they_are_done_with() {
    let mut store: CancelTokenStore<&str> = CancelTokenStore::new();
    assert!(!store.create_token(Some(1), "a"));
    assert!(!store.create_token(None, "b"));
    assert!(!store.create_token(Some(2), "c"));
    assert!(store.create_token(Some(1), "d"));
    assert_eq!(store.cancel_request(1), Some("d"));
    assert_eq!(store.cancel_request(1), None);
    store.release(None);
    store.release(Some(2));
    assert_eq!(store.cancel_request(2), None);
}

fn run(answers: &[bool]) -> Vec<ReplaceState> {
    let (database, _) = Database::new("/d/db.sqlite".to_string());
    let (mut state, backup) = database.hot_replace();
    assert_eq!(backup, "/d/db.db.backup");
    let mut states = vec![state];
    for answer in answers {
        assert!(!state.is_final());
        state = state.advance(*answer);
        states.push(state);
    }
    states
}

#[test]
fn a_database_is_replaced() {
    assert_eq!(
        run(&[true, true, true, true, true, true, true, true, false]),
        vec![
            ReplaceState::Detach,
            ReplaceState::LookForDatabase,
            ReplaceState::BackUp,
            ReplaceState::Write,
            ReplaceState::Connect,
            ReplaceState::Migrate,
            ReplaceState::Install,
            ReplaceState::LookForOldBackup,
            ReplaceState::RemoveBackup,
            ReplaceState::Replaced,
        ]
    );
    let fresh = run(&[true, false, true, true, true, true, false]);
    assert_eq!(fresh[7], ReplaceState::Replaced);
    assert!(fresh[7].is_final());
}

#[test]
fn a_failure_restores_the_backup() {
    let write = run(&[true, true, true, false, true, true]);
    assert_eq!(write[4], ReplaceState::LookForBackup(ReplaceFailure::Write));
    assert_eq!(write[5], ReplaceState::Restore(ReplaceFailure::Write));
    assert_eq!(write[6], ReplaceState::Failed(ReplaceFailure::Write));
    let connect = run(&[true, true, true, true, false, true, false]);
    assert_eq!(connect[7], ReplaceState::Failed(ReplaceFailure::Connect));
    let migrate = run(&[true, false, true, true, false, true, false]);
    assert_eq!(migrate[5], ReplaceState::CloseNew);
    assert_eq!(migrate[7], ReplaceState::Failed(ReplaceFailure::Migrate));
}

#[test]
fn nothing_is_touched_where_the_start_fails() {
    assert_eq!(run(&[false])[1], ReplaceState::Failed(ReplaceFailure::Detach));
    assert_eq!(run(&[true, true, false])[3], ReplaceState::Failed(ReplaceFailure::BackUp));
}

#[test]
fn the_database_is_opened_with_its_settings() {
    let (database, settings) = Database::new("/d/db.sqlite".to_string());
    assert_eq!(database.filename, "/d/db.sqlite");
    assert_eq!(settings.cache_size, "-2000");
    assert_eq!(settings.temp_store, "MEMORY");
    assert_eq!((settings.max_connections, settings.min_connections), (4, 1));
    assert_eq!(settings.acquire_timeout_seconds, 5);
    assert!(settings.create_if_missing && settings.foreign_keys);
    assert!(settings.write_ahead_log && settings.synchronous_normal);
}
