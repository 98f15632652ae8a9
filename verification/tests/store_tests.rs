use notes_sync::errors::AppError;
use notes_sync::store::{CreateNoteRequest, NoteStore, UpdateNoteRequest};

fn req(user_id: u128, title: &str, body: &str, tags: &[&str]) -> CreateNoteRequest {
    CreateNoteRequest {
        user_id,
        title: title.as_bytes().to_vec(),
        body: body.as_bytes().to_vec(),
        tags: tags.iter().map(|t| t.as_bytes().to_vec()).collect(),
    }
}

fn empty_patch() -> UpdateNoteRequest {
    UpdateNoteRequest { title: None, body: None, tags: None }
}

#[test]
fn create_sets_revision_one_and_timestamps() {
    let mut store = NoteStore::new();
    let n = store.create_note(7, req(1, "t", "b", &["x", "y"]), 100).unwrap();
    assert_eq!(n.id, 7);
    assert_eq!(n.user_id, 1);
    assert_eq!(n.revision, 1);
    assert_eq!(n.title, b"t".to_vec());
    assert_eq!(n.body, b"b".to_vec());
    assert_eq!(n.tags, vec![b"x".to_vec(), b"y".to_vec()]);
    assert_eq!(n.created_at, 100);
    assert_eq!(n.updated_at, 100);
}

#[test]
fn create_duplicate_id_is_storage_error() {
    let mut store = NoteStore::new();
    store.create_note(7, req(1, "a", "b", &[]), 1).unwrap();
    let r = store.create_note(7, req(2, "c", "d", &[]), 2);
    assert!(matches!(r, Err(AppError::InternalServerError)));
    assert_eq!(store.notes.len(), 1);
}

#[test]
fn get_returns_stored_note_or_not_found() {
    let mut store = NoteStore::new();
    store.create_note(3, req(1, "hello", "world", &[]), 5).unwrap();
    let n = store.get_note(3).unwrap();
    assert_eq!(n.title, b"hello".to_vec());
    assert!(matches!(store.get_note(4), Err(AppError::NotFound)));
}

#[test]
fn update_missing_note_is_not_found() {
    let mut store = NoteStore::new();
    let r = store.update_note(9, &empty_patch(), 10);
    assert!(matches!(r, Err(AppError::NotFound)));
}

#[test]
fn partial_update_preserves_unspecified_fields() {
    let mut store = NoteStore::new();
    store.create_note(1, req(1, "old title", "old body", &["k"]), 10).unwrap();
    let patch = UpdateNoteRequest {
        title: Some(b"new title".to_vec()),
        body: None,
        tags: None,
    };
    let n = store.update_note(1, &patch, 20).unwrap();
    assert_eq!(n.title, b"new title".to_vec());
    assert_eq!(n.body, b"old body".to_vec());
    assert_eq!(n.tags, vec![b"k".to_vec()]);
    assert_eq!(n.revision, 2);
    assert_eq!(n.created_at, 10);
    assert_eq!(n.updated_at, 20);
}

#[test]
fn revisions_increase_by_one_with_no_gaps() {
    let mut store = NoteStore::new();
    store.create_note(1, req(1, "t", "b", &[]), 0).unwrap();
    for k in 1..6i64 {
        let n = store.update_note(1, &empty_patch(), k).unwrap();
        assert_eq!(n.revision, 1 + k);
        assert_eq!(n.updated_at, k);
    }
    let stored = store.get_note(1).unwrap();
    assert_eq!(stored.revision, 6);
}

#[test]
fn update_at_revision_limit_is_storage_error_and_changes_nothing() {
    let mut store = NoteStore::new();
    let mut n = store.create_note(1, req(1, "t", "b", &[]), 0).unwrap();
    n.revision = i64::MAX;
    store.notes[0].revision = i64::MAX;
    let r = store.update_note(1, &empty_patch(), 5);
    assert!(matches!(r, Err(AppError::InternalServerError)));
    assert_eq!(store.notes[0].revision, i64::MAX);
    assert_eq!(store.notes[0].updated_at, 0);
}

#[test]
fn delete_removes_note_and_reports_missing() {
    let mut store = NoteStore::new();
    store.create_note(1, req(1, "t", "b", &[]), 0).unwrap();
    assert!(store.delete_note(1).is_ok());
    assert!(matches!(store.get_note(1), Err(AppError::NotFound)));
    assert!(matches!(store.delete_note(1), Err(AppError::NotFound)));
}

#[test]
fn list_notes_filters_by_owner_and_sorts_newest_first() {
    let mut store = NoteStore::new();
    store.create_note(1, req(1, "a", "", &[]), 10).unwrap();
    store.create_note(2, req(2, "other", "", &[]), 50).unwrap();
    store.create_note(3, req(1, "b", "", &[]), 30).unwrap();
    store.create_note(4, req(1, "c", "", &[]), 20).unwrap();
    let listed = store.list_notes(1);
    assert_eq!(listed.len(), 3);
    assert_eq!(listed[0].title, b"b".to_vec());
    assert_eq!(listed[1].title, b"c".to_vec());
    assert_eq!(listed[2].title, b"a".to_vec());
    assert!(listed.iter().all(|n| n.user_id == 1));
}

#[test]
fn list_notes_for_unknown_owner_is_empty() {
    let mut store = NoteStore::new();
    store.create_note(1, req(1, "a", "", &[]), 10).unwrap();
    assert!(store.list_notes(99).is_empty());
}

#[test]
fn auto_created_notes_get_distinct_identifiers() {
    let mut store = NoteStore::new();
    let a = store.create_note_auto(req(1, "a", "", &[]), 1).unwrap();
    let b = store.create_note_auto(req(1, "b", "", &[]), 2).unwrap();
    assert_ne!(a.id, b.id);
    assert_eq!(store.notes.len(), 2);
}

#[test]
fn clock_going_backwards_never_rewinds_before_creation() {
    let mut store = NoteStore::new();
    store.create_note(1, req(1, "t", "b", &[]), 100).unwrap();
    let n = store.update_note(1, &empty_patch(), 40).unwrap();
    assert_eq!(n.updated_at, 100);
    assert_eq!(n.revision, 2);
}
