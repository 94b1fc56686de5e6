use translation_assistant::database::Database;
use translation_assistant::model::{ChatRole, StorageError, TranslationStatus};

fn names(db: &Database) -> Vec<String> {
    db.get_projects().iter().map(|p| p.name.clone()).collect()
}

#[test]
fn created_project_is_found_again() {
    let mut db = Database::new();
    let p = db.create_project("Novel".to_string(), Some("a book".to_string())).unwrap();
    let q = db.get_project(&p.id).unwrap();
    assert_eq!(q.id, p.id);
    assert_eq!(q.name, "Novel");
    assert_eq!(q.description, Some("a book".to_string()));
    assert_eq!(q.created_at, p.created_at);
    assert_eq!(q.updated_at, p.updated_at);
    assert_eq!(p.created_at, p.updated_at);
}

#[test]
fn unknown_project_is_absent() {
    let db = Database::new();
    assert!(db.get_project("nope").is_none());
    assert!(db.get_projects().is_empty());
}

#[test]
fn projects_are_listed_newest_first() {
    let mut db = Database::new();
    db.create_project_at("a".to_string(), "A".to_string(), None, 10).unwrap();
    db.create_project_at("c".to_string(), "C".to_string(), None, 30).unwrap();
    db.create_project_at("b".to_string(), "B".to_string(), None, 20).unwrap();
    assert_eq!(names(&db), vec!["C", "B", "A"]);
    db.create_project_at("d".to_string(), "D".to_string(), None, 40).unwrap();
    assert_eq!(names(&db), vec!["D", "C", "B", "A"]);
}

#[test]
fn project_listing_is_repeatable() {
    let mut db = Database::new();
    db.create_project_at("a".to_string(), "A".to_string(), None, 5).unwrap();
    db.create_project_at("b".to_string(), "B".to_string(), None, 5).unwrap();
    let first: Vec<String> = db.get_projects().iter().map(|p| p.id.clone()).collect();
    let second: Vec<String> = db.get_projects().iter().map(|p| p.id.clone()).collect();
    assert_eq!(first, second);
}

#[test]
fn duplicate_project_id_is_refused() {
    let mut db = Database::new();
    db.create_project_at("a".to_string(), "A".to_string(), None, 1).unwrap();
    let e = db.create_project_at("a".to_string(), "B".to_string(), None, 2).unwrap_err();
    assert_eq!(e, StorageError::DuplicateId("a".to_string()));
    assert_eq!(e.message(), "duplicate id: a");
    assert_eq!(names(&db), vec!["A"]);
}

#[test]
fn fresh_ids_differ() {
    let mut db = Database::new();
    let p = db.create_project("One".to_string(), None).unwrap();
    let q = db.create_project("Two".to_string(), None).unwrap();
    assert!(!p.id.is_empty());
    assert_ne!(p.id, q.id);
    assert!(p.created_at > 0);
}

#[test]
fn new_translation_is_a_draft() {
    let mut db = Database::new();
    let p = db.create_project("P".to_string(), None).unwrap();
    let t = db.create_translation(p.id.clone(), "Hola".to_string()).unwrap();
    assert_eq!(t.status, TranslationStatus::Draft);
    assert_eq!(t.target_text, None);
    assert_eq!(t.notes, None);
    assert_eq!(t.source_text, "Hola");
    assert_eq!(t.created_at, t.updated_at);
}

#[test]
fn translation_needs_its_project() {
    let mut db = Database::new();
    let e = db.create_translation("ghost".to_string(), "Hola".to_string()).unwrap_err();
    assert_eq!(e, StorageError::UnknownProject("ghost".to_string()));
    assert_eq!(e.message(), "unknown project: ghost");
    let e = db.add_chat_message("ghost".to_string(), ChatRole::User, "hi".to_string()).unwrap_err();
    assert_eq!(e, StorageError::UnknownProject("ghost".to_string()));
}

#[test]
fn target_edit_keeps_notes_and_status() {
    let mut db = Database::new();
    db.create_project_at("p".to_string(), "P".to_string(), None, 1).unwrap();
    db.create_translation_at("t".to_string(), "p".to_string(), "Hola".to_string(), 2).unwrap();
    db.update_translation_at("t", None, Some("note".to_string()), Some(TranslationStatus::Validated), 3);
    db.update_translation_at("t", Some("x".to_string()), None, None, 7);
    let t = &db.get_translations("p")[0];
    assert_eq!(t.target_text, Some("x".to_string()));
    assert_eq!(t.notes, Some("note".to_string()));
    assert_eq!(t.status, TranslationStatus::Validated);
    assert_eq!(t.updated_at, 7);
    assert_eq!(t.created_at, 2);
}

#[test]
fn empty_edit_and_unknown_id_change_nothing() {
    let mut db = Database::new();
    db.create_project_at("p".to_string(), "P".to_string(), None, 1).unwrap();
    db.create_translation_at("t".to_string(), "p".to_string(), "Hola".to_string(), 2).unwrap();
    db.update_translation_at("t", None, None, None, 9);
    db.update_translation_at("other", Some("y".to_string()), None, None, 9);
    let t = &db.get_translations("p")[0];
    assert_eq!(t.updated_at, 2);
    assert_eq!(t.target_text, None);
    let stamp = db.update_translation("t", None, None, Some(TranslationStatus::Approved));
    let t = &db.get_translations("p")[0];
    assert_eq!(t.status, TranslationStatus::Approved);
    assert_eq!(t.updated_at, stamp);
}

#[test]
fn translations_are_listed_oldest_first_and_stable() {
    let mut db = Database::new();
    db.create_project_at("p".to_string(), "P".to_string(), None, 1).unwrap();
    db.create_project_at("q".to_string(), "Q".to_string(), None, 1).unwrap();
    db.create_translation_at("late".to_string(), "p".to_string(), "3".to_string(), 50).unwrap();
    db.create_translation_at("first".to_string(), "p".to_string(), "1".to_string(), 10).unwrap();
    db.create_translation_at("other".to_string(), "q".to_string(), "x".to_string(), 10).unwrap();
    db.create_translation_at("second".to_string(), "p".to_string(), "2".to_string(), 10).unwrap();
    let ids: Vec<String> = db.get_translations("p").iter().map(|t| t.id.clone()).collect();
    assert_eq!(ids, vec!["first", "second", "late"]);
    assert_eq!(db.get_translations("q").len(), 1);
}

#[test]
fn deleting_a_project_cascades() {
    let mut db = Database::new();
    db.create_project_at("p".to_string(), "P".to_string(), None, 1).unwrap();
    db.create_project_at("q".to_string(), "Q".to_string(), None, 2).unwrap();
    db.create_translation_at("t1".to_string(), "p".to_string(), "a".to_string(), 3).unwrap();
    db.create_translation_at("t2".to_string(), "q".to_string(), "b".to_string(), 4).unwrap();
    db.add_chat_message_at("m1".to_string(), "p".to_string(), ChatRole::User, "hi".to_string(), 5).unwrap();
    db.add_chat_message_at("m2".to_string(), "q".to_string(), ChatRole::User, "yo".to_string(), 6).unwrap();
    assert!(db.delete_project("p"));
    assert!(db.get_project("p").is_none());
    assert!(db.get_translations("p").is_empty());
    assert!(db.get_chat_messages("p").is_empty());
    assert_eq!(db.get_translations("q").len(), 1);
    assert_eq!(db.get_chat_messages("q").len(), 1);
    assert!(!db.delete_project("p"));
}

#[test]
fn assistant_message_round_trips() {
    let mut db = Database::new();
    let p = db.create_project("P".to_string(), None).unwrap();
    let m = db.add_chat_message(p.id.clone(), ChatRole::Assistant, "Bonjour".to_string()).unwrap();
    let back = db.get_chat_messages(&p.id);
    assert_eq!(back.len(), 1);
    assert_eq!(back[0].role, ChatRole::Assistant);
    assert_eq!(back[0].content, "Bonjour");
    assert_eq!(back[0].id, m.id);
}

#[test]
fn chat_messages_are_listed_oldest_first() {
    let mut db = Database::new();
    db.create_project_at("p".to_string(), "P".to_string(), None, 1).unwrap();
    db.add_chat_message_at("b".to_string(), "p".to_string(), ChatRole::Assistant, "2".to_string(), 20).unwrap();
    db.add_chat_message_at("a".to_string(), "p".to_string(), ChatRole::User, "1".to_string(), 10).unwrap();
    db.add_chat_message_at("c".to_string(), "p".to_string(), ChatRole::User, "3".to_string(), 20).unwrap();
    let ids: Vec<String> = db.get_chat_messages("p").iter().map(|m| m.id.clone()).collect();
    assert_eq!(ids, vec!["a", "b", "c"]);
    let e = db.add_chat_message_at("a".to_string(), "p".to_string(), ChatRole::User, "x".to_string(), 30).unwrap_err();
    assert_eq!(e, StorageError::DuplicateId("a".to_string()));
}

#[test]
fn stored_status_and_role_texts() {
    assert_eq!(TranslationStatus::Validated.to_stored(), "Validated");
    assert_eq!(TranslationStatus::from_stored("Approved"), TranslationStatus::Approved);
    assert_eq!(TranslationStatus::from_stored("Validated"), TranslationStatus::Validated);
    assert_eq!(TranslationStatus::from_stored("Draft"), TranslationStatus::Draft);
    assert_eq!(TranslationStatus::from_stored("Archived"), TranslationStatus::Draft);
    assert_eq!(ChatRole::Assistant.to_stored(), "Assistant");
    assert_eq!(ChatRole::from_stored("Assistant"), ChatRole::Assistant);
    assert_eq!(ChatRole::from_stored("System"), ChatRole::User);
}
