use comment_watcher::domain::{Account, Claim, Classification, Comment};
use comment_watcher::pipeline::process_comment;
use comment_watcher::store::Storage;

fn account() -> Account {
    Account { id: "a1".to_string(), name: "main".to_string(), is_default: true }
}

fn claim() -> Claim {
    Claim { id: "cl1".to_string(), name: "first post".to_string(), timestamp: 1_600_000_000 }
}

fn comment(id: &str, text: &str) -> Comment {
    Comment {
        id: id.to_string(),
        claim_id: "cl1".to_string(),
        comment: text.to_string(),
        commenter_id: "u1".to_string(),
        commenter_name: "alice".to_string(),
        commenter_url: "https://example.invalid/alice".to_string(),
        is_hidden: false,
        timestamp: 1_600_000_100,
    }
}

#[test]
fn classification_new_inserts_and_notifies() {
    let mut storage = Storage::new();
    let (classification, notification) =
        process_comment(&mut storage, &account(), &claim(), &comment("c1", "hello"));
    assert_eq!(classification, Classification::New);
    let forwarded = notification.expect("a new comment is forwarded");
    assert_eq!(forwarded.id, "c1");
    assert_eq!(forwarded.account_id, "a1");
    assert_eq!(forwarded.claim_name, "first post");
    assert_eq!(forwarded.comment, "hello");
    assert_eq!(storage.all_records().len(), 1);
}

#[test]
fn classification_unchanged_no_mutation_no_notification() {
    let mut storage = Storage::new();
    process_comment(&mut storage, &account(), &claim(), &comment("c1", "hello"));
    let (classification, notification) =
        process_comment(&mut storage, &account(), &claim(), &comment("c1", "hello"));
    assert_eq!(classification, Classification::Unchanged);
    assert!(notification.is_none(), "an unchanged comment is not forwarded");
    assert_eq!(storage.all_records().len(), 1);
    assert_eq!(storage.all_records()[0].comment, "hello");
}

#[test]
fn classification_updated_replaces_record_and_notifies() {
    let mut storage = Storage::new();
    process_comment(&mut storage, &account(), &claim(), &comment("c0", "other"));
    process_comment(&mut storage, &account(), &claim(), &comment("c1", "hello"));
    let (classification, notification) =
        process_comment(&mut storage, &account(), &claim(), &comment("c1", "edited"));
    assert_eq!(classification, Classification::Updated);
    let forwarded = notification.expect("an updated comment is forwarded");
    assert_eq!(forwarded.id, "c1");
    assert_eq!(forwarded.comment, "edited");
    let records = storage.all_records();
    assert_eq!(records.len(), 2, "delete then insert keeps one record per id");
    assert_eq!(records[0].id, "c0", "other ids are untouched");
    assert_eq!(records[1].id, "c1", "the replacement is a fresh insert at the back");
    assert_eq!(records[1].comment, "edited");
}

#[test]
fn lookup_on_empty_store_misses() {
    let storage = Storage::new();
    assert!(storage.get_comment_by_id("c1".to_string()).is_none());
}

#[test]
fn delete_removes_only_the_given_id() {
    let mut storage = Storage::new();
    process_comment(&mut storage, &account(), &claim(), &comment("c1", "one"));
    process_comment(&mut storage, &account(), &claim(), &comment("c2", "two"));
    storage.delete_comment_by_id("c1".to_string());
    assert!(storage.get_comment_by_id("c1".to_string()).is_none());
    assert!(storage.get_comment_by_id("c2".to_string()).is_some());
    storage.delete_comment_by_id("missing".to_string());
    assert_eq!(storage.all_records().len(), 1, "deleting a missing id deletes nothing");
}

#[test]
fn insert_record_refuses_duplicate_ids() {
    let mut storage = Storage::new();
    let (_, first) = process_comment(&mut storage, &account(), &claim(), &comment("c1", "one"));
    let loaded = first.expect("inserted");
    assert!(!storage.insert_record(loaded), "the id is already taken");
    assert_eq!(storage.all_records().len(), 1);
}
