use comment_watcher::domain::{Account, Claim, Comment};
use comment_watcher::store::Storage;

#[test]
fn storage_should_work() {
    let mut storage = Storage::new();

    let account = Account {
        id: "id".to_string(),
        name: "name".to_string(),
        is_default: true,
    };

    let claim = Claim {
        id: "id".to_string(),
        name: "name".to_string(),
        timestamp: 1_700_000_000,
    };

    let comment = Comment {
        id: "id".to_string(),
        claim_id: "claim_id".to_string(),
        comment: "comment".to_string(),
        commenter_id: "commenter_id".to_string(),
        commenter_name: "commenter_name".to_string(),
        commenter_url: "commenter_url".to_string(),
        is_hidden: false,
        timestamp: 1_700_000_000,
    };

    let saved_comment = storage.save_comment(&account, &claim, &comment);

    let entity = storage
        .get_comment_by_id(saved_comment.id)
        .expect("Unable to fetch");

    assert_eq!(entity.id, "id");
    assert_eq!(entity.account_id, "id");
    assert_eq!(entity.claim_id, "claim_id");
    assert_eq!(entity.claim_name, "name");
    assert_eq!(entity.commenter_id, "commenter_id");
    assert_eq!(entity.commenter_name, "commenter_name");
    assert_eq!(entity.commenter_url, "commenter_url");
    assert_eq!(entity.comment, "comment");
    assert!(!entity.is_hidden);
    assert_eq!(entity.timestamp, 1_700_000_000);
}
