use comment_watcher::domain::CommentEntity;
use comment_watcher::sink::NotificationSink;

fn record(id: &str) -> CommentEntity {
    CommentEntity {
        id: id.to_string(),
        account_id: "a1".to_string(),
        claim_id: "cl1".to_string(),
        claim_name: "claim one".to_string(),
        commenter_id: "u1".to_string(),
        commenter_name: "dave".to_string(),
        commenter_url: "https://example.invalid/dave".to_string(),
        comment: "text".to_string(),
        is_hidden: false,
        timestamp: 1_650_000_003,
    }
}

#[test]
fn sink_delivers_each_record_once_in_order() {
    let mut sink = NotificationSink::new();
    sink.enqueue(record("n1"));
    sink.enqueue(record("n2"));

    let first = sink.begin_delivery().expect("one record owed");
    assert_eq!(first.id, "n1");
    sink.confirm_delivery();

    let second = sink.begin_delivery().expect("one record still owed");
    assert_eq!(second.id, "n2");
    sink.confirm_delivery();

    assert!(sink.begin_delivery().is_none(), "nothing is handed out twice");
    assert!(sink.is_drained());
    assert_eq!(sink.delivered_count(), 2);
}

#[test]
fn sink_accepts_work_while_draining() {
    let mut sink = NotificationSink::new();
    sink.enqueue(record("n1"));
    let first = sink.begin_delivery().expect("one record owed");
    assert_eq!(first.id, "n1");
    sink.confirm_delivery();
    sink.enqueue(record("n2"));
    assert!(!sink.is_drained());
    let second = sink.begin_delivery().expect("the late record is owed too");
    assert_eq!(second.id, "n2");
    sink.confirm_delivery();
    assert!(sink.is_drained());
}
