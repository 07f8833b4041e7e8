use comment_watcher::domain::ApiError;
use comment_watcher::pagination::{PaginatedApiResult, PaginatedCollector};

fn envelope(items: Vec<u64>, page: usize, page_size: usize, total_items: usize, total_pages: usize) -> PaginatedApiResult<u64> {
    PaginatedApiResult { items, page, page_size, total_items, total_pages }
}

#[test]
fn pagination_single_page() {
    let mut collector: PaginatedCollector<u64> = PaginatedCollector::new();
    collector.start(Ok(envelope(vec![10, 11, 12], 1, 3, 3, 1)));
    assert!(collector.is_done());
    assert_eq!(collector.pending_pages().len(), 0);
    assert_eq!(collector.into_items(), vec![10, 11, 12]);
}

#[test]
fn pagination_two_pages_union() {
    let mut collector: PaginatedCollector<u64> = PaginatedCollector::new();
    collector.start(Ok(envelope(vec![1, 2], 1, 2, 4, 2)));
    assert!(!collector.is_done());
    assert_eq!(collector.pending_pages(), &vec![2]);
    collector.deliver(2, Ok(envelope(vec![3, 4], 2, 2, 4, 2)));
    assert!(collector.is_done());
    assert_eq!(collector.into_items(), vec![1, 2, 3, 4]);
}

#[test]
fn pagination_five_pages_delivered_out_of_order() {
    let mut collector: PaginatedCollector<u64> = PaginatedCollector::new();
    collector.start(Ok(envelope(vec![1, 2], 1, 2, 10, 5)));
    assert_eq!(collector.pending_pages(), &vec![2, 3, 4, 5]);
    // completion order differs from page order
    collector.deliver(4, Ok(envelope(vec![7, 8], 4, 2, 10, 5)));
    collector.deliver(2, Ok(envelope(vec![3, 4], 2, 2, 10, 5)));
    collector.deliver(5, Ok(envelope(vec![9, 10], 5, 2, 10, 5)));
    collector.deliver(3, Ok(envelope(vec![5, 6], 3, 2, 10, 5)));
    assert!(collector.is_done());
    let mut items = collector.into_items();
    assert_eq!(&items[..2], &[1, 2], "page 1 items come first");
    items.sort();
    assert_eq!(items, vec![1, 2, 3, 4, 5, 6, 7, 8, 9, 10], "union of all pages, whatever the order");
}

#[test]
fn pagination_batch_delivery_matches_single_deliveries() {
    let mut collector: PaginatedCollector<u64> = PaginatedCollector::new();
    collector.start(Ok(envelope(vec![1], 1, 1, 4, 4)));
    collector.deliver_many(vec![
        (3, Ok(envelope(vec![3], 3, 1, 4, 4))),
        (2, Ok(envelope(vec![2], 2, 1, 4, 4))),
        (4, Err(ApiError::NetworkError)),
    ]);
    assert!(collector.is_done());
    assert_eq!(collector.into_items(), vec![1, 3, 2], "items arrive in delivery order");
}

#[test]
fn pagination_failed_first_page_yields_zero_items() {
    let mut collector: PaginatedCollector<u64> = PaginatedCollector::new();
    collector.start(Err(ApiError::NetworkError));
    assert!(collector.is_done());
    assert_eq!(collector.pending_pages().len(), 0);
    assert_eq!(collector.into_items(), Vec::<u64>::new());
}

#[test]
fn pagination_failed_later_page_contributes_empty() {
    let mut collector: PaginatedCollector<u64> = PaginatedCollector::new();
    collector.start(Ok(envelope(vec![1, 2], 1, 2, 6, 3)));
    collector.deliver(2, Err(ApiError::InvalidResponse));
    assert!(!collector.is_done(), "a failed page does not end the stream");
    collector.deliver(3, Ok(envelope(vec![5, 6], 3, 2, 6, 3)));
    assert!(collector.is_done());
    let mut items = collector.into_items();
    items.sort();
    assert_eq!(items, vec![1, 2, 5, 6], "the failed page is empty, its siblings still count");
}
