use comment_watcher::domain::{Account, Claim, Comment};
use comment_watcher::fanout::FanOut;

fn account(id: &str) -> Account {
    Account { id: id.to_string(), name: format!("account {}", id), is_default: false }
}

fn claim(id: &str) -> Claim {
    Claim { id: id.to_string(), name: format!("claim {}", id), timestamp: 1_650_000_000 }
}

fn comment(id: &str, claim_id: &str) -> Comment {
    Comment {
        id: id.to_string(),
        claim_id: claim_id.to_string(),
        comment: format!("text of {}", id),
        commenter_id: "u1".to_string(),
        commenter_name: "bob".to_string(),
        commenter_url: "https://example.invalid/bob".to_string(),
        is_hidden: false,
        timestamp: 1_650_000_001,
    }
}

#[test]
fn fanout_bound_never_exceeded() {
    let mut fanout = FanOut::new(2);
    for i in 0..5 {
        fanout.push_account(account(&format!("a{}", i)));
    }
    fanout.accounts_exhausted();

    let first = fanout.begin_claim_expansion().expect("capacity free, work queued");
    assert!(fanout.claim_expansions_in_flight() <= fanout.configured_bound());
    let second = fanout.begin_claim_expansion().expect("still under the bound");
    assert_eq!(fanout.claim_expansions_in_flight(), 2);
    assert!(fanout.begin_claim_expansion().is_none(), "the claim level is saturated");
    assert!(fanout.claim_expansions_in_flight() <= fanout.configured_bound());

    fanout.finish_claim_expansion(&first, vec![claim("cl0")]);
    assert_eq!(fanout.claim_expansions_in_flight(), 1);
    let third = fanout.begin_claim_expansion().expect("capacity freed up again");
    fanout.finish_claim_expansion(&second, vec![claim("cl1")]);
    fanout.finish_claim_expansion(&third, vec![claim("cl2")]);

    // the comment level is capped independently
    let pair_a = fanout.begin_comment_expansion().expect("pairs queued");
    let pair_b = fanout.begin_comment_expansion().expect("still under the bound");
    assert_eq!(fanout.comment_expansions_in_flight(), 2);
    assert!(fanout.begin_comment_expansion().is_none(), "the comment level is saturated");
    fanout.finish_comment_expansion(&pair_a.0, &pair_a.1, vec![]);
    assert_eq!(fanout.comment_expansions_in_flight(), 1);
    fanout.finish_comment_expansion(&pair_b.0, &pair_b.1, vec![]);
    assert_eq!(fanout.comment_expansions_in_flight(), 0);
}

#[test]
fn fanout_pairs_every_comment_with_its_origin() {
    let mut fanout = FanOut::new(4);
    fanout.push_account(account("a1"));
    fanout.accounts_exhausted();

    let acc = fanout.begin_claim_expansion().unwrap();
    fanout.finish_claim_expansion(&acc, vec![claim("cl1"), claim("cl2")]);

    while let Some((acc, cl)) = fanout.begin_comment_expansion() {
        let comments = vec![
            comment(&format!("{}-x", cl.id), &cl.id),
            comment(&format!("{}-y", cl.id), &cl.id),
        ];
        fanout.finish_comment_expansion(&acc, &cl, comments);
    }

    assert!(fanout.is_complete());
    let triples = fanout.into_triples();
    assert_eq!(triples.len(), 4);
    for (acc, cl, co) in &triples {
        assert_eq!(acc.id, "a1");
        assert_eq!(co.claim_id, cl.id, "each comment is paired with the claim it came from");
        assert!(co.id.starts_with(&cl.id));
    }
}

#[test]
fn fanout_completion_needs_everything_drained() {
    let mut fanout = FanOut::new(2);
    fanout.push_account(account("a1"));
    assert!(!fanout.is_complete(), "the account stream is still open");
    fanout.accounts_exhausted();
    assert!(!fanout.is_complete(), "an account still waits for expansion");
    let acc = fanout.begin_claim_expansion().unwrap();
    assert!(!fanout.is_complete(), "a claim expansion is in flight");
    fanout.finish_claim_expansion(&acc, vec![claim("cl1")]);
    assert!(!fanout.is_complete(), "a pair still waits for expansion");
    let (acc, cl) = fanout.begin_comment_expansion().unwrap();
    assert!(!fanout.is_complete(), "a comment expansion is in flight");
    fanout.finish_comment_expansion(&acc, &cl, vec![comment("c1", "cl1")]);
    assert!(fanout.is_complete());
    assert_eq!(fanout.into_triples().len(), 1);
}

#[test]
fn fanout_default_bound_is_positive() {
    let fanout = FanOut::with_default_bound();
    assert!(fanout.configured_bound() >= 1);
}
