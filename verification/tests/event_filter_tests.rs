use tipjar::events::filters::{
    amount_range_filter, creator_filter, matches_filter, sender_filter, tags_filter, time_range_filter,
    token_filter,
};
use tipjar::events::{EventFilter, TipEvent};
use tipjar::ledger::Address;

fn event() -> TipEvent {
    TipEvent {
        sender: Address(1),
        creator: Address(2),
        token: Address(3),
        amount: 500,
        timestamp: 1_000,
        tags: vec!["music".to_string(), "live".to_string()],
    }
}

#[test]
fn single_field_filters_select_by_their_field() {
    let e = event();
    assert!(matches_filter(&e, &creator_filter(&Address(2))));
    assert!(!matches_filter(&e, &creator_filter(&Address(1))));
    assert!(matches_filter(&e, &sender_filter(&Address(1))));
    assert!(!matches_filter(&e, &sender_filter(&Address(2))));
    assert!(matches_filter(&e, &token_filter(&Address(3))));
    assert!(!matches_filter(&e, &token_filter(&Address(4))));
}

#[test]
fn range_filters_include_their_ends() {
    let e = event();
    assert!(matches_filter(&e, &time_range_filter(1_000, 1_000)));
    assert!(matches_filter(&e, &time_range_filter(0, 2_000)));
    assert!(!matches_filter(&e, &time_range_filter(1_001, 2_000)));
    assert!(!matches_filter(&e, &time_range_filter(0, 999)));
    assert!(matches_filter(&e, &amount_range_filter(500, 500)));
    assert!(!matches_filter(&e, &amount_range_filter(501, 900)));
    assert!(!matches_filter(&e, &amount_range_filter(0, 499)));
}

#[test]
fn tag_filter_needs_one_shared_tag() {
    let e = event();
    assert!(matches_filter(&e, &tags_filter(&vec!["art".to_string(), "live".to_string()])));
    assert!(!matches_filter(&e, &tags_filter(&vec!["art".to_string()])));
    // An empty list of tags restricts nothing.
    assert!(matches_filter(&e, &tags_filter(&vec![])));
    let f = tags_filter(&vec!["x".to_string()]);
    assert_eq!(f.tags, Some(vec!["x".to_string()]));
    assert!(f.creator.is_none() && f.start_time.is_none());
}

#[test]
fn combined_filter_needs_every_field() {
    let e = event();
    let f = EventFilter {
        event_type: Some("tip".to_string()),
        sender: Some(Address(1)),
        creator: Some(Address(2)),
        token: None,
        min_amount: Some(100),
        max_amount: None,
        start_time: None,
        end_time: Some(5_000),
        tags: Some(vec!["music".to_string()]),
    };
    assert!(matches_filter(&e, &f));
    let mut g = f.clone();
    g.min_amount = Some(600);
    assert!(!matches_filter(&e, &g));
    let mut h = f.clone();
    h.tags = Some(vec!["Music".to_string()]);
    assert!(!matches_filter(&e, &h));
}
