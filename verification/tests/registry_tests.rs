use timely_greeter_bot::commands::handle_update;
use timely_greeter_bot::commands::outcome_persists;
use timely_greeter_bot::commands::reply_for_outcome;
use timely_greeter_bot::commands::effective_text;
use timely_greeter_bot::commands::UpdateOutcome;
use timely_greeter_bot::registry::SubscriberRegistry;

#[test]
fn snapshot_reflects_net_effect_of_ops_in_order() {
    let mut reg = SubscriberRegistry::new();
    assert!(reg.add(10));
    assert!(reg.add(20));
    assert!(reg.add(30));
    assert!(reg.remove(20));
    assert!(reg.add(40));
    assert!(!reg.add(10));
    assert!(reg.remove(10));
    assert_eq!(reg.snapshot(), vec![30, 40]);
}

#[test]
fn no_duplicates_however_often_added() {
    let mut reg = SubscriberRegistry::new();
    assert!(reg.add(7));
    assert!(!reg.add(7));
    assert!(!reg.add(7));
    assert_eq!(reg.snapshot(), vec![7]);
    assert_eq!(reg.len(), 1);
}

#[test]
fn readd_is_noop_and_needs_no_persistence() {
    let mut reg = SubscriberRegistry::new();
    assert!(reg.add(5));
    let before = reg.snapshot();
    let outcome = handle_update(&mut reg, 5, &Some(String::from("hello")));
    assert_eq!(outcome, UpdateOutcome::AlreadySubscribed);
    assert!(!outcome_persists(&outcome));
    assert_eq!(reg.snapshot(), before);
}

#[test]
fn stop_from_nonsubscriber_is_noop() {
    let mut reg = SubscriberRegistry::new();
    reg.add(1);
    let outcome = handle_update(&mut reg, 99, &Some(String::from("/stop")));
    assert_eq!(outcome, UpdateOutcome::StopIgnored);
    assert!(!outcome_persists(&outcome));
    assert_eq!(reg.snapshot(), vec![1]);
    assert_eq!(reg.len(), 1);
}

#[test]
fn stop_from_subscriber_removes() {
    let mut reg = SubscriberRegistry::new();
    reg.add(1);
    reg.add(2);
    let outcome = handle_update(&mut reg, 1, &Some(String::from("/stop")));
    assert_eq!(outcome, UpdateOutcome::Unsubscribed);
    assert!(outcome_persists(&outcome));
    assert_eq!(reg.snapshot(), vec![2]);
}

#[test]
fn any_other_text_subscribes() {
    let mut reg = SubscriberRegistry::new();
    let outcome = handle_update(&mut reg, 3, &Some(String::from("/start")));
    assert_eq!(outcome, UpdateOutcome::Subscribed);
    assert!(outcome_persists(&outcome));
    assert_eq!(reg.snapshot(), vec![3]);
}

#[test]
fn textless_event_counts_as_subscribe_attempt() {
    let mut reg = SubscriberRegistry::new();
    let outcome = handle_update(&mut reg, 4, &None);
    assert_eq!(outcome, UpdateOutcome::Subscribed);
    assert_eq!(reg.snapshot(), vec![4]);
    let again = handle_update(&mut reg, 4, &None);
    assert_eq!(again, UpdateOutcome::AlreadySubscribed);
    assert_eq!(reg.snapshot(), vec![4]);
}

#[test]
fn effective_text_uses_sentinel_for_missing_payload() {
    assert_eq!(effective_text(&Some(String::from("hi"))), "hi");
    assert_eq!(effective_text(&None), "[no message]");
}

#[test]
fn replies_match_outcomes() {
    assert_eq!(
        reply_for_outcome(&UpdateOutcome::Unsubscribed),
        Some(String::from("OK, I won't greet you anymore. :'("))
    );
    assert_eq!(reply_for_outcome(&UpdateOutcome::StopIgnored), None);
    assert_eq!(
        reply_for_outcome(&UpdateOutcome::AlreadySubscribed),
        Some(String::from("You are already being greeted! Chill. :P"))
    );
    assert_eq!(
        reply_for_outcome(&UpdateOutcome::Subscribed),
        Some(String::from("I'll greet you when it's morning. :)"))
    );
}

#[test]
fn loaded_snapshot_with_duplicates_is_deduplicated() {
    let reg = SubscriberRegistry::from_ids(vec![1, 2, 1, 3, 2]);
    assert_eq!(reg.snapshot(), vec![1, 2, 3]);
}

#[test]
fn remove_absent_returns_false() {
    let mut reg = SubscriberRegistry::new();
    assert!(!reg.remove(123));
    assert_eq!(reg.len(), 0);
}

#[test]
fn contains_tracks_membership() {
    let mut reg = SubscriberRegistry::new();
    assert!(!reg.contains(8));
    reg.add(8);
    assert!(reg.contains(8));
    reg.remove(8);
    assert!(!reg.contains(8));
}
