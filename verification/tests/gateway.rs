use trade_processor::relay::{Relay, RelayAction, RelayEvent};
use trade_processor::signal::{Signal, SignalPolicy, Standing};

#[test]
fn recommendation_follows_the_policy_at_equality() {
    let strict = SignalPolicy::strict();
    assert_eq!(strict.recommend(Standing::Above), Signal::Purchase);
    assert_eq!(strict.recommend(Standing::Below), Signal::Sell);
    assert_eq!(strict.recommend(Standing::Equal), Signal::Sell);
    assert_eq!(strict.recommend(Standing::Unordered), Signal::Sell);
    let eager = SignalPolicy { at_equality: Signal::Purchase, when_unordered: Signal::Sell };
    assert_eq!(eager.recommend(Standing::Equal), Signal::Purchase);
    assert_eq!(eager.recommend(Standing::Unordered), Signal::Sell);
    assert_eq!(eager.recommend(Standing::Above), Signal::Purchase);
    assert_eq!(eager.recommend(Standing::Below), Signal::Sell);
    assert_eq!(Signal::Purchase.label(), "PURCHASE");
    assert_eq!(Signal::Sell.label(), "SELL");
}

#[test]
fn relay_sends_updates_until_the_subscriber_fails() {
    let mut relay = Relay::new();
    assert!(relay.open());
    assert_eq!(
        relay.handle(RelayEvent::Update("{\"price\":1}".to_string())),
        RelayAction::Send("{\"price\":1}".to_string())
    );
    assert_eq!(relay.handle(RelayEvent::Update(String::new())), RelayAction::Send(String::new()));
    assert!(relay.open());
    assert_eq!(relay.handle(RelayEvent::SendFailed), RelayAction::Close);
    assert!(!relay.open());
    assert_eq!(relay.handle(RelayEvent::Update("late".to_string())), RelayAction::Idle);
    assert_eq!(relay.handle(RelayEvent::SendFailed), RelayAction::Idle);
    assert!(!relay.open());
}

#[test]
fn relay_drops_a_subscriber_that_fell_behind() {
    let mut slow = Relay::new();
    assert_eq!(slow.handle(RelayEvent::Lagged), RelayAction::Close);
    assert!(!slow.open());
    let mut ended = Relay::new();
    assert_eq!(ended.handle(RelayEvent::FeedClosed), RelayAction::Close);
    assert!(!ended.open());
}
