use trade_processor::codec::encode;
use trade_processor::engine::Engine;
use trade_processor::record::TradeRecord;
use trade_processor::supervisor::{Event, Phase, Reaction, Supervisor};
use trade_processor::wire::DecodeError;

fn supervisor() -> Supervisor {
    Supervisor::new(Engine::new(10, 2, 500, "btc".to_string(), 0), 5_000)
}

fn payload(price: f64, event_time: u64) -> Vec<u8> {
    encode(&TradeRecord {
        symbol: "BTCUSDT".to_string(),
        price: price.to_bits(),
        quantity: 1.0f64.to_bits(),
        event_time,
    })
}

#[test]
fn subscription_is_retried_until_it_stands() {
    let mut s = supervisor();
    assert_eq!(s.phase(), Phase::Connecting);
    assert_eq!(s.wait_limit(0), None);
    assert_eq!(s.handle(Event::Started, 0), Reaction::Subscribe);
    assert_eq!(s.phase(), Phase::Connecting);
    for attempt in 0..5u64 {
        assert_eq!(s.handle(Event::SubscribeFailed, attempt), Reaction::Backoff { millis: 5_000 });
        assert_eq!(s.phase(), Phase::Reconnecting);
        assert_eq!(s.handle(Event::BackoffElapsed, attempt), Reaction::Subscribe);
        assert_eq!(s.phase(), Phase::Reconnecting);
    }
    assert_eq!(s.handle(Event::SubscribeSucceeded, 9), Reaction::Nothing);
    assert_eq!(s.phase(), Phase::Subscribed);
    assert_eq!(s.wait_limit(9), Some(491));
}

#[test]
fn records_and_ticks_keep_the_loop_running() {
    let mut s = supervisor();
    s.handle(Event::Started, 0);
    s.handle(Event::SubscribeSucceeded, 0);
    match s.handle(Event::Payload(payload(100.0, 1_000)), 10) {
        Reaction::Published(step) => {
            assert_eq!(step.publication.price, 100.0f64.to_bits());
            assert_eq!(step.flushed, None);
        }
        other => panic!("{:?}", other),
    }
    assert_eq!(s.phase(), Phase::Running);
    assert_eq!(s.handle(Event::TimerFired, 499), Reaction::Nothing);
    match s.handle(Event::TimerFired, 500) {
        Reaction::Flushed(batch) => assert_eq!(batch.len(), 1),
        other => panic!("{:?}", other),
    }
    assert_eq!(s.wait_limit(600), Some(400));
    assert_eq!(s.handle(Event::Payload(payload(101.0, 1_001)), 600), {
        let mut twin = Engine::new(10, 2, 500, "btc".to_string(), 0);
        twin.process_payload(&payload(100.0, 1_000), 10).unwrap();
        twin.on_tick(500);
        Reaction::Published(twin.process_payload(&payload(101.0, 1_001), 600).unwrap())
    });
    match s.handle(Event::Payload(payload(102.0, 1_002)), 700) {
        Reaction::Published(step) => assert_eq!(step.flushed.unwrap().len(), 2),
        other => panic!("{:?}", other),
    }
    assert_eq!(s.engine().pending(), 0);
    assert_eq!(s.wait_limit(700), Some(500));
    assert_eq!(s.handle(Event::ReceiveFailed, 710), Reaction::Nothing);
    assert_eq!(s.phase(), Phase::Running);
}

#[test]
fn a_malformed_payload_is_skipped() {
    let mut s = supervisor();
    s.handle(Event::SubscribeSucceeded, 0);
    s.handle(Event::Payload(payload(100.0, 1_000)), 10);
    let before = (s.engine().pending(), s.engine().window(&"BTCUSDT".to_string()), s.wait_limit(20));
    assert_eq!(
        s.handle(Event::Payload(vec![0x0a, 0x02, 0xc3, 0x28]), 20),
        Reaction::Skipped(DecodeError::InvalidUtf8)
    );
    let after = (s.engine().pending(), s.engine().window(&"BTCUSDT".to_string()), s.wait_limit(20));
    assert_eq!(before, after);
    assert_eq!(s.phase(), Phase::Running);
}

#[test]
fn a_lost_subscription_is_set_up_again() {
    let mut s = supervisor();
    s.handle(Event::SubscribeSucceeded, 0);
    s.handle(Event::Payload(payload(100.0, 1_000)), 10);
    assert_eq!(s.handle(Event::SubscriptionLost, 20), Reaction::Backoff { millis: 5_000 });
    assert_eq!(s.phase(), Phase::Reconnecting);
    assert_eq!(s.wait_limit(20), None);
    assert_eq!(s.handle(Event::Payload(payload(1.0, 1)), 30), Reaction::Nothing);
    assert_eq!(s.handle(Event::TimerFired, 600), Reaction::Nothing);
    assert_eq!(s.engine().pending(), 1);
    assert_eq!(s.handle(Event::BackoffElapsed, 5_020), Reaction::Subscribe);
    assert_eq!(s.handle(Event::SubscribeSucceeded, 5_030), Reaction::Nothing);
    assert_eq!(s.phase(), Phase::Subscribed);
    match s.handle(Event::TimerFired, 5_040) {
        Reaction::Flushed(batch) => assert_eq!(batch.len(), 1),
        other => panic!("{:?}", other),
    }
    assert_eq!(s.phase(), Phase::Running);
}

#[test]
fn events_out_of_place_are_ignored() {
    let mut s = supervisor();
    assert_eq!(s.handle(Event::BackoffElapsed, 0), Reaction::Nothing);
    assert_eq!(s.handle(Event::SubscriptionLost, 0), Reaction::Nothing);
    assert_eq!(s.handle(Event::ReceiveFailed, 0), Reaction::Nothing);
    assert_eq!(s.handle(Event::TimerFired, 900), Reaction::Nothing);
    assert_eq!(s.phase(), Phase::Connecting);
    s.handle(Event::SubscribeSucceeded, 0);
    assert_eq!(s.handle(Event::Started, 0), Reaction::Nothing);
    assert_eq!(s.handle(Event::SubscribeFailed, 0), Reaction::Nothing);
    assert_eq!(s.handle(Event::SubscribeSucceeded, 0), Reaction::Nothing);
    assert_eq!(s.handle(Event::BackoffElapsed, 0), Reaction::Nothing);
    assert_eq!(s.phase(), Phase::Subscribed);
}
