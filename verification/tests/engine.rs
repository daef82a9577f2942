use chrono::DateTime;
use trade_processor::codec::encode;
use trade_processor::engine::{Engine, Step};
use trade_processor::instant::{persisted_instant, to_signed_millis};
use trade_processor::publish::{Publication, Publisher};
use trade_processor::record::{PendingRecord, TradeRecord};
use trade_processor::window::Average;
use trade_processor::wire::DecodeError;

fn trade(symbol: &str, price: f64, event_time: u64) -> TradeRecord {
    TradeRecord {
        symbol: symbol.to_string(),
        price: price.to_bits(),
        quantity: 1.0f64.to_bits(),
        event_time,
    }
}

fn engine() -> Engine {
    Engine::new(10, 100, 500, "btc".to_string(), 0)
}

fn mean(average: &Average) -> f64 {
    let sum: f64 = average.terms.iter().map(|term| f64::from_bits(*term)).sum();
    sum / average.count() as f64
}

#[test]
fn publication_names_keys_channel_and_values() {
    let publisher = Publisher::new("btc".to_string());
    let average = Average { terms: vec![1.0f64.to_bits(), 2.0f64.to_bits()] };
    let out = publisher.publish(&"BTCUSDT".to_string(), 2.0f64.to_bits(), average.clone(), 77);
    assert_eq!(
        out,
        Publication {
            price_key: "btc_price".to_string(),
            average_key: "btc_sma".to_string(),
            channel: "updates".to_string(),
            symbol: "BTCUSDT".to_string(),
            price: 2.0f64.to_bits(),
            average,
            timestamp: 77,
        }
    );
    let other = Publisher::new("eth".to_string());
    let out = other.publish(&"ETHUSDT".to_string(), 0, Average { terms: vec![] }, 0);
    assert_eq!(out.price_key, "eth_price");
    assert_eq!(out.average_key, "eth_sma");
    assert_eq!(out.channel, "updates");
}

#[test]
fn a_trade_is_published_and_queued() {
    let mut engine = engine();
    let step = engine.process_trade(trade("BTCUSDT", 100.0, 1_700_000_000_123), 5);
    assert_eq!(step.publication.symbol, "BTCUSDT");
    assert_eq!(step.publication.price, 100.0f64.to_bits());
    assert_eq!(step.publication.average.terms, vec![100.0f64.to_bits()]);
    assert_eq!(step.publication.timestamp, 1_700_000_000_123);
    assert_eq!(step.publication.price_key, "btc_price");
    assert_eq!(step.publication.average_key, "btc_sma");
    assert!(step.queued);
    assert_eq!(step.flushed, None);
    assert_eq!(engine.pending(), 1);
    assert_eq!(engine.window(&"BTCUSDT".to_string()), vec![100.0f64.to_bits()]);
    let flushed = engine.on_tick(505).unwrap();
    assert_eq!(
        flushed,
        vec![PendingRecord {
            symbol: "BTCUSDT".to_string(),
            price: 100.0f64.to_bits(),
            persisted_time: 1_700_000_000_123,
        }]
    );
    assert_eq!(engine.pending(), 0);
}

#[test]
fn each_publication_carries_the_pair_of_its_own_record() {
    let mut engine = engine();
    let mut expected = [104.5, 105.5].iter();
    for k in 0..11u64 {
        let price = 100.0 + k as f64;
        let step = engine.process_trade(trade("BTCUSDT", price, 1_000 + k), k);
        assert_eq!(step.publication.price, price.to_bits());
        assert_eq!(*step.publication.average.terms.last().unwrap(), price.to_bits());
        assert_eq!(step.publication.timestamp, 1_000 + k);
        if k >= 9 {
            assert_eq!(mean(&step.publication.average), *expected.next().unwrap());
        }
    }
}

#[test]
fn a_trade_without_an_instant_is_published_and_dropped() {
    let mut engine = engine();
    let step = engine.process_trade(trade("BTCUSDT", 1.0, i64::MAX as u64), 0);
    assert!(!step.queued);
    assert_eq!(step.flushed, None);
    assert_eq!(step.publication.price, 1.0f64.to_bits());
    assert_eq!(step.publication.average.terms, vec![1.0f64.to_bits()]);
    assert_eq!(engine.pending(), 0);
    assert_eq!(engine.window(&"BTCUSDT".to_string()), vec![1.0f64.to_bits()]);
    assert_eq!(engine.on_tick(500), None);
}

#[test]
fn apply_trade_takes_the_instant_as_given() {
    let mut engine = Engine::new(3, 2, 500, "btc".to_string(), 0);
    let first = engine.apply_trade(trade("A", 1.0, 10), Some(10), 0);
    assert!(first.queued);
    assert_eq!(first.flushed, None);
    let second = engine.apply_trade(trade("A", 2.0, 11), None, 1);
    assert!(!second.queued);
    assert_eq!(second.flushed, None);
    assert_eq!(second.publication.average.terms, vec![1.0f64.to_bits(), 2.0f64.to_bits()]);
    let third = engine.apply_trade(trade("B", 3.0, 12), Some(-5), 2);
    assert_eq!(
        third.flushed,
        Some(vec![
            PendingRecord { symbol: "A".to_string(), price: 1.0f64.to_bits(), persisted_time: 10 },
            PendingRecord { symbol: "B".to_string(), price: 3.0f64.to_bits(), persisted_time: -5 },
        ])
    );
    assert_eq!(engine.pending(), 0);
    assert_eq!(engine.time_to_deadline(2), 500);
}

#[test]
fn instants_are_those_that_chrono_has() {
    let times: [u64; 9] = [
        0,
        1,
        1_700_000_000_123,
        8_210_266_876_799_999,
        8_210_266_876_800_000,
        i64::MAX as u64,
        i64::MIN as u64,
        (-8_334_601_228_800_000i64) as u64,
        u64::MAX,
    ];
    for time in times.iter() {
        let signed = *time as i64;
        assert_eq!(to_signed_millis(*time), signed);
        let expected = DateTime::from_timestamp_millis(signed).map(|at| at.timestamp_millis());
        assert_eq!(persisted_instant(*time), expected);
        if let Some(at) = expected {
            assert_eq!(at, signed);
        }
    }
    assert_eq!(persisted_instant(1_700_000_000_123), Some(1_700_000_000_123));
    assert_eq!(persisted_instant(u64::MAX), Some(-1));
    assert_eq!(persisted_instant(i64::MAX as u64), None);
    assert_eq!(persisted_instant(i64::MIN as u64), None);
}

#[test]
fn a_malformed_payload_changes_nothing() {
    let mut engine = Engine::new(3, 10, 500, "btc".to_string(), 0);
    let mut twin = Engine::new(3, 10, 500, "btc".to_string(), 0);
    let records = [trade("BTCUSDT", 1.0, 10), trade("ETHUSDT", 2.0, 20), trade("BTCUSDT", 3.0, 30)];
    let malformed: [&[u8]; 4] = [&[0x80], &[0x0a, 0x05, b'A'], &[0x0a, 0x01, 0xff], &[0x00]];
    for (k, record) in records.iter().enumerate() {
        let now = 10 * k as u64;
        let payload = encode(record);
        let bad = malformed[k];
        assert!(engine.process_payload(bad, now).is_err());
        let step = engine.process_payload(&payload, now).unwrap();
        assert!(engine.process_payload(malformed[3], now + 1).is_err());
        let twin_step = twin.process_payload(&payload, now).unwrap();
        assert_eq!(step, twin_step);
        assert_eq!(engine.pending(), twin.pending());
        assert_eq!(engine.time_to_deadline(now), twin.time_to_deadline(now));
        for symbol in ["BTCUSDT", "ETHUSDT"].iter() {
            assert_eq!(engine.window(&symbol.to_string()), twin.window(&symbol.to_string()));
        }
    }
    assert_eq!(engine.process_payload(&[0x80], 0), Err(DecodeError::InvalidVarint));
    assert_eq!(engine.on_tick(500), twin.on_tick(500));
}

fn publications(engine: &mut Engine, records: &[TradeRecord], pace: u64) -> Vec<Publication> {
    let mut out = Vec::new();
    for (k, record) in records.iter().enumerate() {
        let now = pace * k as u64;
        if k % 3 == 0 {
            engine.on_tick(now);
        }
        let step: Step = engine.process_payload(&encode(record), now).unwrap();
        out.push(step.publication);
    }
    out
}

#[test]
fn a_replay_publishes_the_same_pairs() {
    let mut records = Vec::new();
    for k in 0..40u64 {
        let symbol = if k % 3 == 0 { "ETHUSDT" } else { "BTCUSDT" };
        records.push(trade(symbol, 100.0 + (k * 7 % 13) as f64, 1_700_000_000_000 + k));
    }
    let mut first = Engine::new(10, 100, 500, "btc".to_string(), 0);
    let mut second = Engine::new(10, 7, 50, "btc".to_string(), 99);
    let slow = publications(&mut first, &records, 1_000);
    let fast = publications(&mut second, &records, 0);
    assert_eq!(slow, fast);
    for (k, publication) in slow.iter().enumerate() {
        let of_symbol: Vec<u64> = records[..=k]
            .iter()
            .filter(|r| r.symbol == records[k].symbol)
            .map(|r| r.price)
            .collect();
        let keep = of_symbol.len().min(10);
        assert_eq!(publication.average.terms, of_symbol[of_symbol.len() - keep..].to_vec());
        assert_eq!(publication.price, records[k].price);
    }
}

#[test]
fn the_size_trigger_fires_inside_the_engine() {
    let mut engine = Engine::new(10, 100, 500, "btc".to_string(), 0);
    let mut flushes = 0;
    for k in 0..150u64 {
        let step = engine.process_trade(trade("BTCUSDT", k as f64, 1_000 + k), 0);
        if let Some(batch) = step.flushed {
            assert_eq!(k, 99);
            assert_eq!(batch.len(), 100);
            assert_eq!(batch[0].persisted_time, 1_000);
            assert_eq!(batch[99].persisted_time, 1_099);
            flushes += 1;
        }
    }
    assert_eq!(flushes, 1);
    assert_eq!(engine.pending(), 50);
}
