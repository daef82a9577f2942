use trade_processor::aggregator::WindowAggregator;
use trade_processor::window::{Average, WindowState};

fn bits(price: f64) -> u64 {
    price.to_bits()
}

fn mean(average: &Average) -> f64 {
    let sum: f64 = average.terms.iter().map(|term| f64::from_bits(*term)).sum();
    sum / average.count() as f64
}

#[test]
fn average_over_a_full_window_then_after_eviction() {
    let mut window = WindowState::new(10);
    let mut last = None;
    for price in 100..110 {
        last = Some(window.update(bits(price as f64)));
    }
    let average = last.unwrap();
    assert_eq!(average.count(), 10);
    assert_eq!(mean(&average), 104.5);
    let average = window.update(bits(110.0));
    assert_eq!(average.count(), 10);
    assert_eq!(average.terms[0], bits(101.0));
    assert_eq!(average.terms[9], bits(110.0));
    assert_eq!(mean(&average), 105.5);
}

#[test]
fn during_warm_up_the_denominator_is_the_count() {
    let mut window = WindowState::new(10);
    let first = window.update(bits(100.0));
    assert_eq!(first.terms, vec![bits(100.0)]);
    assert_eq!(mean(&first), 100.0);
    let second = window.update(bits(200.0));
    assert_eq!(second.terms, vec![bits(100.0), bits(200.0)]);
    assert_eq!(mean(&second), 150.0);
    let third = window.update(bits(600.0));
    assert_eq!(third.count(), 3);
    assert_eq!(mean(&third), 300.0);
    assert_eq!(window.len(), 3);
    assert_eq!(window.capacity(), 10);
}

#[test]
fn the_window_holds_the_last_prices_for_every_length_fed() {
    for capacity in 0..6usize {
        let mut window = WindowState::new(capacity);
        let mut fed: Vec<u64> = Vec::new();
        for k in 0..20u64 {
            let price = bits(1000.0 + k as f64);
            fed.push(price);
            let average = window.update(price);
            let keep = fed.len().min(capacity);
            let expected = fed[fed.len() - keep..].to_vec();
            assert_eq!(average.terms, expected);
            assert_eq!(window.prices(), expected);
            assert_eq!(window.len(), keep);
        }
    }
}

#[test]
fn a_window_of_one_holds_the_last_price() {
    let mut window = WindowState::new(1);
    assert_eq!(window.update(bits(1.0)).terms, vec![bits(1.0)]);
    assert_eq!(window.update(bits(2.0)).terms, vec![bits(2.0)]);
}

#[test]
fn a_window_of_none_holds_nothing() {
    let mut window = WindowState::new(0);
    assert_eq!(window.update(bits(1.0)).count(), 0);
    assert_eq!(window.len(), 0);
}

#[test]
fn prices_are_kept_bit_for_bit() {
    let mut window = WindowState::new(4);
    let odd = [f64::NAN.to_bits() | 1, bits(-0.0), bits(f64::INFINITY), 0x0000_0000_0000_0001];
    for price in odd.iter() {
        window.update(*price);
    }
    assert_eq!(window.prices(), odd.to_vec());
}

#[test]
fn each_symbol_has_a_window_of_its_own() {
    let btc = "BTCUSDT".to_string();
    let eth = "ETHUSDT".to_string();
    let mut windows = WindowAggregator::new(2);
    assert_eq!(windows.capacity(), 2);
    assert_eq!(windows.prices(&btc), Vec::<u64>::new());
    assert_eq!(windows.update(&btc, bits(10.0)).terms, vec![bits(10.0)]);
    assert_eq!(windows.update(&eth, bits(1.0)).terms, vec![bits(1.0)]);
    assert_eq!(windows.update(&btc, bits(20.0)).terms, vec![bits(10.0), bits(20.0)]);
    assert_eq!(windows.update(&btc, bits(30.0)).terms, vec![bits(20.0), bits(30.0)]);
    assert_eq!(windows.update(&eth, bits(2.0)).terms, vec![bits(1.0), bits(2.0)]);
    assert_eq!(windows.prices(&btc), vec![bits(20.0), bits(30.0)]);
    assert_eq!(windows.prices(&eth), vec![bits(1.0), bits(2.0)]);
    assert_eq!(windows.prices(&"SOLUSDT".to_string()), Vec::<u64>::new());
}
