use oneleg::balance::{Balance, BalanceBuffer, BalanceError};
use oneleg::decimal::{parse_scaled_decimal, u64_to_string, PRICE_SCALE};
use oneleg::exchanges::ExchangeMessage;
use oneleg::oneleg::{oneleg, Direction};
use oneleg::router::route_message;
use oneleg::tick::{Tick, TickBuffer, TickError};
use oneleg::Venue;

fn tick(venue: Venue, avg: u64, timestamp2: u64) -> Tick {
    Tick { timestamp: 0, timestamp2, avg, exchange: venue, asset: "PEPE/USD".to_string() }
}

#[test]
fn buffer_retains_last_capacity_entries() {
    let mut buf = TickBuffer::new(Venue::Kraken, 3);
    for avg in 1..=5u64 {
        buf.add_tick(tick(Venue::Kraken, avg, avg));
    }
    assert_eq!(buf.buffer.len(), 3);
    let avgs: Vec<u64> = buf.buffer.iter().map(|t| t.avg).collect();
    assert_eq!(avgs, vec![3, 4, 5]);
}

#[test]
fn buffer_rejects_foreign_venue() {
    let mut buf = TickBuffer::new(Venue::Kraken, 3);
    buf.add_tick(tick(Venue::Kraken, 1, 1));
    let len_before = buf.buffer.len();
    buf.add_tick(tick(Venue::Binance, 2, 2));
    assert_eq!(buf.buffer.len(), len_before);
    assert_eq!(buf.back().unwrap().avg, 1);
}

#[test]
fn balance_buffer_evicts_and_rejects() {
    let mut buf = BalanceBuffer::new(Venue::Kraken, 2);
    for amount in [1u64, 2, 3] {
        buf.add_balance(Balance {
            currency: "USDT".to_string(),
            amount,
            exchange: Venue::Kraken,
        });
    }
    assert_eq!(buf.buffer.len(), 2);
    assert_eq!(buf.back().unwrap().amount, 3);
    buf.add_balance(Balance { currency: "USDT".to_string(), amount: 9, exchange: Venue::Binance });
    assert_eq!(buf.back().unwrap().amount, 3);
}

#[test]
fn binance_tick_parses_price_and_timestamp() {
    let msg = "{\"data\":{\"p\":\"123.45\",\"T\":1700000000000}}";
    let t = Tick::deserialize_tick_binance(msg, "X".to_string(), 7).unwrap();
    assert_eq!(t.avg, 12_345_000_000);
    assert_eq!(t.timestamp, 1_700_000_000_000);
    assert_eq!(t.timestamp2, 7);
    assert_eq!(t.exchange, Venue::Binance);
    assert_eq!(t.asset, "X");
}

#[test]
fn binance_tick_missing_price_fails() {
    let msg = "{\"data\":{\"T\":1700000000000}}";
    let r = Tick::deserialize_tick_binance(msg, "X".to_string(), 7);
    assert_eq!(r.unwrap_err(), TickError::Envelope);
}

#[test]
fn binance_tick_bad_price_fails() {
    let msg = "{\"data\":{\"p\":\"0\",\"T\":1700000000000}}";
    let r = Tick::deserialize_tick_binance(msg, "X".to_string(), 7);
    assert_eq!(r.unwrap_err(), TickError::Price);
}

#[test]
fn binance_tick_missing_timestamp_digits_fails() {
    let msg = "{\"data\":{\"p\":\"1.5\",\"T\":x}}";
    let r = Tick::deserialize_tick_binance(msg, "X".to_string(), 7);
    assert_eq!(r.unwrap_err(), TickError::Timestamp);
}

#[test]
fn kraken_tick_averages_bid_and_ask() {
    let msg = "[0,[\"100.0\",\"102.0\"]]";
    let t = Tick::deserialize_tick_kraken(msg, "PEPE/USD".to_string(), 9).unwrap();
    assert_eq!(t.avg, 101 * PRICE_SCALE);
    assert_eq!(t.timestamp, 0);
    assert_eq!(t.timestamp2, 9);
    assert_eq!(t.exchange, Venue::Kraken);
}

#[test]
fn kraken_tick_short_inner_array_fails() {
    let msg = "[0,[\"100.0\"]]";
    let r = Tick::deserialize_tick_kraken(msg, "PEPE/USD".to_string(), 9);
    assert_eq!(r.unwrap_err(), TickError::Envelope);
}

#[test]
fn kraken_tick_non_array_fails() {
    let msg = "{\"event\":\"heartbeat\"}";
    let r = Tick::deserialize_tick_kraken(msg, "PEPE/USD".to_string(), 9);
    assert_eq!(r.unwrap_err(), TickError::Envelope);
}

#[test]
fn kraken_tick_bad_price_fails() {
    let msg = "[0,[\"abc\",\"102.0\"]]";
    let r = Tick::deserialize_tick_kraken(msg, "PEPE/USD".to_string(), 9);
    assert_eq!(r.unwrap_err(), TickError::Price);
}

#[test]
fn evaluator_below_threshold_is_quiet() {
    // ratio 1.01 against a band of 1 + 0.01 + 0.0026 = 1.0126: no signal
    let fast = tick(Venue::Binance, 101 * PRICE_SCALE, 100);
    let slow = tick(Venue::Kraken, 100 * PRICE_SCALE, 100);
    let bal = Balance { currency: "USDT".to_string(), amount: 500 * PRICE_SCALE, exchange: Venue::Kraken };
    let gap = PRICE_SCALE / 100; // 0.01
    let fee = 260_000; // 0.0026
    let trade = PRICE_SCALE / 100; // 0.01
    let r = oneleg(trade, gap, 1000, 1000, fee, &fast, &slow, &bal);
    assert!(r.is_none());
}

#[test]
fn evaluator_above_threshold_buys_fast_side() {
    // ratio 1.04 against a band of 1.0126: a buy signal sized from the balance
    let fast = tick(Venue::Binance, 104 * PRICE_SCALE, 100);
    let slow = tick(Venue::Kraken, 100 * PRICE_SCALE, 100);
    let bal = Balance { currency: "USDT".to_string(), amount: 500 * PRICE_SCALE, exchange: Venue::Kraken };
    let gap = PRICE_SCALE / 100;
    let fee = 260_000;
    let trade = PRICE_SCALE / 100;
    let sig = oneleg(trade, gap, 1000, 1000, fee, &fast, &slow, &bal).unwrap();
    assert_eq!(sig.direction, Direction::Buy);
    assert_eq!(sig.size, 5 * PRICE_SCALE); // 0.01 * 500
}

#[test]
fn evaluator_low_ratio_sells_fast_side() {
    let fast = tick(Venue::Binance, 96 * PRICE_SCALE, 100);
    let slow = tick(Venue::Kraken, 100 * PRICE_SCALE, 100);
    let bal = Balance { currency: "USDT".to_string(), amount: 500 * PRICE_SCALE, exchange: Venue::Kraken };
    let sig = oneleg(PRICE_SCALE / 100, PRICE_SCALE / 100, 1000, 1000, 260_000, &fast, &slow, &bal)
        .unwrap();
    assert_eq!(sig.direction, Direction::Sell);
}

#[test]
fn evaluator_stale_ticks_never_signal() {
    // the same diverging prices, but receipt times 100 ms apart with a
    // 100 ms ceiling: the staleness guard wins
    let fast = tick(Venue::Binance, 104 * PRICE_SCALE, 200);
    let slow = tick(Venue::Kraken, 100 * PRICE_SCALE, 100);
    let bal = Balance { currency: "USDT".to_string(), amount: 500 * PRICE_SCALE, exchange: Venue::Kraken };
    let r = oneleg(PRICE_SCALE / 100, PRICE_SCALE / 100, 1000, 100, 260_000, &fast, &slow, &bal);
    assert!(r.is_none());
}

#[test]
fn router_dispatches_by_sender() {
    let m = ExchangeMessage {
        sender: "Kraken".to_string(),
        asset: "PEPE/USD".to_string(),
        content: "[0,[\"100.0\",\"102.0\"]]".to_string(),
    };
    let t = route_message(&m, 5).unwrap();
    assert_eq!(t.exchange, Venue::Kraken);
    assert_eq!(t.avg, 101 * PRICE_SCALE);

    let bad = ExchangeMessage {
        sender: "Kraken".to_string(),
        asset: "PEPE/USD".to_string(),
        content: "garbage".to_string(),
    };
    assert!(route_message(&bad, 5).is_none());

    let unknown = ExchangeMessage {
        sender: "Bitfinex".to_string(),
        asset: "PEPE/USD".to_string(),
        content: "[0,[\"100.0\",\"102.0\"]]".to_string(),
    };
    assert!(route_message(&unknown, 5).is_none());
}

#[test]
fn balance_extraction_binance() {
    let body = "{\"balances\":[{\"asset\":\"BTC\",\"free\":\"0.5\",\"locked\":\"0\"},{\"asset\":\"USDT\",\"free\":\"250.25\",\"locked\":\"0\"}]}";
    let b = Balance::extract_balance_binance(body, "USDT").unwrap();
    assert_eq!(b.amount, 25_025_000_000);
    assert_eq!(b.currency, "USDT");
    assert_eq!(b.exchange, Venue::Binance);
    let missing = Balance::extract_balance_binance(body, "ETH");
    assert_eq!(missing.unwrap_err(), BalanceError::MissingAsset);
}

#[test]
fn balance_extraction_kraken() {
    let body = "{\"error\":[],\"result\":{\"USDT\":\"123.45\"}}";
    let b = Balance::extract_balance_kraken(body, "USDT").unwrap();
    assert_eq!(b.amount, 12_345_000_000);
    assert_eq!(b.exchange, Venue::Kraken);
    // absence of the requested currency is an error, never a zero balance
    let missing = Balance::extract_balance_kraken(body, "ETH");
    assert_eq!(missing.unwrap_err(), BalanceError::MissingAsset);
    let no_envelope = Balance::extract_balance_kraken("{\"error\":[]}", "USDT");
    assert_eq!(no_envelope.unwrap_err(), BalanceError::Envelope);
}

#[test]
fn balance_bad_amount_fails() {
    let body = "{\"error\":[],\"result\":{\"USDT\":\"abc\"}}";
    let r = Balance::extract_balance_kraken(body, "USDT");
    assert_eq!(r.unwrap_err(), BalanceError::BadAmount);
    let body2 = "{\"balances\":[{\"asset\":\"BTC\",\"free\":\"x\"}]}";
    let r2 = Balance::extract_balance_binance(body2, "BTC");
    assert_eq!(r2.unwrap_err(), BalanceError::BadAmount);
    let body3 = "{\"balances\":[{\"asset\":\"BTC\"}]}";
    let r3 = Balance::extract_balance_binance(body3, "BTC");
    assert_eq!(r3.unwrap_err(), BalanceError::MissingAmount);
}

#[test]
fn scaled_decimal_parsing() {
    assert_eq!(parse_scaled_decimal(b"123.45"), Some(12_345_000_000));
    assert_eq!(parse_scaled_decimal(b"123"), Some(12_300_000_000));
    assert_eq!(parse_scaled_decimal(b"0.00000001"), Some(1));
    assert_eq!(parse_scaled_decimal(b"0.000000019"), Some(1)); // ninth digit truncated
    assert_eq!(parse_scaled_decimal(b""), None);
    assert_eq!(parse_scaled_decimal(b".5"), None);
    assert_eq!(parse_scaled_decimal(b"1.2.3"), None);
    assert_eq!(parse_scaled_decimal(b"-1"), None);
    assert_eq!(parse_scaled_decimal(b"999999999999999999999"), None);
}

#[test]
fn u64_decimal_spelling() {
    assert_eq!(u64_to_string(0), "0");
    assert_eq!(u64_to_string(1616492376594), "1616492376594");
}

#[test]
fn tick_buffer_serializes_to_json() {
    let mut buf = TickBuffer::new(Venue::Kraken, 4);
    assert_eq!(buf.serialize_to_json(), "[]");
    buf.add_tick(Tick {
        timestamp: 5,
        timestamp2: 6,
        avg: 12_345_000_000,
        exchange: Venue::Kraken,
        asset: "PEPE/USD".to_string(),
    });
    buf.add_tick(Tick {
        timestamp: 7,
        timestamp2: 8,
        avg: 2,
        exchange: Venue::Kraken,
        asset: "PEPE/USD".to_string(),
    });
    assert_eq!(
        buf.serialize_to_json(),
        "[{\"timestamp\":5,\"timestamp2\":6,\"avg\":123.45000000,\"exchange\":\"Kraken\",\"asset\":\"PEPE/USD\"},\
         {\"timestamp\":7,\"timestamp2\":8,\"avg\":0.00000002,\"exchange\":\"Kraken\",\"asset\":\"PEPE/USD\"}]"
    );
}

#[test]
fn balance_buffer_serializes_to_json() {
    let mut buf = BalanceBuffer::new(Venue::Binance, 4);
    buf.add_balance(Balance {
        currency: "USDT".to_string(),
        amount: 25_025_000_000,
        exchange: Venue::Binance,
    });
    assert_eq!(
        buf.serialize_to_json(),
        "[{\"currency\":\"USDT\",\"amount\":250.25000000,\"exchange\":\"Binance\"}]"
    );
}

#[test]
fn binance_balance_pattern_outside_array_is_not_read() {
    // the asset/free pair sits outside the balances array: never an amount
    let body = "{\"asset\":\"USDT\",\"free\":\"1.0\",\"balances\":[]}";
    let r = Balance::extract_balance_binance(body, "USDT");
    assert_eq!(r.unwrap_err(), BalanceError::MissingAsset);
}

#[test]
fn binance_balance_missing_array_is_envelope_error() {
    let r = Balance::extract_balance_binance("{\"asset\":\"USDT\",\"free\":\"1.0\"}", "USDT");
    assert_eq!(r.unwrap_err(), BalanceError::Envelope);
}

#[test]
fn binance_balance_free_of_later_entry_is_not_read() {
    // BTC's entry has no free field; the next entry's free must not leak in
    let body =
        "{\"balances\":[{\"asset\":\"BTC\",\"locked\":\"0\"},{\"asset\":\"USDT\",\"free\":\"9\"}]}";
    let r = Balance::extract_balance_binance(body, "BTC");
    assert_eq!(r.unwrap_err(), BalanceError::MissingAmount);
}

#[test]
fn kraken_balance_key_outside_result_is_not_read() {
    // the asset key sits outside the result object: an error, never an amount
    let body = "{\"result\":{},\"USDT\":\"1.0\"}";
    let r = Balance::extract_balance_kraken(body, "USDT");
    assert_eq!(r.unwrap_err(), BalanceError::MissingAsset);
}

#[test]
fn binance_tick_price_outside_data_is_not_read() {
    // price and timestamp outside the data object: no tick
    let msg = "{\"p\":\"1.0\",\"T\":1,\"data\":{}}";
    let r = Tick::deserialize_tick_binance(msg, "X".to_string(), 7);
    assert_eq!(r.unwrap_err(), TickError::Envelope);
}

#[test]
fn serialized_asset_is_escaped() {
    let mut buf = TickBuffer::new(Venue::Kraken, 2);
    buf.add_tick(Tick {
        timestamp: 1,
        timestamp2: 2,
        avg: PRICE_SCALE,
        exchange: Venue::Kraken,
        asset: "A\"B\\C\u{1}".to_string(),
    });
    assert_eq!(
        buf.serialize_to_json(),
        "[{\"timestamp\":1,\"timestamp2\":2,\"avg\":1.00000000,\"exchange\":\"Kraken\",\"asset\":\"A\\\"B\\\\C\\u0001\"}]"
    );
}
