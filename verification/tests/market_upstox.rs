//! The bridge from the broker's quotes.
use hedge::base::split::{is_white_space, split_names};
use hedge::market_data::tick_wire::{decode_tick, TICK_WIRE_SIZE};
use hedge::market_data::upstox::{
    book_messages, build_ladder, data_rows, encode_tick_v1, extract_data_map,
    extract_trading_symbol, first_level, http_fault, interval_ms, last_price, level_qty,
    nearest_expiry, oi_subject, outage_status, probe_fault, read_chain, read_items,
    read_nearest_expiry, read_probe, strike_side, subject_token, tick_messages,
    underlying_display, BestLevel, BodyFault, ExpiryCache, FailureStreak, FeedMessage, OiPoller,
    ReplyFault, StrikeQuote,
};

fn json(text: &str) -> serde_json::Value {
    serde_json::from_str(text).unwrap()
}

#[test]
fn binary_tick_round_trips_for_every_basket_symbol() {
    for id in [1u32, 2, 3, 4, 5] {
        let buf = encode_tick_v1(id, 135_500, 135_495, 135_505, 1_700_000_000_000).unwrap();
        assert_eq!(buf.len(), TICK_WIRE_SIZE, "wire size drift for {}", id);
        let d = decode_tick(&buf).expect("decode ok");
        assert_eq!(d.symbol, id);
        assert_eq!(d.ltp_paise, 135_500);
        assert_eq!(d.bid_paise, 135_495);
        assert_eq!(d.ask_paise, 135_505);
        assert_eq!(d.ts_recv_ns, 1_700_000_000_000_u64);
        assert_eq!(d.correlation_id, [0u8; 16]);
        assert_eq!(d.ltq, 0);
    }
    assert!(encode_tick_v1(0, 1, 1, 1, 1).is_none(), "unknown symbols have no binary form");
}

#[test]
fn binary_tick_size_matches_hedge_features_decoder_layout() {
    let buf = encode_tick_v1(1, 0, 0, 0, 0).unwrap();
    assert_eq!(buf.len(), 85);
    assert_eq!(buf.len(), TICK_WIRE_SIZE);
}

#[test]
fn failures_are_reported_at_powers_of_two() {
    let mut s = FailureStreak::new();
    let mut reported = Vec::new();
    let mut paused = Vec::new();
    for _ in 0..17 {
        let step = s.on_failure();
        if step.report {
            reported.push(step.failures);
        }
        if step.pause {
            paused.push(step.failures);
        }
    }
    assert_eq!(reported, vec![1, 2, 4, 8, 16]);
    assert_eq!(paused[0], 6);
    assert!(s.needs_pause());
    assert_eq!(s.on_success(), 17);
    assert_eq!(s.on_success(), 0);
    assert!(!s.needs_pause());
    let mut full = FailureStreak { failures: u32::MAX };
    assert_eq!(full.on_failure().failures, u32::MAX);
}

#[test]
fn lists_are_split_trimmed_and_cleared_of_blanks() {
    assert_eq!(
        split_names(" NSE_EQ|A ,, \tNSE_INDEX|Nifty 50\n,"),
        vec!["NSE_EQ|A".to_string(), "NSE_INDEX|Nifty 50".to_string()]
    );
    assert!(split_names(" , ,").is_empty());
    assert!(split_names("").is_empty());
}

#[test]
fn intervals_fall_back_to_their_default() {
    assert_eq!(interval_ms(None, 500), 500);
    assert_eq!(interval_ms(Some("750"), 500), 750);
    assert_eq!(interval_ms(Some("fast"), 500), 500);
}

#[test]
fn replies_are_judged_by_their_status() {
    assert_eq!(http_fault("ltp", 200, "200 OK", ""), None);
    assert_eq!(http_fault("ltp", 299, "299", ""), None);
    assert_eq!(
        http_fault("ltp", 404, "404 Not Found", "x"),
        Some("ltp http 404 Not Found: x".to_string())
    );
    assert_eq!(probe_fault(204, "204 No Content", ""), None);
    assert_eq!(
        probe_fault(401, "401 Unauthorized", "b"),
        Some(
            "Upstox returned 401 Unauthorized. Access token is expired or invalid. body=b"
                .to_string()
        )
    );
    assert_eq!(
        probe_fault(500, "500 Internal Server Error", "b"),
        Some("Upstox probe returned HTTP 500 Internal Server Error: b".to_string())
    );
}

#[test]
fn nearest_future_expiry_is_found() {
    let body = json(
        r#"{"data":[{"expiry":"2025-12-04"},{"expiry":"2025-11-27"},{"x":1},{"expiry":7},
            {"expiry":"2025-11-20"},{"expiry":"2025-11-27"}]}"#,
    );
    assert_eq!(nearest_expiry(&body, "2025-11-21"), Ok("2025-11-27".to_string()));
    assert_eq!(nearest_expiry(&body, "2025-11-20"), Ok("2025-11-20".to_string()));
    assert_eq!(nearest_expiry(&body, "2025-12-05"), Err(ReplyFault::NoFutureExpiry));
    assert_eq!(nearest_expiry(&json(r#"{"data":{}}"#), "x"), Err(ReplyFault::MissingData));
    assert_eq!(nearest_expiry(&json("[]"), "x"), Err(ReplyFault::MissingData));
}

#[test]
fn cached_expiries_are_used_until_they_pass() {
    let mut c = ExpiryCache::new(2);
    assert_eq!(c.get(0, "2025-11-21"), None);
    c.put(0, "2025-11-27");
    assert_eq!(c.get(0, "2025-11-27"), Some("2025-11-27".to_string()));
    assert_eq!(c.get(0, "2025-11-28"), None);
    assert_eq!(c.get(1, "2025-11-21"), None);
    c.forget(0);
    assert_eq!(c.get(0, "2025-11-21"), None);
}

#[test]
fn the_oi_poller_forgets_expiries_that_fail() {
    let mut p = OiPoller::new(1);
    assert!(p.on_expiry(0, None).unwrap().report);
    assert!(p.on_expiry(0, Some("2025-11-27")).is_none());
    assert_eq!(p.streak.failures, 1);
    assert!(p.on_chain(0, true).is_none());
    assert_eq!(p.streak.failures, 0);
    assert_eq!(p.cache.get(0, "2025-11-21"), Some("2025-11-27".to_string()));
    assert_eq!(p.on_chain(0, false).unwrap().failures, 1);
    assert_eq!(p.cache.get(0, "2025-11-21"), None);
}

#[test]
fn instruments_are_matched_by_token_and_then_by_key() {
    let body = json(
        r#"{"status":"success","data":{
            "NSE_EQ:RELIANCE":{"instrument_token":"NSE_EQ|INE002A01018","last_price":1.5},
            "NSE_EQ:INE009A01021":{"last_price":2.5},
            "NSE_EQ:OTHER":{"instrument_token":"NSE_EQ|NOBODY"}}}"#,
    );
    let asked = vec![
        "NSE_EQ|INE002A01018".to_string(),
        "NSE_EQ|INE009A01021".to_string(),
        "NSE_EQ|MISSING".to_string(),
        "NSE_EQ|INE002A01018".to_string(),
    ];
    let items = extract_data_map(&body, &asked).unwrap();
    assert_eq!(items.len(), 2);
    assert_eq!(items[0].instrument, "NSE_EQ|INE002A01018");
    assert_eq!(items[0].data_key, "NSE_EQ:RELIANCE");
    assert_eq!(items[0].value["last_price"], json("1.5"));
    assert_eq!(extract_trading_symbol(&items[0]), "RELIANCE");
    assert_eq!(items[1].instrument, "NSE_EQ|INE009A01021");
    assert_eq!(items[1].data_key, "NSE_EQ:INE009A01021");
    assert!(matches!(
        extract_data_map(&json(r#"{"data":[]}"#), &asked),
        Err(ReplyFault::MissingData)
    ));
    assert!(matches!(
        extract_data_map(&json("{}"), &asked),
        Err(ReplyFault::MissingData)
    ));
}

#[test]
fn trading_symbols_come_from_fields_or_the_key() {
    let mut items = extract_data_map(
        &json(
            r#"{"data":{"A:1":{"symbol":"S","trading_symbol":"T"},"A:2":{"trading_symbol":"T"},
                "A:3":{},"A4":{},"A:5":3}}"#,
        ),
        &vec!["A|1".into(), "A|2".into(), "A|3".into(), "A4".into(), "A|5".into()],
    )
    .unwrap();
    let names: Vec<String> = items.drain(..).map(|i| extract_trading_symbol(&i)).collect();
    assert_eq!(names, vec!["S", "T", "3", "UNKNOWN", "UNKNOWN"]);
}

#[test]
fn underlyings_are_named_and_tokenised() {
    assert_eq!(underlying_display("NSE_INDEX|Nifty 50"), "Nifty 50");
    assert_eq!(underlying_display("NIFTY"), "NIFTY");
    assert_eq!(underlying_display("a|b|c"), "b|c");
    assert_eq!(subject_token("Nifty 50"), "Nifty50");
    assert_eq!(subject_token(" a\tb\u{3000}c "), "abc");
    assert_eq!(oi_subject("NSE_INDEX|Nifty Bank"), "md.oi.NiftyBank");
}

fn quote(strike_paise: i64) -> StrikeQuote {
    StrikeQuote {
        strike_paise,
        call_oi: 1234,
        call_prev_oi: 1200,
        put_oi: 2300,
        put_prev_oi: 2345,
    }
}

#[test]
fn ladders_are_sorted_and_trimmed_around_the_spot() {
    let quotes: Vec<StrikeQuote> = (0..21i64).rev().map(|i| quote(i * 100)).collect();
    let rows = build_ladder(&quotes, 1_010);
    let strikes: Vec<i64> = rows.iter().map(|r| r.strike_paise).collect();
    assert_eq!(strikes, (5..16i64).map(|i| i * 100).collect::<Vec<_>>());
    assert_eq!(rows[0].call_chg_oi, 34);
    assert_eq!(rows[0].put_chg_oi, -45);
    assert_eq!(rows[0].call_oi, 1234);
    assert_eq!(rows[0].put_oi, 2300);
    assert_eq!(build_ladder(&quotes, 0).len(), 21, "without a spot nothing is trimmed");
    assert_eq!(build_ladder(&quotes[..11].to_vec(), 5).len(), 11);
    assert!(build_ladder(&Vec::new(), 5).is_empty());
}

#[test]
fn equally_near_strikes_keep_the_lower_one() {
    let mut quotes: Vec<StrikeQuote> = (0..10i64).map(|i| quote(1_000 + i)).collect();
    quotes.push(quote(2_000));
    quotes.push(quote(0));
    let strikes: Vec<i64> = build_ladder(&quotes, 1_000).iter().map(|r| r.strike_paise).collect();
    assert!(strikes.contains(&0));
    assert!(!strikes.contains(&2_000));
}

#[test]
fn a_price_is_sent_three_times() {
    let m = tick_messages("NSE_EQ|INE002A01018", "RELIANCE", 7, 250_000, 99);
    assert_eq!(m.len(), 3);
    let view = |subject: &str| FeedMessage::Tick {
        subject: subject.to_string(),
        symbol: "RELIANCE".to_string(),
        ltp_paise: 250_000,
        bid_paise: 250_000,
        ask_paise: 250_000,
        ts_recv_ns: 99,
    };
    assert_eq!(m[0], view("md.tick.RELIANCE"));
    assert_eq!(m[1], view("md.tick.NSE_EQ.INE002A01018"));
    match &m[2] {
        FeedMessage::Binary { subject, payload } => {
            assert_eq!(subject, "md.tick.bin.RELIANCE");
            assert_eq!(decode_tick(payload).unwrap().symbol, 7);
        }
        other => panic!("expected bytes, got {:?}", other),
    }
    assert_eq!(tick_messages("A|B", "X", 0, 1, 1).len(), 2);
}

#[test]
fn a_book_is_sent_twice() {
    let value = json(r#"{"depth":{"buy":[{"price":1.5,"quantity":12},{"quantity":3}],"sell":[]}}"#);
    let bid = first_level(&value, "buy").unwrap();
    assert_eq!(level_qty(bid), 12);
    assert!(first_level(&value, "sell").is_none());
    assert!(first_level(&json("{}"), "buy").is_none());
    let m = book_messages(
        "NSE_EQ|A",
        "A",
        BestLevel { paise: 150, qty: 12 },
        BestLevel { paise: 0, qty: 0 },
        5,
    );
    assert_eq!(m.len(), 2);
    match &m[1] {
        FeedMessage::Book { subject, bid_paise, bid_qty, ask_paise, ts_ns, .. } => {
            assert_eq!(subject, "md.book.NSE_EQ.A");
            assert_eq!((*bid_paise, *bid_qty, *ask_paise, *ts_ns), (150, 12, 0, 5));
        }
        other => panic!("expected a book, got {:?}", other),
    }
}

#[test]
fn outages_are_degraded_before_they_are_down() {
    assert_eq!(outage_status(0), "degraded");
    assert_eq!(outage_status(5), "degraded");
    assert_eq!(outage_status(6), "down");
}

#[test]
fn option_chains_are_the_data_of_a_reply() {
    let body: serde_json::Value = json(
        r#"{"data":[{"call_options":{"market_data":{"oi":7}},"put_options":{}}]}"#,
    );
    let chain = data_rows(&body).unwrap();
    assert_eq!(chain.len(), 1);
    assert_eq!(
        strike_side(&chain[0], "call_options").and_then(|d| d.get("oi")).and_then(|v| v.as_u64()),
        Some(7)
    );
    assert!(strike_side(&chain[0], "put_options").is_none());
    assert!(strike_side(&chain[0], "futures").is_none());
    let empty: serde_json::Value = serde_json::from_str(r#"{"data":{}}"#).unwrap();
    let fault = data_rows(&empty).unwrap_err();
    assert_eq!(fault, ReplyFault::MissingData);
    assert_eq!(fault.to_text("option chain"), "option chain: missing data array");
    assert_eq!(
        ReplyFault::NoFutureExpiry.to_text("option contract"),
        "no future expiry found for underlying"
    );
}

#[test]
fn the_last_price_comes_before_the_short_form() {
    let read = |text: &str| -> Option<f64> {
        let item: serde_json::Value = serde_json::from_str(text).unwrap();
        last_price(&item).and_then(|v| v.as_f64())
    };
    assert_eq!(read(r#"{"last_price":1.5,"ltp":2.5}"#), Some(1.5));
    assert_eq!(read(r#"{"ltp":2.5}"#), Some(2.5));
    assert_eq!(read(r#"{"last_price":null,"ltp":2.5}"#), None);
    assert_eq!(read("{}"), None);
}

#[test]
fn white_space_is_that_of_unicode() {
    for point in 0..=0x10ffffu32 {
        if let Some(c) = char::from_u32(point) {
            assert_eq!(is_white_space(c), c.is_whitespace(), "U+{point:04X}");
        }
    }
}

#[test]
fn the_last_of_several_members_with_one_token_counts() {
    let asked = vec!["NSE_EQ|X".to_string()];
    let body = r#"{"data":{
        "NSE_EQ:B":{"instrument_token":"NSE_EQ|X","last_price":2},
        "NSE_EQ:C":{"instrument_token":"NSE_EQ|X","last_price":3},
        "NSE_EQ:X":{"last_price":4},
        "NSE_EQ:A":{"instrument_token":"NSE_EQ|X","last_price":1}}}"#;
    let items = read_items(body.as_bytes(), &asked).unwrap();
    assert_eq!(items.len(), 1);
    assert_eq!(items[0].data_key, "NSE_EQ:C");
    assert_eq!(items[0].value["last_price"], json("3"));
}

#[test]
fn items_are_read_from_a_body() {
    let asked = vec!["NSE_EQ|A".to_string()];
    let items = read_items(br#"{"data":{"NSE_EQ:A":{"last_price":5}}}"#, &asked).unwrap();
    assert_eq!(items[0].data_key, "NSE_EQ:A");
    let no_data = read_items(br#"{"data":[]}"#, &asked).unwrap_err();
    assert_eq!(no_data, BodyFault::Reply(ReplyFault::MissingData));
    let torn = read_items(br#"{"data":{"#, &asked).unwrap_err();
    assert!(matches!(torn, BodyFault::NotJson(_)));
    assert!(torn.to_text("ltp").starts_with("ltp json: "));
}

#[test]
fn expiries_are_read_from_a_body() {
    let body = br#"{"data":[{"expiry":"2025-12-04"},{"expiry":"2025-11-27"},{"expiry":"2025-11-20"}]}"#;
    assert_eq!(read_nearest_expiry(body, "2025-11-21"), Ok("2025-11-27".to_string()));
    assert_eq!(
        read_nearest_expiry(body, "2026-01-01"),
        Err(BodyFault::Reply(ReplyFault::NoFutureExpiry))
    );
    let no_list = read_nearest_expiry(b"{}", "2025-11-21").unwrap_err();
    assert_eq!(no_list, BodyFault::Reply(ReplyFault::MissingData));
    assert_eq!(no_list.to_text("option contract"), "option contract: missing data array");
    assert!(matches!(read_nearest_expiry(b"", "x"), Err(BodyFault::NotJson(_))));
}

#[test]
fn chains_are_read_from_a_body() {
    let rows = read_chain(br#"{"data":[{"strike_price":1},{"strike_price":2}]}"#).unwrap();
    assert_eq!(rows.len(), 2);
    assert_eq!(rows[1]["strike_price"], json("2"));
    assert_eq!(
        read_chain(br#"{"data":{}}"#).unwrap_err(),
        BodyFault::Reply(ReplyFault::MissingData)
    );
    assert!(matches!(read_chain(b"<html>"), Err(BodyFault::NotJson(_))));
}

#[test]
fn a_probe_is_answered_with_any_document() {
    assert_eq!(read_probe(b"[]"), Ok(()));
    assert!(matches!(read_probe(b"oops"), Err(BodyFault::NotJson(_))));
}
