use twoexcamim::events::{
    Binary64, EventEnvelope, FillReceived, FillSide, Linkage, OrderRegistered, OrderSubmitted,
    Provenance, SourceKind, Timestamp,
};
use twoexcamim::execution::{paper_book, PaperOrderStatus, POLYMARKET_PAPER_VENUE};
use twoexcamim::store::StoredEvent;

fn provenance() -> Provenance {
    Provenance {
        source_kind: SourceKind::Runtime,
        source_ref: None,
        producer_run_id: Some("test-run".to_string()),
        actor: Some("test".to_string()),
        trace_id: None,
        notes: None,
    }
}

fn linkage() -> Linkage {
    Linkage {
        hypothesis_id: None,
        signal_id: Some("sig-1".to_string()),
        decision_id: Some("dec-1".to_string()),
        order_id: Some("pm-paper-order-sig-1".to_string()),
        position_id: None,
        parent_event_id: None,
        correlation_id: Some("corr-1".to_string()),
    }
}

fn registered() -> StoredEvent {
    let e = EventEnvelope::new_order_registered(
        "test",
        Some("market-1".to_string()),
        linkage(),
        provenance(),
        OrderRegistered {
            order_id: "pm-paper-order-sig-1".to_string(),
            decision_id: Some("dec-1".to_string()),
            instrument: "market-1".to_string(),
            venue: POLYMARKET_PAPER_VENUE.to_string(),
        },
    )
    .unwrap();
    StoredEvent::from_envelope(e).unwrap()
}

fn submitted() -> StoredEvent {
    let e = EventEnvelope::new_order_submitted(
        "test",
        Some("market-1".to_string()),
        linkage(),
        provenance(),
        OrderSubmitted {
            order_id: "pm-paper-order-sig-1".to_string(),
            decision_id: Some("dec-1".to_string()),
            instrument: "market-1".to_string(),
            venue: POLYMARKET_PAPER_VENUE.to_string(),
        },
    )
    .unwrap();
    StoredEvent::from_envelope(e).unwrap()
}

fn fill(fill_id: &str, side: FillSide, quantity: f64, price: f64, seconds: i64) -> StoredEvent {
    let e = EventEnvelope::new_fill_received(
        "test",
        Some("market-1".to_string()),
        linkage(),
        provenance(),
        FillReceived {
            fill_id: fill_id.to_string(),
            decision_id: Some("dec-1".to_string()),
            order_id: "pm-paper-order-sig-1".to_string(),
            instrument: "market-1".to_string(),
            side,
            quantity: Binary64 { bits: quantity.to_bits() },
            price: Binary64 { bits: price.to_bits() },
            venue: POLYMARKET_PAPER_VENUE.to_string(),
            executed_at: Timestamp { seconds, nanos: 0 },
        },
    )
    .unwrap();
    StoredEvent::from_envelope(e).unwrap()
}

#[test]
fn book_holds_the_order_and_its_fill() {
    let book = paper_book(&vec![
        registered(),
        submitted(),
        fill("pm-paper-paper-main-trade-1", FillSide::Buy, 10.0, 0.4, 1_776_168_000),
    ])
    .unwrap();
    assert_eq!(book.orders.len(), 1);
    assert_eq!(book.orders[0].status, PaperOrderStatus::Filled);
    assert_eq!(book.orders[0].fill_count, 1);
    assert!(book.orders[0].registered_at.is_some());
    assert!(book.orders[0].submitted_at.is_some());
    assert_eq!(book.fills.len(), 1);
    assert_eq!(book.fills[0].outcome, "signal_direction");
    assert_eq!(book.backend_accounts_seen, vec!["paper-main-trade".to_string()]);
}

#[test]
fn repeated_fill_event_is_counted_once_in_the_book() {
    let duplicate = fill("pm-paper-paper-main-trade-1", FillSide::Buy, 10.0, 0.4, 1_776_168_000);
    let book = paper_book(&vec![registered(), submitted(), duplicate.clone(), duplicate]).unwrap();
    assert_eq!(book.fills.len(), 1);
    assert_eq!(book.orders[0].fill_count, 1);
}

#[test]
fn book_fills_follow_execution_time() {
    let book = paper_book(&vec![
        registered(),
        fill("pm-paper-paper-main-trade-2", FillSide::Sell, 4.0, 0.6, 1_776_168_100),
        fill("pm-paper-paper-main-trade-1", FillSide::Buy, 10.0, 0.4, 1_776_168_000),
    ])
    .unwrap();
    let ids: Vec<&str> = book.fills.iter().map(|f| f.fill_id.as_str()).collect();
    assert_eq!(ids, vec!["pm-paper-paper-main-trade-1", "pm-paper-paper-main-trade-2"]);
    assert_eq!(book.orders[0].fill_count, 2);
    assert_eq!(book.orders[0].submitted_at, None);
}
