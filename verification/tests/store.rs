use receipt_processor::receipt::{Item, Receipt, ScoreRecord};
use receipt_processor::score::score;
use receipt_processor::store::{get_points, process_receipt, ReceiptStore};

fn sample_receipt() -> Receipt {
    Receipt {
        retailer: "Target".to_string(),
        purchase_date: "2022-01-01".to_string(),
        purchase_time: "13:01".to_string(),
        items: vec![
            Item { short_description: "Mountain Dew 12PK".to_string(), price: "6.49".to_string() },
            Item { short_description: "Emils Cheese Pizza".to_string(), price: "12.25".to_string() },
            Item { short_description: "Knorr Creamy Chicken".to_string(), price: "1.26".to_string() },
            Item { short_description: "Doritos Nacho Cheese".to_string(), price: "3.35".to_string() },
            Item {
                short_description: "   Klarbrunn 12-PK 12 FL OZ  ".to_string(),
                price: "12.00".to_string(),
            },
        ],
        total: "35.35".to_string(),
    }
}

fn small_receipt(retailer: &str) -> Receipt {
    Receipt {
        retailer: retailer.to_string(),
        purchase_date: "2022-03-20".to_string(),
        purchase_time: "14:33".to_string(),
        items: vec![],
        total: "9.00".to_string(),
    }
}

#[test]
fn submit_then_query_returns_the_score() {
    let mut store = ReceiptStore::new();
    let receipt = sample_receipt();
    let expected = score(&receipt);
    let id = process_receipt(&mut store, sample_receipt());
    assert_eq!(get_points(&store, &id), Some(expected));
    assert_eq!(expected, 33);
}

#[test]
fn unknown_identifier_is_not_found() {
    let store = ReceiptStore::new();
    assert_eq!(get_points(&store, &"no-such-id".to_string()), None);
    let mut store = ReceiptStore::new();
    let id = process_receipt(&mut store, sample_receipt());
    let mut other = id.clone();
    other.push('x');
    assert_eq!(get_points(&store, &other), None);
    assert_eq!(
        get_points(&store, &"123e4567-e89b-12d3-a456-426614174000".to_string()),
        None
    );
}

#[test]
fn identifiers_are_fresh_and_lookups_stable() {
    let mut store = ReceiptStore::new();
    let id1 = process_receipt(&mut store, small_receipt("A1"));
    let id2 = process_receipt(&mut store, small_receipt("B22"));
    assert_ne!(id1, id2);
    assert_eq!(id1.len(), 36);
    assert_eq!(id2.len(), 36);
    let first = get_points(&store, &id1);
    // Later submissions never disturb an earlier entry, and asking twice
    // answers the same: entries are written once and never updated.
    let id3 = process_receipt(&mut store, small_receipt("C333"));
    assert_ne!(id3, id1);
    assert_ne!(id3, id2);
    assert_eq!(get_points(&store, &id1), first);
    assert_eq!(get_points(&store, &id1), first);
}

#[test]
fn stored_record_keeps_receipt_and_points() {
    let mut store = ReceiptStore::new();
    let points = score(&sample_receipt());
    let id = store.submit(ScoreRecord { receipt: sample_receipt(), points });
    let record = store.lookup(&id).expect("submitted identifier must be present");
    assert_eq!(record.points, points);
    assert_eq!(record.receipt.retailer, "Target");
    assert_eq!(record.receipt.items.len(), 5);
    assert_eq!(store.lookup(&"another-id".to_string()).map(|r| r.points), None);
}
