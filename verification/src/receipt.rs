//! The data submitted for scoring: line items, receipts, and the stored
//! record that pairs a receipt with its computed points.

use vstd::prelude::*;

verus! {

/// One purchased item: a free-form description and a price written as a
/// decimal string, expected in the form `DIGITS.DD` (two fraction digits).
pub struct Item {
    pub short_description: String,
    pub price: String,
}

/// A purchase receipt as submitted. Dates are `YYYY-MM-DD` texts and times
/// `HH:MM` 24-hour texts; both stay texts here, and a rule that needs the
/// calendar or the clock parses them, treating unparseable text as simply
/// not qualifying for that rule's bonus.
pub struct Receipt {
    pub retailer: String,
    pub purchase_date: String,
    pub purchase_time: String,
    pub items: Vec<Item>,
    pub total: String,
}

/// A receipt together with the points it scored, created once at submission
/// and never changed afterwards.
pub struct ScoreRecord {
    pub receipt: Receipt,
    pub points: u64,
}

} // verus!
