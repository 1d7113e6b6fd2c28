//! The scoring engine: a pure, total function from a receipt to a
//! non-negative number of points, built from eight independent, additive
//! rules. A `total`, `price`, date or time that does not parse makes only
//! the rules that read it contribute nothing; scoring itself never fails.
//!
//! The mathematical score is a sum of unbounded naturals; the executable
//! engine returns it exactly whenever it fits `u64` and saturates at
//! `u64::MAX` otherwise, which `clamp_points` pins down in every contract.

use crate::money::{spec_parse_cents, parse_cents};
use crate::receipt::{Item, Receipt};
use vstd::prelude::*;
use vstd::string::*;

verus! {

/// Whether `char::is_alphanumeric` accepts the character: the Unicode
/// classification depends on the character alone.
pub uninterp spec fn is_alnum(c: char) -> bool;

/// What `str::trim` leaves of a text: the removal of leading and trailing
/// Unicode whitespace depends on the characters alone.
pub uninterp spec fn trimmed(s: Seq<char>) -> Seq<char>;

/// The day of month read from a `YYYY-MM-DD` text, where the text is a
/// valid calendar date: the outcome depends on the characters alone.
pub uninterp spec fn parsed_day(s: Seq<char>) -> Option<u32>;

/// The (hour, minute) pair read from a `HH:MM` 24-hour text, where the text
/// is a valid clock time: the outcome depends on the characters alone.
pub uninterp spec fn parsed_clock(s: Seq<char>) -> Option<(u32, u32)>;

/// Relies on char::is_alphanumeric for the Unicode alphanumeric
/// classification of one character.
#[verifier::external_body]
fn alnum_char(c: char) -> (r: bool)
    ensures
        r == is_alnum(c),
{
    c.is_alphanumeric()
}

/// Relies on str::trim to drop leading and trailing Unicode whitespace.
#[verifier::external_body]
fn trim_of<'a>(s: &'a str) -> (r: &'a str)
    ensures
        r@ == trimmed(s@),
{
    s.trim()
}

/// Relies on chrono::NaiveDate::parse_from_str with the fixed format
/// "%Y-%m-%d", which accepts exactly the valid calendar dates, and on
/// chrono::Datelike::day, which chrono documents as ranging from 1 to 31.
#[verifier::external_body]
fn day_of(s: &str) -> (r: Option<u32>)
    ensures
        r == parsed_day(s@),
        r matches Some(d) ==> 1 <= d <= 31,
{
    match chrono::NaiveDate::parse_from_str(s, "%Y-%m-%d") {
        Ok(date) => Some(chrono::Datelike::day(&date)),
        Err(_) => None,
    }
}

/// Relies on chrono::NaiveTime::parse_from_str with the fixed format
/// "%H:%M", which accepts exactly the valid 24-hour clock readings, and on
/// chrono::Timelike::hour and chrono::Timelike::minute, which chrono
/// documents as ranging over 0 to 23 and 0 to 59.
#[verifier::external_body]
fn clock_of(s: &str) -> (r: Option<(u32, u32)>)
    ensures
        r == parsed_clock(s@),
        r matches Some(hm) ==> hm.0 <= 23 && hm.1 <= 59,
{
    match chrono::NaiveTime::parse_from_str(s, "%H:%M") {
        Ok(time) => Some((chrono::Timelike::hour(&time), chrono::Timelike::minute(&time))),
        Err(_) => None,
    }
}

/// How many characters of `s` are alphanumeric.
pub open spec fn alnum_count(s: Seq<char>) -> nat
    decreases s.len(),
{
    if s.len() == 0 {
        0
    } else {
        alnum_count(s.drop_last()) + if is_alnum(s.last()) {
            1nat
        } else {
            0nat
        }
    }
}

/// Retailer-name rule: one point per alphanumeric character of the name.
pub open spec fn spec_retailer_points(retailer: Seq<char>) -> nat {
    alnum_count(retailer)
}

/// Round-dollar rule: fifty points where the total text ends in `.00`.
pub open spec fn spec_round_dollar_points(total: Seq<char>) -> nat {
    if total.len() >= 3 && total[total.len() - 3] == '.' && total[total.len() - 2] == '0'
        && total[total.len() - 1] == '0' {
        50
    } else {
        0
    }
}

/// Quarter-multiple rule: twenty-five points where the total is a whole
/// number of quarters.
pub open spec fn spec_quarter_points(total: Seq<char>) -> nat {
    match spec_parse_cents(total) {
        Some(cents) => if cents % 25 == 0 {
            25
        } else {
            0
        },
        None => 0,
    }
}

/// Item-pair rule: five points per pair of items.
pub open spec fn spec_pair_points(item_count: nat) -> nat {
    (item_count / 2) * 5
}

/// Description-length rule, for one item: where the trimmed description is
/// non-empty with a length divisible by three, a fifth of the price in
/// dollars, rounded up — in cents, `ceil(cents / 500)` written as
/// `(cents + 499) / 500`.
pub open spec fn spec_item_points(item: Item) -> nat {
    let t = trimmed(item.short_description@);
    if t.len() > 0 && t.len() % 3 == 0 {
        match spec_parse_cents(item.price@) {
            Some(cents) => ((cents + 499) / 500) as nat,
            None => 0,
        }
    } else {
        0
    }
}

/// Description-length rule over all items: the sum of each item's part.
pub open spec fn spec_items_points(items: Seq<Item>) -> nat
    decreases items.len(),
{
    if items.len() == 0 {
        0
    } else {
        spec_items_points(items.drop_last()) + spec_item_points(items.last())
    }
}

/// Total-threshold rule: five points where the total is strictly above ten
/// dollars.
pub open spec fn spec_threshold_points(total: Seq<char>) -> nat {
    match spec_parse_cents(total) {
        Some(cents) => if cents > 1000 {
            5
        } else {
            0
        },
        None => 0,
    }
}

/// Odd-day rule: six points where the day of month is odd.
pub open spec fn spec_odd_day_points(date: Seq<char>) -> nat {
    match parsed_day(date) {
        Some(day) => if day % 2 == 1 {
            6
        } else {
            0
        },
        None => 0,
    }
}

/// Afternoon-window rule: ten points strictly between 14:00 and 16:00.
pub open spec fn spec_afternoon_points(time: Seq<char>) -> nat {
    match parsed_clock(time) {
        Some(hm) => {
            let minutes = hm.0 * 60 + hm.1;
            if 840 < minutes && minutes < 960 {
                10
            } else {
                0
            }
        },
        None => 0,
    }
}

/// The full score: the eight rules applied additively.
pub open spec fn spec_score(receipt: Receipt) -> nat {
    spec_retailer_points(receipt.retailer@) + spec_round_dollar_points(receipt.total@)
        + spec_quarter_points(receipt.total@) + spec_pair_points(receipt.items@.len())
        + spec_items_points(receipt.items@) + spec_threshold_points(receipt.total@)
        + spec_odd_day_points(receipt.purchase_date@) + spec_afternoon_points(
        receipt.purchase_time@,
    )
}

/// A mathematical point count squeezed into `u64`: itself where it fits,
/// `u64::MAX` otherwise.
pub open spec fn clamp_points(n: nat) -> u64 {
    if n <= u64::MAX {
        n as u64
    } else {
        u64::MAX
    }
}

/// Saturating addition of two clamped counts clamps their true sum.
proof fn lemma_sat_step(a: nat, b: nat, x: u64, y: u64)
    requires
        x == clamp_points(a),
        y == clamp_points(b),
    ensures
        (if x + y > u64::MAX {
            u64::MAX
        } else {
            (x + y) as u64
        }) == clamp_points(a + b),
{
}

/// Retailer-name rule, executable.
pub fn retailer_points(retailer: &str) -> (r: u64)
    ensures
        r == spec_retailer_points(retailer@),
{
    let n: usize = retailer.unicode_len();
    let mut count: usize = 0;
    let mut i: usize = 0;
    while i < n
        invariant
            n == retailer@.len(),
            0 <= i <= n,
            count <= i,
            count == alnum_count(retailer@.take(i as int)),
        decreases n - i,
    {
        let c: char = retailer.get_char(i);
        proof {
            assert(retailer@.take(i + 1).drop_last() =~= retailer@.take(i as int));
        }
        if alnum_char(c) {
            count = count + 1;
        }
        i = i + 1;
    }
    proof {
        assert(retailer@.take(n as int) =~= retailer@);
    }
    count as u64
}

/// Round-dollar rule, executable.
pub fn round_dollar_points(total: &str) -> (r: u64)
    ensures
        r == spec_round_dollar_points(total@),
{
    let n: usize = total.unicode_len();
    if n >= 3 && total.get_char(n - 3) == '.' && total.get_char(n - 2) == '0' && total.get_char(
        n - 1,
    ) == '0' {
        50
    } else {
        0
    }
}

/// Quarter-multiple rule, executable.
pub fn quarter_points(total: &str) -> (r: u64)
    ensures
        r == spec_quarter_points(total@),
{
    match parse_cents(total) {
        Some(cents) => if cents % 25 == 0 {
            25
        } else {
            0
        },
        None => 0,
    }
}

/// Item-pair rule, executable.
pub fn pair_points(item_count: usize) -> (r: u64)
    ensures
        r == clamp_points(spec_pair_points(item_count as nat)),
{
    let half: u64 = (item_count / 2) as u64;
    match half.checked_mul(5) {
        Some(p) => p,
        None => u64::MAX,
    }
}

/// Description-length rule for one item, executable.
pub fn item_points(item: &Item) -> (r: u64)
    ensures
        r == spec_item_points(*item),
{
    let t: &str = trim_of(item.short_description.as_str());
    let tl: usize = t.unicode_len();
    if tl == 0 || tl % 3 != 0 {
        return 0;
    }
    match parse_cents(item.price.as_str()) {
        Some(cents) => {
            let q: u128 = ((cents as u128) + 499) / 500;
            proof {
                assert(q <= u64::MAX);
            }
            q as u64
        },
        None => 0,
    }
}

/// Description-length rule over all items, executable.
pub fn items_points(items: &Vec<Item>) -> (r: u64)
    ensures
        r == clamp_points(spec_items_points(items@)),
{
    let mut points: u64 = 0;
    let mut i: usize = 0;
    while i < items.len()
        invariant
            0 <= i <= items@.len(),
            points == clamp_points(spec_items_points(items@.take(i as int))),
        decreases items@.len() - i,
    {
        let p: u64 = item_points(&items[i]);
        proof {
            assert(items@.take(i + 1).drop_last() =~= items@.take(i as int));
            lemma_sat_step(
                spec_items_points(items@.take(i as int)),
                spec_item_points(items@[i as int]),
                points,
                p,
            );
        }
        points = points.saturating_add(p);
        i = i + 1;
    }
    proof {
        assert(items@.take(items@.len() as int) =~= items@);
    }
    points
}

/// Total-threshold rule, executable.
pub fn threshold_points(total: &str) -> (r: u64)
    ensures
        r == spec_threshold_points(total@),
{
    match parse_cents(total) {
        Some(cents) => if cents > 1000 {
            5
        } else {
            0
        },
        None => 0,
    }
}

/// Odd-day rule, executable.
pub fn odd_day_points(date: &str) -> (r: u64)
    ensures
        r == spec_odd_day_points(date@),
{
    match day_of(date) {
        Some(day) => if day % 2 == 1 {
            6
        } else {
            0
        },
        None => 0,
    }
}

/// Afternoon-window rule, executable.
pub fn afternoon_points(time: &str) -> (r: u64)
    ensures
        r == spec_afternoon_points(time@),
{
    match clock_of(time) {
        Some(hm) => {
            let minutes: u32 = hm.0 * 60 + hm.1;
            if 840 < minutes && minutes < 960 {
                10
            } else {
                0
            }
        },
        None => 0,
    }
}

/// The scoring engine: the eight rules applied additively, saturating at
/// `u64::MAX`. Total over every receipt — a field that does not parse
/// leaves only its own rules at zero.
pub fn score(receipt: &Receipt) -> (points: u64)
    ensures
        points == clamp_points(spec_score(*receipt)),
{
    let r1: u64 = retailer_points(receipt.retailer.as_str());
    let r2: u64 = round_dollar_points(receipt.total.as_str());
    let r3: u64 = quarter_points(receipt.total.as_str());
    let r4: u64 = pair_points(receipt.items.len());
    let r5: u64 = items_points(&receipt.items);
    let r6: u64 = threshold_points(receipt.total.as_str());
    let r7: u64 = odd_day_points(receipt.purchase_date.as_str());
    let r8: u64 = afternoon_points(receipt.purchase_time.as_str());
    let ghost s1: nat = spec_retailer_points(receipt.retailer@);
    let ghost s2: nat = spec_round_dollar_points(receipt.total@);
    let ghost s3: nat = spec_quarter_points(receipt.total@);
    let ghost s4: nat = spec_pair_points(receipt.items@.len());
    let ghost s5: nat = spec_items_points(receipt.items@);
    let ghost s6: nat = spec_threshold_points(receipt.total@);
    let ghost s7: nat = spec_odd_day_points(receipt.purchase_date@);
    let ghost s8: nat = spec_afternoon_points(receipt.purchase_time@);
    proof {
        lemma_sat_step(s1, s2, r1, r2);
    }
    let mut points: u64 = r1.saturating_add(r2);
    proof {
        lemma_sat_step(s1 + s2, s3, points, r3);
    }
    points = points.saturating_add(r3);
    proof {
        lemma_sat_step(s1 + s2 + s3, s4, points, r4);
    }
    points = points.saturating_add(r4);
    proof {
        lemma_sat_step(s1 + s2 + s3 + s4, s5, points, r5);
    }
    points = points.saturating_add(r5);
    proof {
        lemma_sat_step(s1 + s2 + s3 + s4 + s5, s6, points, r6);
    }
    points = points.saturating_add(r6);
    proof {
        lemma_sat_step(s1 + s2 + s3 + s4 + s5 + s6, s7, points, r7);
    }
    points = points.saturating_add(r7);
    proof {
        lemma_sat_step(s1 + s2 + s3 + s4 + s5 + s6 + s7, s8, points, r8);
    }
    points = points.saturating_add(r8);
    points
}

/// No more characters count than the name has.
proof fn lemma_alnum_count_le(s: Seq<char>)
    ensures
        alnum_count(s) <= s.len(),
    decreases s.len(),
{
    if s.len() > 0 {
        lemma_alnum_count_le(s.drop_last());
    }
}

/// The description-length rule awards at most `(u64::MAX + 499) / 500` per
/// item, so at most that times the item count in all.
proof fn lemma_items_points_le(items: Seq<Item>)
    ensures
        spec_items_points(items) <= items.len() * ((u64::MAX + 499) / 500),
    decreases items.len(),
{
    if items.len() > 0 {
        lemma_items_points_le(items.drop_last());
        let n = items.len() as int;
        let k = (u64::MAX + 499) / 500;
        assert(n * k == (n - 1) * k + k) by (nonlinear_arith)
            requires
                n >= 1,
        ;
        let t = trimmed(items.last().short_description@);
        if t.len() > 0 && t.len() % 3 == 0 {
            match spec_parse_cents(items.last().price@) {
                Some(cents) => {
                    vstd::arithmetic::div_mod::lemma_div_is_ordered(
                        cents + 499,
                        u64::MAX + 499,
                        500,
                    );
                },
                None => {},
            }
        }
    }
}

/// Determinism: any two results that `score` can return for the same
/// receipt are the same integer.
pub proof fn lemma_score_deterministic(receipt: &Receipt, p1: u64, p2: u64)
    requires
        call_ensures(score, (receipt,), p1),
        call_ensures(score, (receipt,), p2),
    ensures
        p1 == p2,
{
}

/// The score is never negative and is exactly the sum of the eight rules'
/// contributions, each independent and within its own bound.
pub proof fn lemma_rule_bounds(receipt: Receipt)
    ensures
        spec_retailer_points(receipt.retailer@) <= receipt.retailer@.len(),
        spec_round_dollar_points(receipt.total@) == 50 || spec_round_dollar_points(receipt.total@)
            == 0,
        spec_quarter_points(receipt.total@) == 25 || spec_quarter_points(receipt.total@) == 0,
        spec_pair_points(receipt.items@.len()) == (receipt.items@.len() / 2) * 5,
        spec_items_points(receipt.items@) <= receipt.items@.len() * ((u64::MAX + 499) / 500),
        spec_threshold_points(receipt.total@) == 5 || spec_threshold_points(receipt.total@) == 0,
        spec_odd_day_points(receipt.purchase_date@) == 6 || spec_odd_day_points(
            receipt.purchase_date@,
        ) == 0,
        spec_afternoon_points(receipt.purchase_time@) == 10 || spec_afternoon_points(
            receipt.purchase_time@,
        ) == 0,
        spec_score(receipt) == spec_retailer_points(receipt.retailer@) + spec_round_dollar_points(
            receipt.total@,
        ) + spec_quarter_points(receipt.total@) + spec_pair_points(receipt.items@.len())
            + spec_items_points(receipt.items@) + spec_threshold_points(receipt.total@)
            + spec_odd_day_points(receipt.purchase_date@) + spec_afternoon_points(
            receipt.purchase_time@,
        ),
{
    lemma_alnum_count_le(receipt.retailer@);
    lemma_items_points_le(receipt.items@);
}

} // verus!
