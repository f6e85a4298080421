//! The marketplace's arithmetic and list rules, apart from any state: how a
//! price is split, what the next bid must reach, when a listing ends, which
//! bid leads, and how token lists and bid histories are rewritten.

use vstd::prelude::*;
use crate::types::{Address, Bid, Payout};

verus! {

/// Basis points in one whole (100%).
pub const BASIS_POINTS: i128 = 10_000;

/// A following bid must reach this many percent of the current highest one.
pub const OUTBID_PERCENT: i128 = 105;

/// Integer division rounded toward zero, as `/` does on machine integers
/// (for a positive divisor).
pub open spec fn div_toward_zero(a: int, b: int) -> int {
    if a >= 0 {
        a / b
    } else {
        -((-a) / b)
    }
}

pub open spec fn fits_i128(x: int) -> bool {
    i128::MIN <= x <= i128::MAX
}

/// `bps` basis points of `amount`, rounded toward zero.
pub open spec fn bps_share(amount: int, bps: int) -> int {
    div_toward_zero(amount * bps, 10_000)
}

/// How `price` is divided at fee rate `fee_bps` and royalty rate
/// `royalty_bps`; `None` where an intermediate value leaves `i128`.
pub open spec fn payout_of(price: i128, fee_bps: u32, royalty_bps: u32) -> Option<Payout> {
    let fee = bps_share(price as int, fee_bps as int);
    let royalty = bps_share(price as int, royalty_bps as int);
    if !fits_i128(price * fee_bps) || !fits_i128(price * royalty_bps) || !fits_i128(price - fee)
        || !fits_i128(price - fee - royalty) {
        None
    } else {
        Some(
            Payout {
                fee_amount: fee as i128,
                royalty_amount: royalty as i128,
                seller_amount: (price - fee - royalty) as i128,
            },
        )
    }
}

/// Splits a sale price into marketplace fee, royalty and seller's share.
pub fn split_sale(price: i128, fee_bps: u32, royalty_bps: u32) -> (r: Option<Payout>)
    ensures
        r == payout_of(price, fee_bps, royalty_bps),
{
    let fee_product = match price.checked_mul(fee_bps as i128) {
        Some(p) => p,
        None => return None,
    };
    let royalty_product = match price.checked_mul(royalty_bps as i128) {
        Some(p) => p,
        None => return None,
    };
    let fee_amount = fee_product / BASIS_POINTS;
    let royalty_amount = royalty_product / BASIS_POINTS;
    let after_fee = match price.checked_sub(fee_amount) {
        Some(v) => v,
        None => return None,
    };
    let seller_amount = match after_fee.checked_sub(royalty_amount) {
        Some(v) => v,
        None => return None,
    };
    Some(Payout { fee_amount, royalty_amount, seller_amount })
}

/// The least integer that is at least `a / b` (for a positive divisor).
pub open spec fn div_up(a: int, b: int) -> int {
    if a >= 0 {
        (a + b - 1) / b
    } else {
        -((-a) / b)
    }
}

/// The least amount a bid must reach: 105% (rounded up) of the escrowed
/// highest bid when there is one, so that a new bid exceeds it by at least
/// 5%; else the reserve, else the price.  `None` where 105% of the escrowed
/// amount leaves `i128`.
pub open spec fn min_bid_of(highest: Option<i128>, reserve: Option<i128>, price: i128) -> Option<i128> {
    match highest {
        Some(h) => if fits_i128(h * 105) {
            Some(div_up(h * 105, 100) as i128)
        } else {
            None
        },
        None => Some(
            match reserve {
                Some(r) => r,
                None => price,
            },
        ),
    }
}

pub fn min_bid(highest: Option<i128>, reserve: Option<i128>, price: i128) -> (r: Option<i128>)
    ensures
        r == min_bid_of(highest, reserve, price),
{
    match highest {
        Some(h) => match h.checked_mul(OUTBID_PERCENT) {
            Some(p) => {
                let whole = p / 100;
                if p > 0 && p % 100 != 0 {
                    assert((p + 99) / 100 == p / 100 + 1) by {
                        assert(p == (p / 100) * 100 + p % 100);
                    }
                    Some(whole + 1)
                } else {
                    if p > 0 {
                        assert((p + 99) / 100 == p / 100) by {
                            assert(p == (p / 100) * 100 + p % 100);
                        }
                    }
                    Some(whole)
                }
            },
            None => None,
        },
        None => match reserve {
            Some(r) => Some(r),
            None => Some(price),
        },
    }
}

/// The moment a listing that started at `start` and lasts `duration` ends;
/// `None` where it does not fit in `u64`.
pub open spec fn end_time_of(start: u64, duration: u64) -> Option<u64> {
    if start + duration <= u64::MAX {
        Some((start + duration) as u64)
    } else {
        None
    }
}

pub fn end_time(start: u64, duration: u64) -> (r: Option<u64>)
    ensures
        r == end_time_of(start, duration),
{
    start.checked_add(duration)
}

/// Seconds left until `end`, or 0 once `now` has reached it.
pub open spec fn remaining_of(end: u64, now: u64) -> u64 {
    if now >= end {
        0
    } else {
        (end - now) as u64
    }
}

pub fn remaining(end: u64, now: u64) -> (r: u64)
    ensures
        r == remaining_of(end, now),
{
    if now >= end {
        0
    } else {
        end - now
    }
}

/// The token list with every occurrence of `token_id` left out.
pub open spec fn without_token(tokens: Seq<u64>, token_id: u64) -> Seq<u64> {
    tokens.filter(other_than(token_id))
}

pub open spec fn other_than(token_id: u64) -> spec_fn(u64) -> bool {
    |t: u64| t != token_id
}

pub fn remove_token(tokens: &Vec<u64>, token_id: u64) -> (r: Vec<u64>)
    ensures
        r@ == without_token(tokens@, token_id),
{
    let ghost pred = other_than(token_id);
    let mut kept: Vec<u64> = Vec::new();
    let mut i: usize = 0;
    while i < tokens.len()
        invariant
            i <= tokens.len(),
            pred == other_than(token_id),
            kept@ == tokens@.take(i as int).filter(pred),
        decreases tokens.len() - i,
    {
        let t = tokens[i];
        proof {
            tokens@.take(i as int).lemma_filter_push(t, pred);
            assert(tokens@.take(i as int).push(t) =~= tokens@.take(i + 1));
        }
        if t != token_id {
            kept.push(t);
        }
        i = i + 1;
    }
    assert(tokens@.take(tokens.len() as int) =~= tokens@);
    kept
}

/// A bid as it stands once `outbid` has been outbid: an active bid of that
/// bidder is made inactive, every other bid is left as it was.
pub open spec fn after_outbid(b: Bid, outbid: Seq<char>) -> Bid {
    if b.active && b.bidder@ == outbid {
        Bid { active: false, ..b }
    } else {
        b
    }
}

pub open spec fn history_after_outbid(bids: Seq<Bid>, outbid: Seq<char>) -> Seq<Bid> {
    bids.map_values(|b: Bid| after_outbid(b, outbid))
}

pub fn deactivate_bids_of(bids: &Vec<Bid>, outbid: &Address) -> (r: Vec<Bid>)
    ensures
        r@ == history_after_outbid(bids@, outbid@),
{
    let mut updated: Vec<Bid> = Vec::new();
    let mut i: usize = 0;
    while i < bids.len()
        invariant
            i <= bids.len(),
            updated@.len() == i,
            forall|j: int| 0 <= j < i ==> updated@[j] == after_outbid(#[trigger] bids@[j], outbid@),
        decreases bids.len() - i,
    {
        let mut b = bids[i].clone();
        if b.active && b.bidder.same_as(outbid) {
            b.active = false;
        }
        updated.push(b);
        i = i + 1;
    }
    assert(updated@ =~= history_after_outbid(bids@, outbid@));
    updated
}

/// `b` is a live bid of `bidder` for `amount`.
pub open spec fn is_live_bid(b: Bid, bidder: Seq<char>, amount: i128) -> bool {
    b.active && b.bidder@ == bidder && b.amount == amount
}

/// `i` is the latest entry of the history that is a live bid of `bidder`
/// for `amount`.
pub open spec fn latest_live_bid_at(bids: Seq<Bid>, bidder: Seq<char>, amount: i128, i: int) -> bool {
    &&& 0 <= i < bids.len()
    &&& is_live_bid(bids[i], bidder, amount)
    &&& forall|j: int| i < j < bids.len() ==> !is_live_bid(#[trigger] bids[j], bidder, amount)
}

pub open spec fn has_live_bid(bids: Seq<Bid>, bidder: Seq<char>, amount: i128) -> bool {
    exists|j: int| 0 <= j < bids.len() && is_live_bid(#[trigger] bids[j], bidder, amount)
}

/// The latest live bid of `bidder` for `amount` in a bid history, if any.
pub fn latest_live_bid(bids: &Vec<Bid>, bidder: &Address, amount: i128) -> (r: Option<Bid>)
    ensures
        r is None <==> !has_live_bid(bids@, bidder@, amount),
        r matches Some(b) ==> exists|i: int| latest_live_bid_at(bids@, bidder@, amount, i) && b == bids@[i],
{
    let mut i: usize = bids.len();
    while i > 0
        invariant
            i <= bids.len(),
            forall|j: int| i <= j < bids.len() ==> !is_live_bid(#[trigger] bids@[j], bidder@, amount),
        decreases i,
    {
        let k = i - 1;
        if bids[k].active && bids[k].bidder.same_as(bidder) && bids[k].amount == amount {
            assert(latest_live_bid_at(bids@, bidder@, amount, k as int));
            return Some(bids[k].clone());
        }
        i = k;
    }
    None
}

} // verus!
