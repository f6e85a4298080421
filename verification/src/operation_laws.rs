//! What each operation does, stated over its inputs and the stored values it
//! reads: who is paid what in a sale, which fee and interval are in force,
//! what a mint, a listing, a bid and an evolution record, and which earlier
//! bids an accepted bid leaves alone.

use vstd::prelude::*;
use crate::types::{Address, Artwork, AuctionEscrow, AuctionSettlement, Bid, Evolution, Listing, MarketError, RoyaltyPayment, Transfer};
use crate::rules::{div_toward_zero, div_up, end_time_of, fits_i128, min_bid_of, payout_of, remaining_of};
use crate::market::MarketView;

verus! {

/// The marketplace fee stored by the admin, or 250 basis points when none
/// was ever stored.
pub open spec fn stored_fee_bps(s: MarketView) -> u32 {
    match s.marketplace_fee {
        Some(f) => f,
        None => 250,
    }
}

/// `rate` basis points of `amount`, rounded toward zero as machine division
/// does.
pub open spec fn share_of(amount: int, rate: int) -> int {
    div_toward_zero(amount * rate, 10_000)
}

// ----- fees and intervals in force -----

/// The fee charged on a sale is the stored marketplace fee when one is
/// stored (by `initialize` or `update_marketplace_fee`), and 2.5% otherwise.
pub proof fn lemma_fee_rate_is_stored_fee(s: MarketView)
    ensures
        s.marketplace_fee matches Some(f) ==> s.fee_rate() == f,
        s.marketplace_fee is None ==> s.fee_rate() == 250,
{
}

/// The least time between mint and evolution is the stored interval when one
/// is stored, and one day otherwise.
pub proof fn lemma_evolution_interval_is_stored_interval(s: MarketView)
    ensures
        s.min_evolution_interval matches Some(i) ==> s.evolution_interval() == i,
        s.min_evolution_interval is None ==> s.evolution_interval() == 86_400,
{
}

/// The evolution fee charged is the stored one when one is stored, and
/// 1_000_000 otherwise.
pub proof fn lemma_evolution_fee_is_stored_fee(s: MarketView)
    ensures
        s.evolution_fee matches Some(f) ==> s.evolution_fee_due() == f,
        s.evolution_fee is None ==> s.evolution_fee_due() == 1_000_000,
{
}

/// `initialize` puts in force exactly the settings it is given, and
/// `update_marketplace_fee` the fee it is given.
pub proof fn lemma_initialize_puts_settings_in_force(
    s: MarketView,
    admin: Address,
    marketplace_fee: u32,
    treasury: Address,
    evolution_fee: i128,
    min_evolution_interval: u64,
    new_fee: u32,
)
    requires
        s.initialize_error() is None,
    ensures
        ({
            let s2 = s.initialized(admin, marketplace_fee, treasury, evolution_fee, min_evolution_interval);
            &&& s2.admin == Some(admin)
            &&& s2.treasury == Some(treasury)
            &&& s2.fee_rate() == marketplace_fee
            &&& s2.evolution_fee_due() == evolution_fee
            &&& s2.evolution_interval() == min_evolution_interval
            &&& s2.minted_count() == 0
            &&& (MarketView { marketplace_fee: Some(new_fee), ..s2 }).fee_rate() == new_fee
        }),
{
}

// ----- sales -----

/// How a sale price splits: the fee is the stored fee rate's share of the
/// price, the royalty the artwork's royalty rate's share, and the seller gets
/// the rest.
pub proof fn lemma_sale_split_from_rates(s: MarketView, token_id: u64, price: i128)
    requires
        s.sale_error(token_id, price) is None,
    ensures
        ({
            let p = s.sale_payout(token_id, price);
            let fee = share_of(price as int, stored_fee_bps(s) as int);
            let royalty = share_of(price as int, s.artworks[token_id].royalty_percentage as int);
            &&& p.fee_amount == fee
            &&& p.royalty_amount == royalty
            &&& p.seller_amount == price - fee - royalty
        }),
{
}

/// Who is paid in a sale: the payer pays, in the payment token, the fee to
/// the treasury, a positive royalty to the artwork's creator, and the rest
/// to the seller; nothing else is paid.
pub proof fn lemma_sale_pays_treasury_creator_and_seller(
    s: MarketView,
    token_id: u64,
    payer: Address,
    price: i128,
    seller: Address,
    payment_token: Address,
)
    requires
        s.sale_error(token_id, price) is None,
    ensures
        ({
            let ts = s.sale_transfers(token_id, payer, price, seller, payment_token);
            let fee = share_of(price as int, stored_fee_bps(s) as int);
            let royalty = share_of(price as int, s.artworks[token_id].royalty_percentage as int);
            &&& s.treasury == Some(ts[0].to)
            &&& ts[0] == (Transfer {
                token: payment_token,
                from: payer,
                to: ts[0].to,
                amount: fee as i128,
            })
            &&& ts.last() == (Transfer {
                token: payment_token,
                from: payer,
                to: seller,
                amount: (price - fee - royalty) as i128,
            })
            &&& royalty > 0 ==> ts.len() == 3 && ts[1] == (Transfer {
                token: payment_token,
                from: payer,
                to: s.artworks[token_id].creator,
                amount: royalty as i128,
            })
            &&& royalty <= 0 ==> ts.len() == 2
        }),
{
}

/// A fixed-price purchase pays the listing's seller its share, takes the
/// token from that seller to the buyer, and records a positive royalty for
/// the creator at the time of the purchase.
pub proof fn lemma_buy_pays_the_listing_seller(
    s: MarketView,
    buyer: Address,
    token_id: u64,
    payment_token: Address,
    now: u64,
)
    requires
        s.buy_error(token_id, now) is None,
    ensures
        ({
            let l = s.listings[token_id];
            let ts = s.sale_transfers(token_id, buyer, l.price, l.seller, payment_token);
            let s2 = s.bought(buyer, token_id, now);
            let royalty = share_of(l.price as int, s.artworks[token_id].royalty_percentage as int);
            &&& ts.last().to == l.seller
            &&& ts.last().from == buyer
            &&& forall|i: int| 0 <= i < ts.len() ==> (#[trigger] ts[i]).from == buyer
            &&& s2.ownership[token_id] == buyer
            &&& royalty > 0 ==> s2.royalty_history == s.royalty_history.push(
                RoyaltyPayment {
                    token_id,
                    creator: s.artworks[token_id].creator,
                    amount: royalty as i128,
                    timestamp: now,
                },
            )
            &&& royalty <= 0 ==> s2.royalty_history == s.royalty_history
        }),
{
    let l = s.listings[token_id];
    let ts = s.sale_transfers(token_id, buyer, l.price, l.seller, payment_token);
    assert forall|i: int| 0 <= i < ts.len() implies (#[trigger] ts[i]).from == buyer by {
        if s.sale_payout(token_id, l.price).royalty_amount > 0 {
            assert(i == 0 || i == 1 || i == 2);
        } else {
            assert(i == 0 || i == 1);
        }
    }
}

/// Settling an auction whose reserve is met pays, out of the marketplace's
/// escrow, the listing's seller its share of the escrowed bid, gives the
/// token to the escrowed bidder and records a positive royalty for the
/// creator at the time of settlement.
pub proof fn lemma_settlement_pays_the_listing_seller(
    s: MarketView,
    token_id: u64,
    now: u64,
    market: Address,
)
    requires
        s.end_error(token_id, now) is None,
        s.escrows.contains_key(token_id),
        s.reserve_met(token_id),
    ensures
        ({
            let l = s.listings[token_id];
            let e = s.escrows[token_id];
            let ts = s.end_transfers(token_id, market);
            let fee = share_of(e.highest_amount as int, stored_fee_bps(s) as int);
            let royalty = share_of(e.highest_amount as int, s.artworks[token_id].royalty_percentage as int);
            &&& ts.last() == (Transfer {
                token: e.payment_token,
                from: market,
                to: l.seller,
                amount: (e.highest_amount - fee - royalty) as i128,
            })
            &&& s.treasury == Some(ts[0].to)
            &&& ts[0].amount == fee
            &&& s.ended(token_id, now).ownership[token_id] == e.highest_bidder
            &&& royalty > 0 ==> s.ended(token_id, now).royalty_history == s.royalty_history.push(
                RoyaltyPayment {
                    token_id,
                    creator: s.artworks[token_id].creator,
                    amount: royalty as i128,
                    timestamp: now,
                },
            )
            &&& royalty <= 0 ==> s.ended(token_id, now).royalty_history == s.royalty_history
            &&& s.end_settlement(token_id) == (AuctionSettlement::Sold {
                winner: e.highest_bidder,
                amount: e.highest_amount,
                payout: s.sale_payout(token_id, e.highest_amount),
            })
        }),
{
}

/// Settling an auction whose reserve is not met refunds the escrowed bid to
/// its bidder in its own token and lists the token again for the same
/// seller, on the same terms, from the moment of settlement.
pub proof fn lemma_unmet_reserve_refunds_and_relists(
    s: MarketView,
    token_id: u64,
    now: u64,
    market: Address,
)
    requires
        s.end_error(token_id, now) is None,
        s.escrows.contains_key(token_id),
        !s.reserve_met(token_id),
    ensures
        ({
            let l = s.listings[token_id];
            let e = s.escrows[token_id];
            let s2 = s.ended(token_id, now);
            &&& s.end_transfers(token_id, market) == seq![
                Transfer {
                    token: e.payment_token,
                    from: market,
                    to: e.highest_bidder,
                    amount: e.highest_amount,
                },
            ]
            &&& s2.listings[token_id] == (Listing { start_time: now, active: true, ..l })
            &&& s2.ownership == s.ownership
            &&& !s2.escrows.contains_key(token_id)
            &&& s2.auction_bids == s.auction_bids
        }),
{
}

/// Ending an auction nobody bid on only closes its listing: nothing is paid
/// and everything else stays as it was.
pub proof fn lemma_ending_without_bids_only_closes(s: MarketView, token_id: u64, now: u64, market: Address)
    requires
        s.end_error(token_id, now) is None,
        !s.escrows.contains_key(token_id),
    ensures
        s.end_transfers(token_id, market) == Seq::<Transfer>::empty(),
        s.ended(token_id, now) == (MarketView {
            listings: s.listings.insert(token_id, Listing { active: false, ..s.listings[token_id] }),
            ..s
        }),
{
}

/// Cancelling refunds an auction's escrow to its bidder in its own token,
/// and otherwise only closes the listing.
pub proof fn lemma_cancel_only_closes_and_refunds(s: MarketView, seller: Address, token_id: u64, market: Address)
    requires
        s.cancel_error(seller@, token_id) is None,
    ensures
        ({
            let s2 = s.cancelled(token_id);
            let l = s.listings[token_id];
            &&& s2.listings == s.listings.insert(token_id, Listing { active: false, ..l })
            &&& s2.ownership == s.ownership
            &&& s2.auction_bids == s.auction_bids
            &&& s2.creator_tokens == s.creator_tokens
            &&& s2.artworks == s.artworks
            &&& (l.auction_style && s.escrows.contains_key(token_id)) ==> {
                &&& s2.escrows == s.escrows.remove(token_id)
                &&& s.cancel_transfers(token_id, market) == seq![
                    Transfer {
                        token: s.escrows[token_id].payment_token,
                        from: market,
                        to: s.escrows[token_id].highest_bidder,
                        amount: s.escrows[token_id].highest_amount,
                    },
                ]
            }
            &&& !(l.auction_style && s.escrows.contains_key(token_id)) ==> {
                &&& s2.escrows == s.escrows
                &&& s.cancel_transfers(token_id, market) == Seq::<Transfer>::empty()
            }
        }),
{
}

// ----- mint, list, bid, evolve -----

/// A mint (while ids remain, as an accepted mint ensures) records its
/// artwork exactly as given: each piece of metadata in its own field, the
/// creator as creator and owner, the time of minting, and no evolutions yet;
/// nothing of an existing token changes.
pub proof fn lemma_mint_stores_what_it_is_given(
    s: MarketView,
    creator: Address,
    ipfs_hash: String,
    title: String,
    description: String,
    ai_model: String,
    royalty_percentage: u32,
    is_collaborative: bool,
    ai_contribution: u32,
    human_contribution: u32,
    can_evolve: bool,
    now: u64,
)
    requires
        s.minted_count() < u64::MAX,
    ensures
        ({
            let id = s.next_token_id();
            let s2 = s.minted(
                creator,
                ipfs_hash,
                title,
                description,
                ai_model,
                royalty_percentage,
                is_collaborative,
                ai_contribution,
                human_contribution,
                can_evolve,
                now,
            );
            let a = s2.artworks[id];
            &&& id == s.minted_count() + 1
            &&& a.token_id == id
            &&& a.creator == creator
            &&& a.ipfs_hash == ipfs_hash
            &&& a.title == title
            &&& a.description == description
            &&& a.ai_model == ai_model
            &&& a.creation_timestamp == now
            &&& a.royalty_percentage == royalty_percentage
            &&& a.is_collaborative == is_collaborative
            &&& a.ai_contribution == ai_contribution
            &&& a.human_contribution == human_contribution
            &&& a.can_evolve == can_evolve
            &&& a.evolution_count == 0
            &&& s2.ownership[id] == creator
            &&& forall|t: u64| t != id && s.artworks.contains_key(t) ==> #[trigger] s2.artworks[t] == s.artworks[t]
            &&& s2.listings == s.listings
            &&& s2.escrows == s.escrows
        }),
{
}

/// A listing records the terms it is given, starts at the time of listing
/// and is active; no other listing changes.
pub proof fn lemma_listing_records_its_terms(
    s: MarketView,
    seller: Address,
    token_id: u64,
    price: i128,
    duration: u64,
    auction_style: bool,
    reserve_price: Option<i128>,
    now: u64,
)
    ensures
        ({
            let s2 = s.listed(seller, token_id, price, duration, auction_style, reserve_price, now);
            let l = s2.listings[token_id];
            &&& l.token_id == token_id
            &&& l.seller == seller
            &&& l.price == price
            &&& l.start_time == now
            &&& l.duration == duration
            &&& l.active
            &&& l.auction_style == auction_style
            &&& l.reserve_price == reserve_price
            &&& forall|t: u64| t != token_id && s.listings.contains_key(t) ==> #[trigger] s2.listings[t] == s.listings[t]
            &&& s2.ownership == s.ownership
            &&& s2.escrows == s.escrows
        }),
{
}

/// An accepted bid leaves every earlier bid of anyone but the outbid bidder
/// exactly as it was, active flag included; the outbid bidder's earlier bids
/// change only in being inactive; and the new bid is appended, active, with
/// the bidder, amount and time given.  Without a previous escrow no earlier
/// bid changes at all.
pub proof fn lemma_bid_touches_only_the_outbid_bidder(
    s: MarketView,
    bidder: Address,
    token_id: u64,
    amount: i128,
    payment_token: Address,
    now: u64,
)
    requires
        s.bid_error(token_id, amount, now) is None,
    ensures
        ({
            let h = s.bids_of(token_id);
            let h2 = s.bid_placed(bidder, token_id, amount, payment_token, now).bids_of(token_id);
            &&& h2.len() == h.len() + 1
            &&& h2.last() == (Bid { token_id, bidder, amount, timestamp: now, active: true })
            &&& s.escrows.contains_key(token_id) ==> forall|i: int|
                0 <= i < h.len() ==> {
                    &&& (#[trigger] h[i]).bidder@ != s.escrows[token_id].highest_bidder@ ==> h2[i] == h[i]
                    &&& h[i].bidder@ == s.escrows[token_id].highest_bidder@ ==> h2[i] == (Bid {
                        active: false,
                        ..h[i]
                    })
                }
            &&& !s.escrows.contains_key(token_id) ==> forall|i: int| 0 <= i < h.len() ==> #[trigger] h2[i] == h[i]
        }),
{
}

/// An accepted bid puts exactly that bid in escrow, pulls it from the bidder
/// in the token it names, and refunds the previous escrow, if any, to its
/// bidder in the escrowed token.
pub proof fn lemma_bid_escrows_what_it_is_given(
    s: MarketView,
    bidder: Address,
    token_id: u64,
    amount: i128,
    payment_token: Address,
    market: Address,
    now: u64,
)
    requires
        s.bid_error(token_id, amount, now) is None,
    ensures
        ({
            let s2 = s.bid_placed(bidder, token_id, amount, payment_token, now);
            let ts = s.bid_transfers(bidder, token_id, amount, payment_token, market);
            &&& s2.escrows[token_id] == (AuctionEscrow {
                token_id,
                highest_bidder: bidder,
                highest_amount: amount,
                payment_token,
            })
            &&& ts.last() == (Transfer { token: payment_token, from: bidder, to: market, amount })
            &&& s.escrows.contains_key(token_id) ==> ts.len() == 2 && ts[0] == (Transfer {
                token: s.escrows[token_id].payment_token,
                from: market,
                to: s.escrows[token_id].highest_bidder,
                amount: s.escrows[token_id].highest_amount,
            })
            &&& !s.escrows.contains_key(token_id) ==> ts.len() == 1
            &&& s2.listings == s.listings
            &&& s2.ownership == s.ownership
        }),
{
}

/// A bid is refused as too low exactly when it is below the least bid: the
/// reserve (or price) for a first bid, and otherwise 105% of the escrowed
/// bid rounded up, i.e. the least amount `m` with `100 * m >= 105 * h`.
pub proof fn lemma_least_bid_is_five_percent_more(h: i128, reserve: Option<i128>, price: i128)
    requires
        fits_i128(h * 105),
    ensures
        min_bid_of(Some(h), reserve, price) matches Some(m) && 100 * m >= 105 * h && 100 * (m - 1) < 105 * h,
        min_bid_of(None, reserve, price) == Some(
            match reserve {
                Some(r) => r,
                None => price,
            },
        ),
{
    let p = h * 105;
    let m = div_up(p, 100);
    if p >= 0 {
        assert(100 * m >= p && 100 * (m - 1) < p) by (nonlinear_arith)
            requires
                p >= 0,
                m == (p + 99) / 100,
        ;
    } else {
        assert(100 * m >= p && 100 * (m - 1) < p) by (nonlinear_arith)
            requires
                p < 0,
                m == -((-p) / 100),
        ;
    }
}

/// An accepted evolution appends a record with the token, the next
/// evolution number, the evolver, prompt, hash and time given; the artwork
/// changes only in its evolution count, which becomes that number.
pub proof fn lemma_evolution_records_what_it_is_given(
    s: MarketView,
    evolver: Address,
    token_id: u64,
    prompt: String,
    new_ipfs_hash: String,
    now: u64,
)
    requires
        s.evolve_error(evolver@, token_id, now) is None,
    ensures
        ({
            let s2 = s.evolved(evolver, token_id, prompt, new_ipfs_hash, now);
            let id = s.artworks[token_id].evolution_count + 1;
            &&& s.next_evolution_id(token_id) == id
            &&& s2.evolutions_of(token_id) == s.evolutions_of(token_id).push(
                Evolution { token_id, evolution_id: id as u32, evolver, prompt, new_ipfs_hash, timestamp: now },
            )
            &&& s2.artworks[token_id] == (Artwork { evolution_count: id as u32, ..s.artworks[token_id] })
            &&& s2.ownership == s.ownership
            &&& s2.listings == s.listings
        }),
{
}

/// An owner's evolution is accepted as soon as the stored interval has passed
/// since minting (with an evolvable artwork, a treasury for a positive fee
/// and room in the count), and refused as too early before that.
pub proof fn lemma_evolution_waits_for_the_stored_interval(
    s: MarketView,
    evolver: Address,
    token_id: u64,
    now: u64,
    interval: u64,
)
    requires
        s.ownership.contains_key(token_id),
        s.ownership[token_id]@ == evolver@,
        s.artworks.contains_key(token_id),
        s.artworks[token_id].can_evolve,
        s.min_evolution_interval == Some(interval),
        s.artworks[token_id].creation_timestamp + interval <= u64::MAX,
    ensures
        now < s.artworks[token_id].creation_timestamp + interval ==> s.evolve_error(evolver@, token_id, now)
            == Some(MarketError::EvolutionIntervalNotMet),
        now >= s.artworks[token_id].creation_timestamp + interval && s.treasury is Some
            && s.artworks[token_id].evolution_count < u32::MAX ==> s.evolve_error(evolver@, token_id, now)
            is None,
{
}

// ----- queries of time -----

/// The time left in a listing counts down to its end and then stays 0.
pub proof fn lemma_time_remaining_counts_down(start: u64, duration: u64, now: u64)
    requires
        end_time_of(start, duration) is Some,
    ensures
        now < start + duration ==> now + remaining_of(end_time_of(start, duration).unwrap(), now)
            == start + duration,
        now >= start + duration ==> remaining_of(end_time_of(start, duration).unwrap(), now) == 0,
{
}

/// The fee and royalty shares are the same function of their rates: the
/// split of a price at rates (a, b) has as royalty what the split at (b, a)
/// has as fee, and the parts always add up to the price.
pub proof fn lemma_fee_and_royalty_shares_agree(price: i128, a: u32, b: u32)
    requires
        payout_of(price, a, b) is Some,
        payout_of(price, b, a) is Some,
    ensures
        payout_of(price, a, b).unwrap().fee_amount == payout_of(price, b, a).unwrap().royalty_amount,
        payout_of(price, a, b).unwrap().royalty_amount == payout_of(price, b, a).unwrap().fee_amount,
        payout_of(price, a, b).unwrap().fee_amount == share_of(price as int, a as int),
        payout_of(price, a, b).unwrap().fee_amount + payout_of(price, a, b).unwrap().royalty_amount
            + payout_of(price, a, b).unwrap().seller_amount == price,
{
}

} // verus!
