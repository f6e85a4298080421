//! When each operation is accepted, and which refusal a request meets first,
//! stated over the request and the stored records with the limits the
//! marketplace documents: a royalty or fee of at most 10% (1000 basis
//! points), listings of at most 30 days (2_592_000 seconds), contributions
//! that add up to 100, and a next bid at least 5% above the escrowed one.

use vstd::prelude::*;
use crate::types::{Address, AuctionSettlement, MarketError, Transfer};
use crate::rules::{fits_i128, payout_of};
use crate::market::MarketView;
use crate::operation_laws::{lemma_least_bid_is_five_percent_more, stored_fee_bps};

verus! {

/// A mint is accepted exactly when the contract is initialised, the hash,
/// title and model are given, the royalty is at most 10%, a collaborative
/// work's contributions add up to 100 and ids remain; the refusals come in
/// that order.
pub proof fn lemma_mint_accepted_exactly_when(
    s: MarketView,
    ipfs_hash: Seq<char>,
    title: Seq<char>,
    ai_model: Seq<char>,
    royalty_percentage: u32,
    is_collaborative: bool,
    ai_contribution: u32,
    human_contribution: u32,
)
    ensures
        ({
            let e = s.mint_error(
                ipfs_hash,
                title,
                ai_model,
                royalty_percentage,
                is_collaborative,
                ai_contribution,
                human_contribution,
            );
            let fields_given = ipfs_hash.len() > 0 && title.len() > 0 && ai_model.len() > 0;
            &&& e is None <==> (s.admin is Some && fields_given && royalty_percentage <= 1000 && (
            is_collaborative ==> ai_contribution + human_contribution == 100) && s.minted_count()
                < u64::MAX)
            &&& s.admin is None ==> e == Some(MarketError::NotInitialized)
            &&& s.admin is Some && ipfs_hash.len() == 0 ==> e == Some(MarketError::IpfsHashRequired)
            &&& s.admin is Some && ipfs_hash.len() > 0 && title.len() == 0 ==> e == Some(
                MarketError::TitleRequired,
            )
            &&& s.admin is Some && ipfs_hash.len() > 0 && title.len() > 0 && ai_model.len() == 0 ==> e
                == Some(MarketError::AiModelRequired)
            &&& s.admin is Some && fields_given && royalty_percentage > 1000 ==> e == Some(
                MarketError::RoyaltyTooHigh,
            )
            &&& s.admin is Some && fields_given && royalty_percentage <= 1000 && is_collaborative
                && ai_contribution + human_contribution <= u32::MAX && ai_contribution
                + human_contribution != 100 ==> e == Some(MarketError::ContributionsMustSumTo100)
        }),
{
}

/// A listing is accepted exactly when the seller owns the token, it is not
/// listed already, the price is positive, the duration is between one second
/// and 30 days, and an auction has a positive reserve; the refusals come in
/// that order.
pub proof fn lemma_listing_accepted_exactly_when(
    s: MarketView,
    seller: Seq<char>,
    token_id: u64,
    price: i128,
    duration: u64,
    auction_style: bool,
    reserve_price: Option<i128>,
)
    ensures
        ({
            let e = s.list_error(seller, token_id, price, duration, auction_style, reserve_price);
            let owner = s.ownership.contains_key(token_id) && s.ownership[token_id]@ == seller;
            let free = !(s.listings.contains_key(token_id) && s.listings[token_id].active);
            let terms = owner && free && price > 0 && 1 <= duration <= 2_592_000;
            &&& e is None <==> (terms && (auction_style ==> (reserve_price matches Some(r) && r > 0)))
            &&& !s.ownership.contains_key(token_id) ==> e == Some(MarketError::TokenNotFound)
            &&& s.ownership.contains_key(token_id) && s.ownership[token_id]@ != seller ==> e == Some(
                MarketError::NotTokenOwner,
            )
            &&& owner && !free ==> e == Some(MarketError::AlreadyListed)
            &&& owner && free && price <= 0 ==> e == Some(MarketError::PriceNotPositive)
            &&& owner && free && price > 0 && duration == 0 ==> e == Some(
                MarketError::DurationNotPositive,
            )
            &&& owner && free && price > 0 && duration > 2_592_000 ==> e == Some(
                MarketError::DurationTooLong,
            )
            &&& terms && auction_style && reserve_price is None ==> e == Some(
                MarketError::ReserveRequired,
            )
            &&& terms && auction_style && (reserve_price matches Some(r) && r <= 0) ==> e == Some(
                MarketError::ReserveNotPositive,
            )
        }),
{
}

/// A fixed-price purchase is accepted exactly when the listing exists, is
/// active, is not an auction and has not run out, a treasury is set, the
/// artwork is on record and the split of the price fits; a listing is
/// refused as expired from the moment its time is up.
pub proof fn lemma_purchase_accepted_exactly_when(s: MarketView, token_id: u64, now: u64)
    ensures
        ({
            let e = s.buy_error(token_id, now);
            let l = s.listings[token_id];
            let on_sale = s.listings.contains_key(token_id) && l.active && !l.auction_style
                && l.start_time + l.duration <= u64::MAX;
            &&& e is None <==> (on_sale && now < l.start_time + l.duration && s.treasury is Some
                && s.artworks.contains_key(token_id) && payout_of(
                l.price,
                stored_fee_bps(s),
                s.artworks[token_id].royalty_percentage,
            ) is Some)
            &&& !s.listings.contains_key(token_id) ==> e == Some(MarketError::ListingNotFound)
            &&& s.listings.contains_key(token_id) && !l.active ==> e == Some(
                MarketError::ListingNotActive,
            )
            &&& s.listings.contains_key(token_id) && l.active && l.auction_style ==> e == Some(
                MarketError::UseAuctionFunctions,
            )
            &&& on_sale && now >= l.start_time + l.duration ==> e == Some(MarketError::ListingExpired)
            &&& on_sale && now < l.start_time + l.duration && s.treasury is None ==> e == Some(
                MarketError::TreasuryNotSet,
            )
        }),
{
}

/// A bid on a running auction is accepted exactly when it reaches the least
/// bid: the reserve (or, without one, the price) while nobody has bid, and
/// otherwise 105% of the escrowed bid, i.e. `100 * amount >= 105 * h`.
/// Bids on a missing, closed, fixed-price or finished listing are refused in
/// that order.
pub proof fn lemma_bid_accepted_exactly_when(s: MarketView, token_id: u64, amount: i128, now: u64)
    ensures
        ({
            let e = s.bid_error(token_id, amount, now);
            let l = s.listings[token_id];
            let running = s.listings.contains_key(token_id) && l.active && l.auction_style
                && l.start_time + l.duration <= u64::MAX && now < l.start_time + l.duration;
            let first_least = match l.reserve_price {
                Some(r) => r,
                None => l.price,
            };
            let h = s.escrows[token_id].highest_amount;
            &&& !s.listings.contains_key(token_id) ==> e == Some(MarketError::ListingNotFound)
            &&& s.listings.contains_key(token_id) && !l.active ==> e == Some(
                MarketError::ListingNotActive,
            )
            &&& s.listings.contains_key(token_id) && l.active && !l.auction_style ==> e == Some(
                MarketError::NotAnAuction,
            )
            &&& s.listings.contains_key(token_id) && l.active && l.auction_style && l.start_time
                + l.duration <= u64::MAX && now >= l.start_time + l.duration ==> e == Some(
                MarketError::AuctionHasEnded,
            )
            &&& running && !s.escrows.contains_key(token_id) ==> (e is None <==> amount
                >= first_least)
            &&& running && !s.escrows.contains_key(token_id) && amount < first_least ==> e == Some(
                MarketError::BidTooLow,
            )
            &&& running && s.escrows.contains_key(token_id) && fits_i128(h * 105) ==> (e is None
                <==> 100 * amount >= 105 * h)
            &&& running && s.escrows.contains_key(token_id) && fits_i128(h * 105) && 100 * amount
                < 105 * h ==> e == Some(MarketError::BidTooLow)
        }),
{
    let l = s.listings[token_id];
    if s.escrows.contains_key(token_id) {
        let h = s.escrows[token_id].highest_amount;
        if fits_i128(h * 105) {
            lemma_least_bid_is_five_percent_more(h, l.reserve_price, l.price);
        }
    }
}

/// An auction can be settled exactly from its end time on (while its
/// listing is an active auction); an auction without bids, or whose
/// escrowed bid misses the reserve, is then never refused.  With a bid, the
/// token is sold exactly when there is no reserve or the escrowed bid
/// reaches it (a bid equal to the reserve sells); without a bid there is
/// nothing to sell.
pub proof fn lemma_settlement_accepted_exactly_when(s: MarketView, token_id: u64, now: u64)
    ensures
        ({
            let e = s.end_error(token_id, now);
            let l = s.listings[token_id];
            let auction = s.listings.contains_key(token_id) && l.active && l.auction_style
                && l.start_time + l.duration <= u64::MAX;
            let reaches = match l.reserve_price {
                Some(r) => s.escrows[token_id].highest_amount >= r,
                None => true,
            };
            &&& !s.listings.contains_key(token_id) ==> e == Some(MarketError::ListingNotFound)
            &&& s.listings.contains_key(token_id) && !l.active ==> e == Some(
                MarketError::ListingNotActive,
            )
            &&& s.listings.contains_key(token_id) && l.active && !l.auction_style ==> e == Some(
                MarketError::NotAnAuction,
            )
            &&& auction && now < l.start_time + l.duration ==> e == Some(MarketError::AuctionNotEnded)
            &&& auction && now >= l.start_time + l.duration && !s.escrows.contains_key(token_id) ==> e
                is None
            &&& auction && now >= l.start_time + l.duration && s.escrows.contains_key(token_id)
                && !reaches ==> e is None
            &&& !s.escrows.contains_key(token_id) ==> s.end_settlement(token_id)
                == AuctionSettlement::NoBids
            &&& s.escrows.contains_key(token_id) ==> (s.end_settlement(token_id) is Sold <==> reaches)
            &&& s.escrows.contains_key(token_id) && !reaches ==> s.end_settlement(token_id)
                == (AuctionSettlement::ReserveNotMet {
                bidder: s.escrows[token_id].highest_bidder,
                amount: s.escrows[token_id].highest_amount,
            })
        }),
{
}

/// Cancelling is accepted exactly when the listing exists, the caller is
/// its seller and it is active; the refusals come in that order.
pub proof fn lemma_cancel_accepted_exactly_when(s: MarketView, seller: Seq<char>, token_id: u64)
    ensures
        ({
            let e = s.cancel_error(seller, token_id);
            let l = s.listings[token_id];
            &&& e is None <==> (s.listings.contains_key(token_id) && l.seller@ == seller && l.active)
            &&& !s.listings.contains_key(token_id) ==> e == Some(MarketError::ListingNotFound)
            &&& s.listings.contains_key(token_id) && l.seller@ != seller ==> e == Some(
                MarketError::NotTheSeller,
            )
            &&& s.listings.contains_key(token_id) && l.seller@ == seller && !l.active ==> e == Some(
                MarketError::ListingNotActive,
            )
        }),
{
}

/// Only the owner of an existing, evolvable artwork may evolve it, and a
/// positive evolution fee in force is paid, whole, by the evolver to the
/// treasury in the token named; no fee means no payment.
pub proof fn lemma_evolution_refusals_and_fee(
    s: MarketView,
    evolver: Address,
    token_id: u64,
    now: u64,
    payment_token: Address,
)
    ensures
        !s.ownership.contains_key(token_id) ==> s.evolve_error(evolver@, token_id, now) == Some(
            MarketError::TokenNotFound,
        ),
        s.ownership.contains_key(token_id) && s.ownership[token_id]@ != evolver@ ==> s.evolve_error(
            evolver@,
            token_id,
            now,
        ) == Some(MarketError::NotTokenOwner),
        s.ownership.contains_key(token_id) && s.ownership[token_id]@ == evolver@
            && s.artworks.contains_key(token_id) && !s.artworks[token_id].can_evolve ==> s.evolve_error(
            evolver@,
            token_id,
            now,
        ) == Some(MarketError::ArtworkCannotEvolve),
        s.evolution_fee_due() > 0 ==> s.evolve_transfers(evolver, payment_token) == seq![
            Transfer {
                token: payment_token,
                from: evolver,
                to: s.treasury.unwrap(),
                amount: s.evolution_fee_due(),
            },
        ],
        s.evolution_fee_due() <= 0 ==> s.evolve_transfers(evolver, payment_token) == Seq::<
            Transfer,
        >::empty(),
{
}

} // verus!
