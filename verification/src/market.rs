//! The marketplace's state and the operations on it.
//!
//! `WutaWutaMarketplace` holds, entry by entry, what the contract keeps in
//! its storage.  Each operation checks its request in a fixed order and
//! either refuses it with the first failed check, leaving the state as it
//! was, or applies it and returns the token transfers that the host must
//! carry out.  `MarketView` is the mathematical model of the state; the
//! `MarketView` methods below say, for each operation, which error comes on
//! which request and what the state becomes.

use vstd::prelude::*;
use vstd::hash_map::{HashMapWithView, StringHashMap};
use crate::types::{
    Address, Artwork, AuctionEscrow, AuctionSettlement, Bid, Evolution, Listing, MarketError,
    Payout, RoyaltyPayment, Transfer,
};
use crate::rules::{
    deactivate_bids_of, end_time, end_time_of, has_live_bid, history_after_outbid,
    latest_live_bid, latest_live_bid_at, min_bid, min_bid_of, payout_of, remaining, remaining_of,
    remove_token, split_sale, without_token,
};

verus! {

broadcast use vstd::std_specs::hash::group_hash_axioms;

/// Highest royalty an artwork may carry, in basis points (10%).
pub const MAX_ROYALTY_BPS: u32 = 1000;

/// Highest marketplace fee the admin may set, in basis points (10%).
pub const MAX_MARKETPLACE_FEE_BPS: u32 = 1000;

/// Longest a listing may run, in seconds (30 days).
pub const MAX_LISTING_DURATION: u64 = 2_592_000;

/// Marketplace fee charged when none was ever stored, in basis points.
pub const DEFAULT_MARKETPLACE_FEE_BPS: u32 = 250;

/// Evolution fee charged when none was ever stored.
pub const DEFAULT_EVOLUTION_FEE: i128 = 1_000_000;

/// Least time between minting and a first evolution when none was stored.
pub const DEFAULT_MIN_EVOLUTION_INTERVAL: u64 = 86_400;

/// Collaborative artworks must have contributions that add up to this.
pub const FULL_CONTRIBUTION: u32 = 100;

/// The contract's storage, one field per kind of entry.  An absent entry is
/// `None` or a missing key.
pub struct WutaWutaMarketplace {
    pub admin: Option<Address>,
    pub nft_counter: Option<u64>,
    pub marketplace_fee: Option<u32>,
    pub treasury: Option<Address>,
    pub evolution_fee: Option<i128>,
    pub min_evolution_interval: Option<u64>,
    /// Token ids per holder, keyed by the holder's strkey.
    pub creator_tokens: StringHashMap<Vec<u64>>,
    pub artworks: HashMapWithView<u64, Artwork>,
    pub listings: HashMapWithView<u64, Listing>,
    pub ownership: HashMapWithView<u64, Address>,
    pub auction_bids: HashMapWithView<u64, Vec<Bid>>,
    pub escrows: HashMapWithView<u64, AuctionEscrow>,
    pub evolutions: HashMapWithView<u64, Vec<Evolution>>,
    pub royalty_history: Vec<RoyaltyPayment>,
}

/// The mathematical model of the marketplace's storage.
#[verifier::ext_equal]
pub struct MarketView {
    pub admin: Option<Address>,
    pub nft_counter: Option<u64>,
    pub marketplace_fee: Option<u32>,
    pub treasury: Option<Address>,
    pub evolution_fee: Option<i128>,
    pub min_evolution_interval: Option<u64>,
    pub creator_tokens: Map<Seq<char>, Seq<u64>>,
    pub artworks: Map<u64, Artwork>,
    pub listings: Map<u64, Listing>,
    pub ownership: Map<u64, Address>,
    pub auction_bids: Map<u64, Seq<Bid>>,
    pub escrows: Map<u64, AuctionEscrow>,
    pub evolutions: Map<u64, Seq<Evolution>>,
    pub royalty_history: Seq<RoyaltyPayment>,
}

/// The contents of a vector, as a function on vectors.
pub open spec fn contents_of<T>() -> spec_fn(Vec<T>) -> Seq<T> {
    |v: Vec<T>| v@
}

impl View for WutaWutaMarketplace {
    type V = MarketView;

    open spec fn view(&self) -> MarketView {
        MarketView {
            admin: self.admin,
            nft_counter: self.nft_counter,
            marketplace_fee: self.marketplace_fee,
            treasury: self.treasury,
            evolution_fee: self.evolution_fee,
            min_evolution_interval: self.min_evolution_interval,
            creator_tokens: self.creator_tokens@.map_values(contents_of::<u64>()),
            artworks: self.artworks@,
            listings: self.listings@,
            ownership: self.ownership@,
            auction_bids: self.auction_bids@.map_values(contents_of::<Bid>()),
            escrows: self.escrows@,
            evolutions: self.evolutions@.map_values(contents_of::<Evolution>()),
            royalty_history: self.royalty_history@,
        }
    }
}

proof fn lemma_map_values_insert<K, V, W>(m: Map<K, V>, k: K, v: V, f: spec_fn(V) -> W)
    ensures
        m.insert(k, v).map_values(f) == m.map_values(f).insert(k, f(v)),
{
    assert(m.insert(k, v).map_values(f) =~= m.map_values(f).insert(k, f(v)));
}

impl MarketView {
    /// The storage of a contract that was never initialised.
    pub open spec fn empty() -> MarketView {
        MarketView {
            admin: None,
            nft_counter: None,
            marketplace_fee: None,
            treasury: None,
            evolution_fee: None,
            min_evolution_interval: None,
            creator_tokens: Map::empty(),
            artworks: Map::empty(),
            listings: Map::empty(),
            ownership: Map::empty(),
            auction_bids: Map::empty(),
            escrows: Map::empty(),
            evolutions: Map::empty(),
            royalty_history: Seq::empty(),
        }
    }

    /// The marketplace fee in force, in basis points.
    pub open spec fn fee_rate(self) -> u32 {
        match self.marketplace_fee {
            Some(f) => f,
            None => DEFAULT_MARKETPLACE_FEE_BPS,
        }
    }

    /// The evolution fee in force.
    pub open spec fn evolution_fee_due(self) -> i128 {
        match self.evolution_fee {
            Some(f) => f,
            None => DEFAULT_EVOLUTION_FEE,
        }
    }

    /// The least time between minting and evolving, in seconds.
    pub open spec fn evolution_interval(self) -> u64 {
        match self.min_evolution_interval {
            Some(i) => i,
            None => DEFAULT_MIN_EVOLUTION_INTERVAL,
        }
    }

    /// The number of tokens minted so far.
    pub open spec fn minted_count(self) -> u64 {
        match self.nft_counter {
            Some(c) => c,
            None => 0,
        }
    }

    /// The id the next minted token gets.
    pub open spec fn next_token_id(self) -> u64 {
        (self.minted_count() + 1) as u64
    }

    /// The tokens listed for holder `who` (none where nothing is stored).
    pub open spec fn tokens_of(self, who: Seq<char>) -> Seq<u64> {
        if self.creator_tokens.contains_key(who) {
            self.creator_tokens[who]
        } else {
            Seq::empty()
        }
    }

    /// The bid history of a token (empty where nothing is stored).
    pub open spec fn bids_of(self, token_id: u64) -> Seq<Bid> {
        if self.auction_bids.contains_key(token_id) {
            self.auction_bids[token_id]
        } else {
            Seq::empty()
        }
    }

    /// The evolutions of a token (empty where nothing is stored).
    pub open spec fn evolutions_of(self, token_id: u64) -> Seq<Evolution> {
        if self.evolutions.contains_key(token_id) {
            self.evolutions[token_id]
        } else {
            Seq::empty()
        }
    }

    /// Ownership of `token_id` passes to `to`; the token leaves `from`'s list
    /// and is appended to `to`'s list (in that order, so when `from` and `to`
    /// are one account the token ends up once, at the end of its list).
    pub open spec fn with_owner(self, token_id: u64, from: Address, to: Address) -> MarketView {
        let moved_out = MarketView {
            ownership: self.ownership.insert(token_id, to),
            creator_tokens: self.creator_tokens.insert(
                from@,
                without_token(self.tokens_of(from@), token_id),
            ),
            ..self
        };
        MarketView {
            creator_tokens: moved_out.creator_tokens.insert(
                to@,
                moved_out.tokens_of(to@).push(token_id),
            ),
            ..moved_out
        }
    }

    /// A royalty payment is appended to the royalty history.
    pub open spec fn with_royalty(self, token_id: u64, creator: Address, amount: i128, now: u64) -> MarketView {
        MarketView {
            royalty_history: self.royalty_history.push(
                RoyaltyPayment { token_id, creator, amount, timestamp: now },
            ),
            ..self
        }
    }

    /// The listing of `token_id` is active again, on the same terms,
    /// starting at `now`.
    pub open spec fn with_listing_restarted(self, token_id: u64, now: u64) -> MarketView {
        MarketView {
            listings: self.listings.insert(
                token_id,
                Listing { start_time: now, active: true, ..self.listings[token_id] },
            ),
            ..self
        }
    }

    /// The listing of `token_id` is kept but no longer active.
    pub open spec fn with_listing_closed(self, token_id: u64) -> MarketView {
        MarketView {
            listings: self.listings.insert(token_id, Listing { active: false, ..self.listings[token_id] }),
            ..self
        }
    }

    // ----- initialize -----

    pub open spec fn initialize_error(self) -> Option<MarketError> {
        if self.admin is Some {
            Some(MarketError::AlreadyInitialized)
        } else {
            None
        }
    }

    pub open spec fn initialized(
        self,
        admin: Address,
        marketplace_fee: u32,
        treasury: Address,
        evolution_fee: i128,
        min_evolution_interval: u64,
    ) -> MarketView {
        MarketView {
            admin: Some(admin),
            nft_counter: Some(0),
            marketplace_fee: Some(marketplace_fee),
            treasury: Some(treasury),
            evolution_fee: Some(evolution_fee),
            min_evolution_interval: Some(min_evolution_interval),
            ..self
        }
    }

    // ----- mint_artwork -----

    pub open spec fn mint_error(
        self,
        ipfs_hash: Seq<char>,
        title: Seq<char>,
        ai_model: Seq<char>,
        royalty_percentage: u32,
        is_collaborative: bool,
        ai_contribution: u32,
        human_contribution: u32,
    ) -> Option<MarketError> {
        if self.admin is None {
            Some(MarketError::NotInitialized)
        } else if ipfs_hash.len() == 0 {
            Some(MarketError::IpfsHashRequired)
        } else if title.len() == 0 {
            Some(MarketError::TitleRequired)
        } else if ai_model.len() == 0 {
            Some(MarketError::AiModelRequired)
        } else if royalty_percentage > MAX_ROYALTY_BPS {
            Some(MarketError::RoyaltyTooHigh)
        } else if is_collaborative && ai_contribution + human_contribution > u32::MAX {
            Some(MarketError::ArithmeticOverflow)
        } else if is_collaborative && ai_contribution + human_contribution != FULL_CONTRIBUTION {
            Some(MarketError::ContributionsMustSumTo100)
        } else if self.minted_count() == u64::MAX {
            Some(MarketError::ArithmeticOverflow)
        } else {
            None
        }
    }

    /// The token gets the next id, is recorded with its artwork, is owned by
    /// its creator and is appended to the creator's token list.
    pub open spec fn minted(
        self,
        creator: Address,
        ipfs_hash: String,
        title: String,
        description: String,
        ai_model: String,
        royalty_percentage: u32,
        is_collaborative: bool,
        ai_contribution: u32,
        human_contribution: u32,
        can_evolve: bool,
        now: u64,
    ) -> MarketView {
        let token_id = self.next_token_id();
        let artwork = Artwork {
            token_id,
            creator,
            ipfs_hash,
            title,
            description,
            ai_model,
            creation_timestamp: now,
            royalty_percentage,
            is_collaborative,
            ai_contribution,
            human_contribution,
            can_evolve,
            evolution_count: 0,
        };
        MarketView {
            nft_counter: Some(token_id),
            artworks: self.artworks.insert(token_id, artwork),
            ownership: self.ownership.insert(token_id, creator),
            creator_tokens: self.creator_tokens.insert(
                creator@,
                self.tokens_of(creator@).push(token_id),
            ),
            ..self
        }
    }

    // ----- list_artwork -----

    pub open spec fn list_error(
        self,
        seller: Seq<char>,
        token_id: u64,
        price: i128,
        duration: u64,
        auction_style: bool,
        reserve_price: Option<i128>,
    ) -> Option<MarketError> {
        if !self.ownership.contains_key(token_id) {
            Some(MarketError::TokenNotFound)
        } else if self.ownership[token_id]@ != seller {
            Some(MarketError::NotTokenOwner)
        } else if self.listings.contains_key(token_id) && self.listings[token_id].active {
            Some(MarketError::AlreadyListed)
        } else if price <= 0 {
            Some(MarketError::PriceNotPositive)
        } else if duration == 0 {
            Some(MarketError::DurationNotPositive)
        } else if duration > MAX_LISTING_DURATION {
            Some(MarketError::DurationTooLong)
        } else if auction_style && reserve_price is None {
            Some(MarketError::ReserveRequired)
        } else if auction_style && (reserve_price matches Some(r) && r <= 0) {
            Some(MarketError::ReserveNotPositive)
        } else {
            None
        }
    }

    // ----- sales (fixed price or settled auction) -----

    /// Why a sale of `token_id` at `price` cannot be settled, checked in order:
    /// no treasury, no artwork record, or amounts that leave `i128`.
    pub open spec fn sale_error(self, token_id: u64, price: i128) -> Option<MarketError> {
        if self.treasury is None {
            Some(MarketError::TreasuryNotSet)
        } else if !self.artworks.contains_key(token_id) {
            Some(MarketError::ArtworkNotFound)
        } else if payout_of(price, self.fee_rate(), self.artworks[token_id].royalty_percentage) is None {
            Some(MarketError::ArithmeticOverflow)
        } else {
            None
        }
    }

    /// The split of `price` at the fee in force and the artwork's royalty.
    pub open spec fn sale_payout(self, token_id: u64, price: i128) -> Payout {
        payout_of(price, self.fee_rate(), self.artworks[token_id].royalty_percentage).unwrap()
    }

    /// The payments of a sale, made by `payer`: the fee to the treasury, the
    /// royalty to the creator when it is positive, the rest to the seller.
    pub open spec fn sale_transfers(
        self,
        token_id: u64,
        payer: Address,
        price: i128,
        seller: Address,
        payment_token: Address,
    ) -> Seq<Transfer> {
        let p = self.sale_payout(token_id, price);
        let fee = Transfer {
            token: payment_token,
            from: payer,
            to: self.treasury.unwrap(),
            amount: p.fee_amount,
        };
        let royalty = Transfer {
            token: payment_token,
            from: payer,
            to: self.artworks[token_id].creator,
            amount: p.royalty_amount,
        };
        let rest = Transfer { token: payment_token, from: payer, to: seller, amount: p.seller_amount };
        if p.royalty_amount > 0 {
            seq![fee, royalty, rest]
        } else {
            seq![fee, rest]
        }
    }

    /// The token passes from `seller` to `buyer`; a positive royalty is
    /// recorded for the creator.
    pub open spec fn sold(
        self,
        token_id: u64,
        seller: Address,
        buyer: Address,
        price: i128,
        now: u64,
    ) -> MarketView {
        let p = self.sale_payout(token_id, price);
        let moved = self.with_owner(token_id, seller, buyer);
        if p.royalty_amount > 0 {
            moved.with_royalty(token_id, self.artworks[token_id].creator, p.royalty_amount, now)
        } else {
            moved
        }
    }

    // ----- buy_artwork -----

    pub open spec fn buy_error(self, token_id: u64, now: u64) -> Option<MarketError> {
        if !self.listings.contains_key(token_id) {
            Some(MarketError::ListingNotFound)
        } else {
            let l = self.listings[token_id];
            if !l.active {
                Some(MarketError::ListingNotActive)
            } else if l.auction_style {
                Some(MarketError::UseAuctionFunctions)
            } else if end_time_of(l.start_time, l.duration) is None {
                Some(MarketError::ArithmeticOverflow)
            } else if now >= end_time_of(l.start_time, l.duration).unwrap() {
                Some(MarketError::ListingExpired)
            } else {
                self.sale_error(token_id, l.price)
            }
        }
    }

    /// The buyer pays the listing price; the token passes from the seller to
    /// the buyer and the listing closes.
    pub open spec fn bought(self, buyer: Address, token_id: u64, now: u64) -> MarketView {
        let l = self.listings[token_id];
        self.sold(token_id, l.seller, buyer, l.price, now).with_listing_closed(token_id)
    }

    // ----- make_bid -----

    /// The amount held in escrow for `token_id`, if any.
    pub open spec fn escrowed_amount(self, token_id: u64) -> Option<i128> {
        if self.escrows.contains_key(token_id) {
            Some(self.escrows[token_id].highest_amount)
        } else {
            None
        }
    }

    /// The least acceptable bid on `token_id` (see `min_bid_of`).
    pub open spec fn min_bid_for(self, token_id: u64) -> Option<i128> {
        let l = self.listings[token_id];
        min_bid_of(self.escrowed_amount(token_id), l.reserve_price, l.price)
    }

    pub open spec fn bid_error(self, token_id: u64, amount: i128, now: u64) -> Option<MarketError> {
        if !self.listings.contains_key(token_id) {
            Some(MarketError::ListingNotFound)
        } else {
            let l = self.listings[token_id];
            if !l.active {
                Some(MarketError::ListingNotActive)
            } else if !l.auction_style {
                Some(MarketError::NotAnAuction)
            } else if end_time_of(l.start_time, l.duration) is None {
                Some(MarketError::ArithmeticOverflow)
            } else if now >= end_time_of(l.start_time, l.duration).unwrap() {
                Some(MarketError::AuctionHasEnded)
            } else if self.min_bid_for(token_id) is None {
                Some(MarketError::ArithmeticOverflow)
            } else if amount < self.min_bid_for(token_id).unwrap() {
                Some(MarketError::BidTooLow)
            } else {
                None
            }
        }
    }

    /// The previous highest bidder, if any, gets the escrowed amount back in
    /// the escrowed token; then the new bid is pulled into escrow, held by
    /// `market`, in the token the bid names.
    pub open spec fn bid_transfers(
        self,
        bidder: Address,
        token_id: u64,
        amount: i128,
        payment_token: Address,
        market: Address,
    ) -> Seq<Transfer> {
        let pull = Transfer { token: payment_token, from: bidder, to: market, amount };
        if self.escrows.contains_key(token_id) {
            let e = self.escrows[token_id];
            seq![
                Transfer {
                    token: e.payment_token,
                    from: market,
                    to: e.highest_bidder,
                    amount: e.highest_amount,
                },
                pull,
            ]
        } else {
            seq![pull]
        }
    }

    /// The escrow now stands for the new bid; the outbid bidder's active
    /// bids are made inactive and the new bid is appended, active.
    pub open spec fn bid_placed(
        self,
        bidder: Address,
        token_id: u64,
        amount: i128,
        payment_token: Address,
        now: u64,
    ) -> MarketView {
        let history = if self.escrows.contains_key(token_id) {
            history_after_outbid(self.bids_of(token_id), self.escrows[token_id].highest_bidder@)
        } else {
            self.bids_of(token_id)
        };
        MarketView {
            escrows: self.escrows.insert(
                token_id,
                AuctionEscrow { token_id, highest_bidder: bidder, highest_amount: amount, payment_token },
            ),
            auction_bids: self.auction_bids.insert(
                token_id,
                history.push(Bid { token_id, bidder, amount, timestamp: now, active: true }),
            ),
            ..self
        }
    }

    // ----- end_auction -----

    /// The escrowed bid reaches the reserve (always so without a reserve).
    pub open spec fn reserve_met(self, token_id: u64) -> bool {
        match self.listings[token_id].reserve_price {
            Some(r) => self.escrows[token_id].highest_amount >= r,
            None => true,
        }
    }

    pub open spec fn end_error(self, token_id: u64, now: u64) -> Option<MarketError> {
        if !self.listings.contains_key(token_id) {
            Some(MarketError::ListingNotFound)
        } else {
            let l = self.listings[token_id];
            if !l.active {
                Some(MarketError::ListingNotActive)
            } else if !l.auction_style {
                Some(MarketError::NotAnAuction)
            } else if end_time_of(l.start_time, l.duration) is None {
                Some(MarketError::ArithmeticOverflow)
            } else if now < end_time_of(l.start_time, l.duration).unwrap() {
                Some(MarketError::AuctionNotEnded)
            } else if self.escrows.contains_key(token_id) && self.reserve_met(token_id) {
                self.sale_error(token_id, self.escrows[token_id].highest_amount)
            } else {
                None
            }
        }
    }

    pub open spec fn end_settlement(self, token_id: u64) -> AuctionSettlement {
        if !self.escrows.contains_key(token_id) {
            AuctionSettlement::NoBids
        } else {
            let e = self.escrows[token_id];
            if self.reserve_met(token_id) {
                AuctionSettlement::Sold {
                    winner: e.highest_bidder,
                    amount: e.highest_amount,
                    payout: self.sale_payout(token_id, e.highest_amount),
                }
            } else {
                AuctionSettlement::ReserveNotMet { bidder: e.highest_bidder, amount: e.highest_amount }
            }
        }
    }

    /// With the reserve met the escrow pays fee, royalty and seller; without
    /// it the escrow goes back to the bidder.
    pub open spec fn end_transfers(self, token_id: u64, market: Address) -> Seq<Transfer> {
        if !self.escrows.contains_key(token_id) {
            Seq::empty()
        } else {
            let e = self.escrows[token_id];
            if self.reserve_met(token_id) {
                self.sale_transfers(
                    token_id,
                    market,
                    e.highest_amount,
                    self.listings[token_id].seller,
                    e.payment_token,
                )
            } else {
                seq![
                    Transfer {
                        token: e.payment_token,
                        from: market,
                        to: e.highest_bidder,
                        amount: e.highest_amount,
                    },
                ]
            }
        }
    }

    /// The auction is settled; its bid history is kept as it is.  With the
    /// reserve met the token goes to the highest bidder and the listing
    /// closes; with the reserve unmet the token is listed again for the
    /// seller, on the same terms, starting now.  The escrow record is removed.
    pub open spec fn ended(self, token_id: u64, now: u64) -> MarketView {
        if !self.escrows.contains_key(token_id) {
            self.with_listing_closed(token_id)
        } else {
            let e = self.escrows[token_id];
            if self.reserve_met(token_id) {
                let settled = self.sold(
                    token_id,
                    self.listings[token_id].seller,
                    e.highest_bidder,
                    e.highest_amount,
                    now,
                );
                MarketView {
                    escrows: settled.escrows.remove(token_id),
                    ..settled
                }.with_listing_closed(token_id)
            } else {
                MarketView {
                    escrows: self.escrows.remove(token_id),
                    ..self
                }.with_listing_restarted(token_id, now)
            }
        }
    }

    // ----- cancel_listing -----

    pub open spec fn cancel_error(self, seller: Seq<char>, token_id: u64) -> Option<MarketError> {
        if !self.listings.contains_key(token_id) {
            Some(MarketError::ListingNotFound)
        } else if self.listings[token_id].seller@ != seller {
            Some(MarketError::NotTheSeller)
        } else if !self.listings[token_id].active {
            Some(MarketError::ListingNotActive)
        } else {
            None
        }
    }

    /// Cancelling refunds the escrow of an auction that has one.
    pub open spec fn refunds_on_cancel(self, token_id: u64) -> bool {
        self.listings[token_id].auction_style && self.escrows.contains_key(token_id)
    }

    pub open spec fn cancel_transfers(self, token_id: u64, market: Address) -> Seq<Transfer> {
        if self.refunds_on_cancel(token_id) {
            let e = self.escrows[token_id];
            seq![
                Transfer {
                    token: e.payment_token,
                    from: market,
                    to: e.highest_bidder,
                    amount: e.highest_amount,
                },
            ]
        } else {
            Seq::empty()
        }
    }

    /// The listing closes and an auction's escrow record is removed; the bid
    /// history is kept as it is.
    pub open spec fn cancelled(self, token_id: u64) -> MarketView {
        let refunded = if self.refunds_on_cancel(token_id) {
            MarketView { escrows: self.escrows.remove(token_id), ..self }
        } else {
            self
        };
        refunded.with_listing_closed(token_id)
    }

    // ----- evolve_artwork -----

    pub open spec fn evolve_error(self, evolver: Seq<char>, token_id: u64, now: u64) -> Option<MarketError> {
        if !self.ownership.contains_key(token_id) {
            Some(MarketError::TokenNotFound)
        } else if self.ownership[token_id]@ != evolver {
            Some(MarketError::NotTokenOwner)
        } else if !self.artworks.contains_key(token_id) {
            Some(MarketError::ArtworkNotFound)
        } else {
            let a = self.artworks[token_id];
            if !a.can_evolve {
                Some(MarketError::ArtworkCannotEvolve)
            } else if end_time_of(a.creation_timestamp, self.evolution_interval()) is None {
                Some(MarketError::ArithmeticOverflow)
            } else if now < end_time_of(a.creation_timestamp, self.evolution_interval()).unwrap() {
                Some(MarketError::EvolutionIntervalNotMet)
            } else if self.evolution_fee_due() > 0 && self.treasury is None {
                Some(MarketError::TreasuryNotSet)
            } else if a.evolution_count == u32::MAX {
                Some(MarketError::ArithmeticOverflow)
            } else {
                None
            }
        }
    }

    pub open spec fn next_evolution_id(self, token_id: u64) -> u32 {
        (self.artworks[token_id].evolution_count + 1) as u32
    }

    /// A positive evolution fee is paid by the evolver to the treasury.
    pub open spec fn evolve_transfers(self, evolver: Address, payment_token: Address) -> Seq<Transfer> {
        if self.evolution_fee_due() > 0 {
            seq![
                Transfer {
                    token: payment_token,
                    from: evolver,
                    to: self.treasury.unwrap(),
                    amount: self.evolution_fee_due(),
                },
            ]
        } else {
            Seq::empty()
        }
    }

    /// The evolution is appended to the token's evolutions and the artwork's
    /// evolution count becomes its id.
    pub open spec fn evolved(
        self,
        evolver: Address,
        token_id: u64,
        prompt: String,
        new_ipfs_hash: String,
        now: u64,
    ) -> MarketView {
        let id = self.next_evolution_id(token_id);
        MarketView {
            evolutions: self.evolutions.insert(
                token_id,
                self.evolutions_of(token_id).push(
                    Evolution {
                        token_id,
                        evolution_id: id,
                        evolver,
                        prompt,
                        new_ipfs_hash,
                        timestamp: now,
                    },
                ),
            ),
            artworks: self.artworks.insert(
                token_id,
                Artwork { evolution_count: id, ..self.artworks[token_id] },
            ),
            ..self
        }
    }

    /// A new active listing, starting now, replaces any earlier one.
    pub open spec fn listed(
        self,
        seller: Address,
        token_id: u64,
        price: i128,
        duration: u64,
        auction_style: bool,
        reserve_price: Option<i128>,
        now: u64,
    ) -> MarketView {
        MarketView {
            listings: self.listings.insert(
                token_id,
                Listing {
                    token_id,
                    seller,
                    price,
                    start_time: now,
                    duration,
                    active: true,
                    auction_style,
                    reserve_price,
                },
            ),
            ..self
        }
    }
}

impl WutaWutaMarketplace {
    /// The storage of a contract that was never initialised.
    pub fn new() -> (m: WutaWutaMarketplace)
        ensures
            m@ == MarketView::empty(),
    {
        let m = WutaWutaMarketplace {
            admin: None,
            nft_counter: None,
            marketplace_fee: None,
            treasury: None,
            evolution_fee: None,
            min_evolution_interval: None,
            creator_tokens: StringHashMap::new(),
            artworks: HashMapWithView::new(),
            listings: HashMapWithView::new(),
            ownership: HashMapWithView::new(),
            auction_bids: HashMapWithView::new(),
            escrows: HashMapWithView::new(),
            evolutions: HashMapWithView::new(),
            royalty_history: Vec::new(),
        };
        assert(m@ =~= MarketView::empty());
        m
    }

    // ----- storage helpers -----

    fn stored_tokens_of(&self, who: &Address) -> (r: Vec<u64>)
        ensures
            r@ == self@.tokens_of(who@),
    {
        match self.creator_tokens.get(who.strkey.as_str()) {
            Some(v) => v.clone(),
            None => Vec::new(),
        }
    }

    fn stored_bids_of(&self, token_id: u64) -> (r: Vec<Bid>)
        ensures
            r@ == self@.bids_of(token_id),
    {
        match self.auction_bids.get(&token_id) {
            Some(v) => v.clone(),
            None => Vec::new(),
        }
    }

    fn stored_evolutions_of(&self, token_id: u64) -> (r: Vec<Evolution>)
        ensures
            r@ == self@.evolutions_of(token_id),
    {
        match self.evolutions.get(&token_id) {
            Some(v) => v.clone(),
            None => Vec::new(),
        }
    }

    fn store_tokens_of(&mut self, who: &Address, tokens: Vec<u64>)
        ensures
            final(self)@ == (MarketView {
                creator_tokens: old(self)@.creator_tokens.insert(who@, tokens@),
                ..old(self)@
            }),
    {
        let ghost before = self.creator_tokens@;
        let ghost stored = tokens;
        self.creator_tokens.insert(who.strkey.clone(), tokens);
        proof {
            lemma_map_values_insert(before, who@, stored, contents_of::<u64>());
        }
        assert(self@ =~= (MarketView {
            creator_tokens: old(self)@.creator_tokens.insert(who@, stored@),
            ..old(self)@
        }));
    }

    fn store_bids_of(&mut self, token_id: u64, bids: Vec<Bid>)
        ensures
            final(self)@ == (MarketView {
                auction_bids: old(self)@.auction_bids.insert(token_id, bids@),
                ..old(self)@
            }),
    {
        let ghost before = self.auction_bids@;
        let ghost stored = bids;
        self.auction_bids.insert(token_id, bids);
        proof {
            lemma_map_values_insert(before, token_id, stored, contents_of::<Bid>());
        }
        assert(self@ =~= (MarketView {
            auction_bids: old(self)@.auction_bids.insert(token_id, stored@),
            ..old(self)@
        }));
    }

    fn store_evolutions_of(&mut self, token_id: u64, evolutions: Vec<Evolution>)
        ensures
            final(self)@ == (MarketView {
                evolutions: old(self)@.evolutions.insert(token_id, evolutions@),
                ..old(self)@
            }),
    {
        let ghost before = self.evolutions@;
        let ghost stored = evolutions;
        self.evolutions.insert(token_id, evolutions);
        proof {
            lemma_map_values_insert(before, token_id, stored, contents_of::<Evolution>());
        }
        assert(self@ =~= (MarketView {
            evolutions: old(self)@.evolutions.insert(token_id, stored@),
            ..old(self)@
        }));
    }

    fn get_admin(&self) -> (r: Result<Address, MarketError>)
        ensures
            r == (match self@.admin {
                Some(a) => Ok::<Address, MarketError>(a),
                None => Err(MarketError::NotInitialized),
            }),
    {
        match &self.admin {
            Some(a) => Ok(a.clone()),
            None => Err(MarketError::NotInitialized),
        }
    }

    fn get_marketplace_fee(&self) -> (r: u32)
        ensures
            r == self@.fee_rate(),
    {
        match self.marketplace_fee {
            Some(f) => f,
            None => DEFAULT_MARKETPLACE_FEE_BPS,
        }
    }

    fn get_treasury(&self) -> (r: Result<Address, MarketError>)
        ensures
            r == (match self@.treasury {
                Some(a) => Ok::<Address, MarketError>(a),
                None => Err(MarketError::TreasuryNotSet),
            }),
    {
        match &self.treasury {
            Some(a) => Ok(a.clone()),
            None => Err(MarketError::TreasuryNotSet),
        }
    }

    fn get_evolution_fee(&self) -> (r: i128)
        ensures
            r == self@.evolution_fee_due(),
    {
        match self.evolution_fee {
            Some(f) => f,
            None => DEFAULT_EVOLUTION_FEE,
        }
    }

    fn get_min_evolution_interval(&self) -> (r: u64)
        ensures
            r == self@.evolution_interval(),
    {
        match self.min_evolution_interval {
            Some(i) => i,
            None => DEFAULT_MIN_EVOLUTION_INTERVAL,
        }
    }

    fn increment_nft_counter(&mut self) -> (r: u64)
        requires
            old(self)@.minted_count() < u64::MAX,
        ensures
            r == old(self)@.next_token_id(),
            final(self)@ == (MarketView { nft_counter: Some(r), ..old(self)@ }),
    {
        let counter = match self.nft_counter {
            Some(c) => c,
            None => 0,
        };
        let next = counter + 1;
        self.nft_counter = Some(next);
        next
    }

    fn transfer_token_ownership(&mut self, token_id: u64, from: &Address, to: &Address)
        ensures
            final(self)@ == old(self)@.with_owner(token_id, *from, *to),
    {
        self.ownership.insert(token_id, to.clone());
        let old_tokens = self.stored_tokens_of(from);
        let filtered = remove_token(&old_tokens, token_id);
        self.store_tokens_of(from, filtered);
        let mut new_tokens = self.stored_tokens_of(to);
        new_tokens.push(token_id);
        self.store_tokens_of(to, new_tokens);
        assert(self@ =~= old(self)@.with_owner(token_id, *from, *to));
    }

    fn record_royalty_payment(&mut self, token_id: u64, creator: Address, amount: i128, now: u64)
        ensures
            final(self)@ == old(self)@.with_royalty(token_id, creator, amount, now),
    {
        let ghost who = creator;
        self.royalty_history.push(RoyaltyPayment { token_id, creator, amount, timestamp: now });
        assert(self@ =~= old(self)@.with_royalty(token_id, who, amount, now));
    }

    fn restart_listing(&mut self, token_id: u64, listing: &Listing, now: u64)
        requires
            old(self)@.listings.contains_key(token_id),
            old(self)@.listings[token_id] == *listing,
        ensures
            final(self)@ == old(self)@.with_listing_restarted(token_id, now),
    {
        let mut restarted = listing.clone();
        restarted.start_time = now;
        restarted.active = true;
        self.listings.insert(token_id, restarted);
        assert(self@ =~= old(self)@.with_listing_restarted(token_id, now));
    }

    fn close_listing(&mut self, token_id: u64, listing: &Listing)
        requires
            old(self)@.listings.contains_key(token_id),
            old(self)@.listings[token_id] == *listing,
        ensures
            final(self)@ == old(self)@.with_listing_closed(token_id),
    {
        let mut closed = listing.clone();
        closed.active = false;
        self.listings.insert(token_id, closed);
        assert(self@ =~= old(self)@.with_listing_closed(token_id));
    }

    /// Stores the admin, the fee settings and the treasury, and sets the
    /// token counter to 0.  Refused once an admin is stored.
    pub fn initialize(
        &mut self,
        admin: Address,
        marketplace_fee: u32,
        treasury: Address,
        evolution_fee: i128,
        min_evolution_interval: u64,
    ) -> (r: Result<(), MarketError>)
        ensures
            old(self)@.initialize_error() matches Some(e) ==> r == Err::<(), MarketError>(e)
                && final(self)@ == old(self)@,
            old(self)@.initialize_error() is None ==> r is Ok && final(self)@ == old(self)@.initialized(
                admin,
                marketplace_fee,
                treasury,
                evolution_fee,
                min_evolution_interval,
            ),
    {
        if self.admin.is_some() {
            return Err(MarketError::AlreadyInitialized);
        }
        self.admin = Some(admin);
        self.nft_counter = Some(0);
        self.marketplace_fee = Some(marketplace_fee);
        self.treasury = Some(treasury);
        self.evolution_fee = Some(evolution_fee);
        self.min_evolution_interval = Some(min_evolution_interval);
        Ok(())
    }

    /// Mints a new artwork token for `creator` (the admin authorises this).
    pub fn mint_artwork(
        &mut self,
        creator: Address,
        ipfs_hash: String,
        title: String,
        description: String,
        ai_model: String,
        royalty_percentage: u32,
        is_collaborative: bool,
        ai_contribution: u32,
        human_contribution: u32,
        can_evolve: bool,
        now: u64,
    ) -> (r: Result<u64, MarketError>)
        ensures
            old(self)@.mint_error(
                ipfs_hash@,
                title@,
                ai_model@,
                royalty_percentage,
                is_collaborative,
                ai_contribution,
                human_contribution,
            ) matches Some(e) ==> r == Err::<u64, MarketError>(e) && final(self)@ == old(self)@,
            old(self)@.mint_error(
                ipfs_hash@,
                title@,
                ai_model@,
                royalty_percentage,
                is_collaborative,
                ai_contribution,
                human_contribution,
            ) is None ==> r == Ok::<u64, MarketError>(old(self)@.next_token_id()) && final(self)@
                == old(self)@.minted(
                creator,
                ipfs_hash,
                title,
                description,
                ai_model,
                royalty_percentage,
                is_collaborative,
                ai_contribution,
                human_contribution,
                can_evolve,
                now,
            ),
    {
        if let Err(e) = self.get_admin() {
            return Err(e);
        }
        if ipfs_hash.as_str().is_empty() {
            return Err(MarketError::IpfsHashRequired);
        }
        if title.as_str().is_empty() {
            return Err(MarketError::TitleRequired);
        }
        if ai_model.as_str().is_empty() {
            return Err(MarketError::AiModelRequired);
        }
        if royalty_percentage > MAX_ROYALTY_BPS {
            return Err(MarketError::RoyaltyTooHigh);
        }
        if is_collaborative {
            match ai_contribution.checked_add(human_contribution) {
                None => {
                    return Err(MarketError::ArithmeticOverflow);
                },
                Some(sum) => {
                    if sum != FULL_CONTRIBUTION {
                        return Err(MarketError::ContributionsMustSumTo100);
                    }
                },
            }
        }
        let counter = match self.nft_counter {
            Some(c) => c,
            None => 0,
        };
        if counter == u64::MAX {
            return Err(MarketError::ArithmeticOverflow);
        }
        let ghost start = self@;
        let token_id = self.increment_nft_counter();
        let artwork = Artwork {
            token_id,
            creator: creator.clone(),
            ipfs_hash,
            title,
            description,
            ai_model,
            creation_timestamp: now,
            royalty_percentage,
            is_collaborative,
            ai_contribution,
            human_contribution,
            can_evolve,
            evolution_count: 0,
        };
        self.artworks.insert(token_id, artwork);
        self.ownership.insert(token_id, creator.clone());
        let mut tokens = self.stored_tokens_of(&creator);
        tokens.push(token_id);
        self.store_tokens_of(&creator, tokens);
        assert(self@ =~= start.minted(
            creator,
            ipfs_hash,
            title,
            description,
            ai_model,
            royalty_percentage,
            is_collaborative,
            ai_contribution,
            human_contribution,
            can_evolve,
            now,
        ));
        Ok(token_id)
    }

    /// Puts a token up for sale, at a fixed price or by auction (the seller
    /// authorises this).
    pub fn list_artwork(
        &mut self,
        seller: Address,
        token_id: u64,
        price: i128,
        duration: u64,
        auction_style: bool,
        reserve_price: Option<i128>,
        now: u64,
    ) -> (r: Result<(), MarketError>)
        ensures
            old(self)@.list_error(seller@, token_id, price, duration, auction_style, reserve_price)
                matches Some(e) ==> r == Err::<(), MarketError>(e) && final(self)@ == old(self)@,
            old(self)@.list_error(seller@, token_id, price, duration, auction_style, reserve_price)
                is None ==> r is Ok && final(self)@ == old(self)@.listed(
                seller,
                token_id,
                price,
                duration,
                auction_style,
                reserve_price,
                now,
            ),
    {
        match self.ownership.get(&token_id) {
            None => {
                return Err(MarketError::TokenNotFound);
            },
            Some(owner) => {
                if !owner.same_as(&seller) {
                    return Err(MarketError::NotTokenOwner);
                }
            },
        }
        match self.listings.get(&token_id) {
            Some(existing) => {
                if existing.active {
                    return Err(MarketError::AlreadyListed);
                }
            },
            None => {},
        }
        if price <= 0 {
            return Err(MarketError::PriceNotPositive);
        }
        if duration == 0 {
            return Err(MarketError::DurationNotPositive);
        }
        if duration > MAX_LISTING_DURATION {
            return Err(MarketError::DurationTooLong);
        }
        if auction_style {
            match reserve_price {
                None => {
                    return Err(MarketError::ReserveRequired);
                },
                Some(r) => {
                    if r <= 0 {
                        return Err(MarketError::ReserveNotPositive);
                    }
                },
            }
        }
        let ghost start = self@;
        let ghost who = seller;
        let listing = Listing {
            token_id,
            seller,
            price,
            start_time: now,
            duration,
            active: true,
            auction_style,
            reserve_price,
        };
        self.listings.insert(token_id, listing);
        assert(self@ =~= start.listed(who, token_id, price, duration, auction_style, reserve_price, now));
        Ok(())
    }

    /// The split and the payments of a sale of `token_id` at `price`.
    fn sale_terms(
        &self,
        token_id: u64,
        payer: &Address,
        price: i128,
        seller: &Address,
        payment_token: &Address,
    ) -> (r: Result<(Payout, Vec<Transfer>), MarketError>)
        ensures
            self@.sale_error(token_id, price) matches Some(e) ==> r == Err::<
                (Payout, Vec<Transfer>),
                MarketError,
            >(e),
            self@.sale_error(token_id, price) is None ==> (r matches Ok((p, ts)) && p
                == self@.sale_payout(token_id, price) && ts@ == self@.sale_transfers(
                token_id,
                *payer,
                price,
                *seller,
                *payment_token,
            )),
    {
        let fee_rate = self.get_marketplace_fee();
        let treasury = match self.get_treasury() {
            Ok(t) => t,
            Err(e) => {
                return Err(e);
            },
        };
        let artwork = match self.artworks.get(&token_id) {
            Some(a) => a,
            None => {
                return Err(MarketError::ArtworkNotFound);
            },
        };
        let payout = match split_sale(price, fee_rate, artwork.royalty_percentage) {
            Some(p) => p,
            None => {
                return Err(MarketError::ArithmeticOverflow);
            },
        };
        let mut transfers: Vec<Transfer> = Vec::new();
        transfers.push(
            Transfer {
                token: payment_token.clone(),
                from: payer.clone(),
                to: treasury,
                amount: payout.fee_amount,
            },
        );
        if payout.royalty_amount > 0 {
            transfers.push(
                Transfer {
                    token: payment_token.clone(),
                    from: payer.clone(),
                    to: artwork.creator.clone(),
                    amount: payout.royalty_amount,
                },
            );
        }
        transfers.push(
            Transfer {
                token: payment_token.clone(),
                from: payer.clone(),
                to: seller.clone(),
                amount: payout.seller_amount,
            },
        );
        assert(transfers@ =~= self@.sale_transfers(token_id, *payer, price, *seller, *payment_token));
        Ok((payout, transfers))
    }

    /// Passes the token to the buyer and records a positive royalty.
    fn complete_sale(
        &mut self,
        token_id: u64,
        seller: &Address,
        buyer: &Address,
        price: i128,
        payout: Payout,
        now: u64,
    )
        requires
            old(self)@.sale_error(token_id, price) is None,
            payout == old(self)@.sale_payout(token_id, price),
        ensures
            final(self)@ == old(self)@.sold(token_id, *seller, *buyer, price, now),
    {
        let ghost start = self@;
        let creator = match self.artworks.get(&token_id) {
            Some(a) => a.creator.clone(),
            None => {
                assert(false);
                return;
            },
        };
        self.transfer_token_ownership(token_id, seller, buyer);
        if payout.royalty_amount > 0 {
            self.record_royalty_payment(token_id, creator, payout.royalty_amount, now);
        }
    }

    /// Buys a token listed at a fixed price (the buyer authorises this).
    pub fn buy_artwork(&mut self, buyer: Address, token_id: u64, payment_token: Address, now: u64) -> (r:
        Result<(Payout, Vec<Transfer>), MarketError>)
        ensures
            old(self)@.buy_error(token_id, now) matches Some(e) ==> r == Err::<
                (Payout, Vec<Transfer>),
                MarketError,
            >(e) && final(self)@ == old(self)@,
            old(self)@.buy_error(token_id, now) is None ==> (r matches Ok((p, ts)) && p == old(
                self,
            )@.sale_payout(token_id, old(self)@.listings[token_id].price) && ts@ == old(
                self,
            )@.sale_transfers(
                token_id,
                buyer,
                old(self)@.listings[token_id].price,
                old(self)@.listings[token_id].seller,
                payment_token,
            ) && final(self)@ == old(self)@.bought(buyer, token_id, now)),
    {
        let listing = match self.listings.get(&token_id) {
            Some(l) => l.clone(),
            None => {
                return Err(MarketError::ListingNotFound);
            },
        };
        if !listing.active {
            return Err(MarketError::ListingNotActive);
        }
        if listing.auction_style {
            return Err(MarketError::UseAuctionFunctions);
        }
        let end = match end_time(listing.start_time, listing.duration) {
            Some(e) => e,
            None => {
                return Err(MarketError::ArithmeticOverflow);
            },
        };
        if now >= end {
            return Err(MarketError::ListingExpired);
        }
        let (payout, transfers) = match self.sale_terms(
            token_id,
            &buyer,
            listing.price,
            &listing.seller,
            &payment_token,
        ) {
            Ok(t) => t,
            Err(e) => {
                return Err(e);
            },
        };
        let ghost start = self@;
        self.complete_sale(token_id, &listing.seller, &buyer, listing.price, payout, now);
        self.close_listing(token_id, &listing);
        assert(self@ =~= start.bought(buyer, token_id, now));
        Ok((payout, transfers))
    }

    /// Places a bid on an auction; the bid is held in escrow by `market` and
    /// the bid it outbids is refunded (the bidder authorises this).
    pub fn make_bid(
        &mut self,
        bidder: Address,
        token_id: u64,
        amount: i128,
        payment_token: Address,
        market: &Address,
        now: u64,
    ) -> (r: Result<Vec<Transfer>, MarketError>)
        ensures
            old(self)@.bid_error(token_id, amount, now) matches Some(e) ==> r == Err::<
                Vec<Transfer>,
                MarketError,
            >(e) && final(self)@ == old(self)@,
            old(self)@.bid_error(token_id, amount, now) is None ==> (r matches Ok(ts) && ts@ == old(
                self,
            )@.bid_transfers(bidder, token_id, amount, payment_token, *market) && final(self)@
                == old(self)@.bid_placed(bidder, token_id, amount, payment_token, now)),
    {
        let listing = match self.listings.get(&token_id) {
            Some(l) => l.clone(),
            None => {
                return Err(MarketError::ListingNotFound);
            },
        };
        if !listing.active {
            return Err(MarketError::ListingNotActive);
        }
        if !listing.auction_style {
            return Err(MarketError::NotAnAuction);
        }
        let end = match end_time(listing.start_time, listing.duration) {
            Some(e) => e,
            None => {
                return Err(MarketError::ArithmeticOverflow);
            },
        };
        if now >= end {
            return Err(MarketError::AuctionHasEnded);
        }
        let previous: Option<AuctionEscrow> = match self.escrows.get(&token_id) {
            Some(e) => Some(e.clone()),
            None => None,
        };
        let highest: Option<i128> = match &previous {
            Some(e) => Some(e.highest_amount),
            None => None,
        };
        let min_required = match min_bid(highest, listing.reserve_price, listing.price) {
            Some(m) => m,
            None => {
                return Err(MarketError::ArithmeticOverflow);
            },
        };
        if amount < min_required {
            return Err(MarketError::BidTooLow);
        }
        let ghost start = self@;
        let mut transfers: Vec<Transfer> = Vec::new();
        match &previous {
            Some(e) => {
                transfers.push(
                    Transfer {
                        token: e.payment_token.clone(),
                        from: market.clone(),
                        to: e.highest_bidder.clone(),
                        amount: e.highest_amount,
                    },
                );
                let bids = self.stored_bids_of(token_id);
                let updated = deactivate_bids_of(&bids, &e.highest_bidder);
                self.store_bids_of(token_id, updated);
            },
            None => {},
        }
        transfers.push(
            Transfer {
                token: payment_token.clone(),
                from: bidder.clone(),
                to: market.clone(),
                amount,
            },
        );
        self.escrows.insert(
            token_id,
            AuctionEscrow {
                token_id,
                highest_bidder: bidder.clone(),
                highest_amount: amount,
                payment_token: payment_token.clone(),
            },
        );
        let mut bids = self.stored_bids_of(token_id);
        bids.push(Bid { token_id, bidder: bidder.clone(), amount, timestamp: now, active: true });
        self.store_bids_of(token_id, bids);
        assert(transfers@ =~= start.bid_transfers(bidder, token_id, amount, payment_token, *market));
        assert(self@ =~= start.bid_placed(bidder, token_id, amount, payment_token, now));
        Ok(transfers)
    }

    /// Closes an auction whose time is up (anyone may call this): the token
    /// goes to the highest bidder and the escrow pays out, or, with the
    /// reserve unmet, the escrow is refunded and the token is listed again
    /// for the seller.
    pub fn end_auction(&mut self, token_id: u64, market: &Address, now: u64) -> (r: Result<
        (AuctionSettlement, Vec<Transfer>),
        MarketError,
    >)
        ensures
            old(self)@.end_error(token_id, now) matches Some(e) ==> r == Err::<
                (AuctionSettlement, Vec<Transfer>),
                MarketError,
            >(e) && final(self)@ == old(self)@,
            old(self)@.end_error(token_id, now) is None ==> (r matches Ok((outcome, ts)) && outcome
                == old(self)@.end_settlement(token_id) && ts@ == old(self)@.end_transfers(
                token_id,
                *market,
            ) && final(self)@ == old(self)@.ended(token_id, now)),
    {
        let listing = match self.listings.get(&token_id) {
            Some(l) => l.clone(),
            None => {
                return Err(MarketError::ListingNotFound);
            },
        };
        if !listing.active {
            return Err(MarketError::ListingNotActive);
        }
        if !listing.auction_style {
            return Err(MarketError::NotAnAuction);
        }
        let end = match end_time(listing.start_time, listing.duration) {
            Some(e) => e,
            None => {
                return Err(MarketError::ArithmeticOverflow);
            },
        };
        if now < end {
            return Err(MarketError::AuctionNotEnded);
        }
        let ghost start = self@;
        let escrow = match self.escrows.get(&token_id) {
            Some(e) => e.clone(),
            None => {
                self.close_listing(token_id, &listing);
                return Ok((AuctionSettlement::NoBids, Vec::new()));
            },
        };
        let reserve_met = match listing.reserve_price {
            Some(r) => escrow.highest_amount >= r,
            None => true,
        };
        let mut transfers: Vec<Transfer>;
        let outcome: AuctionSettlement;
        if reserve_met {
            let (payout, paid) = match self.sale_terms(
                token_id,
                market,
                escrow.highest_amount,
                &listing.seller,
                &escrow.payment_token,
            ) {
                Ok(t) => t,
                Err(e) => {
                    return Err(e);
                },
            };
            self.complete_sale(
                token_id,
                &listing.seller,
                &escrow.highest_bidder,
                escrow.highest_amount,
                payout,
                now,
            );
            transfers = paid;
            outcome = AuctionSettlement::Sold {
                winner: escrow.highest_bidder.clone(),
                amount: escrow.highest_amount,
                payout,
            };
            self.escrows.remove(&token_id);
            self.close_listing(token_id, &listing);
        } else {
            transfers = Vec::new();
            transfers.push(
                Transfer {
                    token: escrow.payment_token.clone(),
                    from: market.clone(),
                    to: escrow.highest_bidder.clone(),
                    amount: escrow.highest_amount,
                },
            );
            outcome = AuctionSettlement::ReserveNotMet {
                bidder: escrow.highest_bidder.clone(),
                amount: escrow.highest_amount,
            };
            self.escrows.remove(&token_id);
            self.restart_listing(token_id, &listing, now);
        }
        assert(transfers@ =~= start.end_transfers(token_id, *market));
        assert(self@ =~= start.ended(token_id, now));
        Ok((outcome, transfers))
    }

    /// Withdraws an active listing; an auction's escrow is refunded to its
    /// highest bidder (the seller authorises this).
    pub fn cancel_listing(&mut self, seller: &Address, token_id: u64, market: &Address) -> (r: Result<
        Vec<Transfer>,
        MarketError,
    >)
        ensures
            old(self)@.cancel_error(seller@, token_id) matches Some(e) ==> r == Err::<
                Vec<Transfer>,
                MarketError,
            >(e) && final(self)@ == old(self)@,
            old(self)@.cancel_error(seller@, token_id) is None ==> (r matches Ok(ts) && ts@ == old(
                self,
            )@.cancel_transfers(token_id, *market) && final(self)@ == old(self)@.cancelled(
                token_id,
            )),
    {
        let listing = match self.listings.get(&token_id) {
            Some(l) => l.clone(),
            None => {
                return Err(MarketError::ListingNotFound);
            },
        };
        if !listing.seller.same_as(seller) {
            return Err(MarketError::NotTheSeller);
        }
        if !listing.active {
            return Err(MarketError::ListingNotActive);
        }
        let ghost start = self@;
        let mut transfers: Vec<Transfer> = Vec::new();
        if listing.auction_style {
            let escrow: Option<AuctionEscrow> = match self.escrows.get(&token_id) {
                Some(e) => Some(e.clone()),
                None => None,
            };
            match escrow {
                Some(e) => {
                    transfers.push(
                        Transfer {
                            token: e.payment_token.clone(),
                            from: market.clone(),
                            to: e.highest_bidder.clone(),
                            amount: e.highest_amount,
                        },
                    );
                    self.escrows.remove(&token_id);
                },
                None => {},
            }
        }
        self.close_listing(token_id, &listing);
        assert(transfers@ =~= start.cancel_transfers(token_id, *market));
        assert(self@ =~= start.cancelled(token_id));
        Ok(transfers)
    }

    /// Records a new evolution of an artwork and charges the evolution fee
    /// (the owner authorises this).
    pub fn evolve_artwork(
        &mut self,
        evolver: Address,
        token_id: u64,
        prompt: String,
        new_ipfs_hash: String,
        payment_token: Address,
        now: u64,
    ) -> (r: Result<(u32, Vec<Transfer>), MarketError>)
        ensures
            old(self)@.evolve_error(evolver@, token_id, now) matches Some(e) ==> r == Err::<
                (u32, Vec<Transfer>),
                MarketError,
            >(e) && final(self)@ == old(self)@,
            old(self)@.evolve_error(evolver@, token_id, now) is None ==> (r matches Ok((id, ts)) && id
                == old(self)@.next_evolution_id(token_id) && ts@ == old(self)@.evolve_transfers(
                evolver,
                payment_token,
            ) && final(self)@ == old(self)@.evolved(evolver, token_id, prompt, new_ipfs_hash, now)),
    {
        match self.ownership.get(&token_id) {
            None => {
                return Err(MarketError::TokenNotFound);
            },
            Some(owner) => {
                if !owner.same_as(&evolver) {
                    return Err(MarketError::NotTokenOwner);
                }
            },
        }
        let artwork = match self.artworks.get(&token_id) {
            Some(a) => a.clone(),
            None => {
                return Err(MarketError::ArtworkNotFound);
            },
        };
        if !artwork.can_evolve {
            return Err(MarketError::ArtworkCannotEvolve);
        }
        let min_interval = self.get_min_evolution_interval();
        let ready_at = match end_time(artwork.creation_timestamp, min_interval) {
            Some(t) => t,
            None => {
                return Err(MarketError::ArithmeticOverflow);
            },
        };
        if now < ready_at {
            return Err(MarketError::EvolutionIntervalNotMet);
        }
        let evolution_fee = self.get_evolution_fee();
        let mut transfers: Vec<Transfer> = Vec::new();
        if evolution_fee > 0 {
            let treasury = match self.get_treasury() {
                Ok(t) => t,
                Err(e) => {
                    return Err(e);
                },
            };
            transfers.push(
                Transfer {
                    token: payment_token.clone(),
                    from: evolver.clone(),
                    to: treasury,
                    amount: evolution_fee,
                },
            );
        }
        if artwork.evolution_count == u32::MAX {
            return Err(MarketError::ArithmeticOverflow);
        }
        let ghost start = self@;
        let evolution_id = artwork.evolution_count + 1;
        let mut evolutions = self.stored_evolutions_of(token_id);
        evolutions.push(
            Evolution {
                token_id,
                evolution_id,
                evolver: evolver.clone(),
                prompt,
                new_ipfs_hash,
                timestamp: now,
            },
        );
        self.store_evolutions_of(token_id, evolutions);
        let mut updated = artwork;
        updated.evolution_count = evolution_id;
        self.artworks.insert(token_id, updated);
        assert(transfers@ =~= start.evolve_transfers(evolver, payment_token));
        assert(self@ =~= start.evolved(evolver, token_id, prompt, new_ipfs_hash, now));
        Ok((evolution_id, transfers))
    }

    // ----- admin settings -----

    /// Sets the marketplace fee, at most 10% (the admin authorises this).
    pub fn update_marketplace_fee(&mut self, new_fee: u32) -> (r: Result<(), MarketError>)
        ensures
            old(self)@.admin is None ==> r == Err::<(), MarketError>(MarketError::NotInitialized)
                && final(self)@ == old(self)@,
            old(self)@.admin is Some && new_fee > MAX_MARKETPLACE_FEE_BPS ==> r == Err::<
                (),
                MarketError,
            >(MarketError::FeeTooHigh) && final(self)@ == old(self)@,
            old(self)@.admin is Some && new_fee <= MAX_MARKETPLACE_FEE_BPS ==> r is Ok
                && final(self)@ == (MarketView { marketplace_fee: Some(new_fee), ..old(self)@ }),
    {
        if let Err(e) = self.get_admin() {
            return Err(e);
        }
        if new_fee > MAX_MARKETPLACE_FEE_BPS {
            return Err(MarketError::FeeTooHigh);
        }
        self.marketplace_fee = Some(new_fee);
        Ok(())
    }

    /// Sets the evolution fee, which may not be negative (the admin
    /// authorises this).
    pub fn update_evolution_fee(&mut self, new_fee: i128) -> (r: Result<(), MarketError>)
        ensures
            old(self)@.admin is None ==> r == Err::<(), MarketError>(MarketError::NotInitialized)
                && final(self)@ == old(self)@,
            old(self)@.admin is Some && new_fee < 0 ==> r == Err::<(), MarketError>(
                MarketError::FeeNegative,
            ) && final(self)@ == old(self)@,
            old(self)@.admin is Some && new_fee >= 0 ==> r is Ok && final(self)@ == (MarketView {
                evolution_fee: Some(new_fee),
                ..old(self)@
            }),
    {
        if let Err(e) = self.get_admin() {
            return Err(e);
        }
        if new_fee < 0 {
            return Err(MarketError::FeeNegative);
        }
        self.evolution_fee = Some(new_fee);
        Ok(())
    }

    /// Sets the treasury account (the admin authorises this).
    pub fn update_treasury(&mut self, new_treasury: Address) -> (r: Result<(), MarketError>)
        ensures
            old(self)@.admin is None ==> r == Err::<(), MarketError>(MarketError::NotInitialized)
                && final(self)@ == old(self)@,
            old(self)@.admin is Some ==> r is Ok && final(self)@ == (MarketView {
                treasury: Some(new_treasury),
                ..old(self)@
            }),
    {
        if let Err(e) = self.get_admin() {
            return Err(e);
        }
        self.treasury = Some(new_treasury);
        Ok(())
    }

    // ----- queries -----

    /// The artwork record of a token.
    pub fn get_artwork(&self, token_id: u64) -> (r: Result<Artwork, MarketError>)
        ensures
            r == (if self@.artworks.contains_key(token_id) {
                Ok::<Artwork, MarketError>(self@.artworks[token_id])
            } else {
                Err(MarketError::ArtworkNotFound)
            }),
    {
        match self.artworks.get(&token_id) {
            Some(a) => Ok(a.clone()),
            None => Err(MarketError::ArtworkNotFound),
        }
    }

    /// The listing of a token, active or not.
    pub fn get_listing(&self, token_id: u64) -> (r: Result<Listing, MarketError>)
        ensures
            r == (if self@.listings.contains_key(token_id) {
                Ok::<Listing, MarketError>(self@.listings[token_id])
            } else {
                Err(MarketError::ListingNotFound)
            }),
    {
        match self.listings.get(&token_id) {
            Some(l) => Ok(l.clone()),
            None => Err(MarketError::ListingNotFound),
        }
    }

    /// Listings are not indexed, so no listing is enumerated here: callers
    /// look a listing up by its token with `get_listing`.
    pub fn get_active_listings(&self) -> (r: Vec<Listing>)
        ensures
            r@ == Seq::<Listing>::empty(),
    {
        Vec::new()
    }

    /// The current owner of a token.
    pub fn get_token_owner(&self, token_id: u64) -> (r: Result<Address, MarketError>)
        ensures
            r == (if self@.ownership.contains_key(token_id) {
                Ok::<Address, MarketError>(self@.ownership[token_id])
            } else {
                Err(MarketError::TokenNotFound)
            }),
    {
        match self.ownership.get(&token_id) {
            Some(o) => Ok(o.clone()),
            None => Err(MarketError::TokenNotFound),
        }
    }

    /// The tokens on `creator`'s list: those minted to or bought by the
    /// account and not sold on since.
    pub fn get_creator_tokens(&self, creator: &Address) -> (r: Vec<u64>)
        ensures
            r@ == self@.tokens_of(creator@),
    {
        self.stored_tokens_of(creator)
    }

    /// The escrow of an auction: `None` before any bid and after settlement.
    pub fn get_auction_escrow(&self, token_id: u64) -> (r: Option<AuctionEscrow>)
        ensures
            r == (if self@.escrows.contains_key(token_id) {
                Some(self@.escrows[token_id])
            } else {
                None
            }),
    {
        match self.escrows.get(&token_id) {
            Some(e) => Some(e.clone()),
            None => None,
        }
    }

    /// The current highest bid of an auction: the bid held in escrow, found
    /// as the latest live bid of the escrowed bidder for the escrowed amount.
    /// `None` while no bid is in escrow (before the first bid, and once the
    /// auction is settled or cancelled).
    pub fn get_highest_bid(&self, token_id: u64) -> (r: Option<Bid>)
        ensures
            !self@.escrows.contains_key(token_id) ==> r is None,
            self@.escrows.contains_key(token_id) ==> ({
                let e = self@.escrows[token_id];
                let h = self@.bids_of(token_id);
                &&& r is None <==> !has_live_bid(h, e.highest_bidder@, e.highest_amount)
                &&& r matches Some(b) ==> exists|i: int|
                    latest_live_bid_at(h, e.highest_bidder@, e.highest_amount, i) && b == h[i]
            }),
    {
        match self.escrows.get(&token_id) {
            None => None,
            Some(e) => {
                let bids = self.stored_bids_of(token_id);
                latest_live_bid(&bids, &e.highest_bidder, e.highest_amount)
            },
        }
    }

    /// The full bid history of a token, outbid bids included.
    pub fn get_token_bids(&self, token_id: u64) -> (r: Vec<Bid>)
        ensures
            r@ == self@.bids_of(token_id),
    {
        self.stored_bids_of(token_id)
    }

    /// Seconds until a listing ends, 0 once it has ended.
    pub fn get_time_remaining(&self, token_id: u64, now: u64) -> (r: Result<u64, MarketError>)
        ensures
            !self@.listings.contains_key(token_id) ==> r == Err::<u64, MarketError>(
                MarketError::ListingNotFound,
            ),
            self@.listings.contains_key(token_id) ==> r == (match end_time_of(
                self@.listings[token_id].start_time,
                self@.listings[token_id].duration,
            ) {
                Some(end) => Ok::<u64, MarketError>(remaining_of(end, now)),
                None => Err(MarketError::ArithmeticOverflow),
            }),
    {
        match self.listings.get(&token_id) {
            None => Err(MarketError::ListingNotFound),
            Some(l) => match end_time(l.start_time, l.duration) {
                Some(end) => Ok(remaining(end, now)),
                None => Err(MarketError::ArithmeticOverflow),
            },
        }
    }

    /// The evolutions recorded for a token, oldest first.
    pub fn get_evolutions(&self, token_id: u64) -> (r: Vec<Evolution>)
        ensures
            r@ == self@.evolutions_of(token_id),
    {
        self.stored_evolutions_of(token_id)
    }
}

} // verus!
