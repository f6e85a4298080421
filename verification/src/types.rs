//! The records the marketplace keeps, the failures it reports, and the token
//! movements it asks its host to carry out.

use vstd::prelude::*;

verus! {

/// An account or contract on the ledger, identified by its strkey
/// (`G...` for accounts, `C...` for contracts).
#[derive(Debug, PartialEq, Eq)]
pub struct Address {
    pub strkey: String,
}

impl View for Address {
    type V = Seq<char>;

    open spec fn view(&self) -> Seq<char> {
        self.strkey@
    }
}

impl Address {
    pub fn new(strkey: String) -> (a: Address)
        ensures
            a.strkey == strkey,
    {
        Address { strkey }
    }

    /// Two addresses are the same account when their strkeys agree.
    pub fn same_as(&self, other: &Address) -> (b: bool)
        ensures
            b == (self@ == other@),
    {
        self.strkey == other.strkey
    }
}

impl Clone for Address {
    fn clone(&self) -> (r: Self)
        ensures
            r == *self,
    {
        Address { strkey: self.strkey.clone() }
    }
}

/// A minted artwork.  `royalty_percentage` is in basis points (100 = 1%).
#[derive(Debug, PartialEq, Eq)]
pub struct Artwork {
    pub token_id: u64,
    pub creator: Address,
    pub ipfs_hash: String,
    pub title: String,
    pub description: String,
    pub ai_model: String,
    pub creation_timestamp: u64,
    pub royalty_percentage: u32,
    pub is_collaborative: bool,
    pub ai_contribution: u32,
    pub human_contribution: u32,
    pub can_evolve: bool,
    pub evolution_count: u32,
}

impl Clone for Artwork {
    fn clone(&self) -> (r: Self)
        ensures
            r == *self,
    {
        Artwork {
            token_id: self.token_id,
            creator: self.creator.clone(),
            ipfs_hash: self.ipfs_hash.clone(),
            title: self.title.clone(),
            description: self.description.clone(),
            ai_model: self.ai_model.clone(),
            creation_timestamp: self.creation_timestamp,
            royalty_percentage: self.royalty_percentage,
            is_collaborative: self.is_collaborative,
            ai_contribution: self.ai_contribution,
            human_contribution: self.human_contribution,
            can_evolve: self.can_evolve,
            evolution_count: self.evolution_count,
        }
    }
}

/// A sale offer for one token, either at a fixed price or as an auction.
#[derive(Debug, PartialEq, Eq)]
pub struct Listing {
    pub token_id: u64,
    pub seller: Address,
    pub price: i128,
    pub start_time: u64,
    pub duration: u64,
    pub active: bool,
    pub auction_style: bool,
    pub reserve_price: Option<i128>,
}

impl Clone for Listing {
    fn clone(&self) -> (r: Self)
        ensures
            r == *self,
    {
        Listing {
            token_id: self.token_id,
            seller: self.seller.clone(),
            price: self.price,
            start_time: self.start_time,
            duration: self.duration,
            active: self.active,
            auction_style: self.auction_style,
            reserve_price: self.reserve_price,
        }
    }
}

/// One bid in a token's bid history.  `active` is cleared only when its
/// bidder is outbid; entries are never removed.
#[derive(Debug, PartialEq, Eq)]
pub struct Bid {
    pub token_id: u64,
    pub bidder: Address,
    pub amount: i128,
    pub timestamp: u64,
    pub active: bool,
}

impl Clone for Bid {
    fn clone(&self) -> (r: Self)
        ensures
            r == *self,
    {
        Bid {
            token_id: self.token_id,
            bidder: self.bidder.clone(),
            amount: self.amount,
            timestamp: self.timestamp,
            active: self.active,
        }
    }
}

/// The funds the marketplace holds for the leading bidder of an auction:
/// `highest_amount` of `payment_token`, on behalf of `highest_bidder`.
#[derive(Debug, PartialEq, Eq)]
pub struct AuctionEscrow {
    pub token_id: u64,
    pub highest_bidder: Address,
    pub highest_amount: i128,
    pub payment_token: Address,
}

impl Clone for AuctionEscrow {
    fn clone(&self) -> (r: Self)
        ensures
            r == *self,
    {
        AuctionEscrow {
            token_id: self.token_id,
            highest_bidder: self.highest_bidder.clone(),
            highest_amount: self.highest_amount,
            payment_token: self.payment_token.clone(),
        }
    }
}

/// One recorded evolution of an artwork.
#[derive(Debug, PartialEq, Eq)]
pub struct Evolution {
    pub token_id: u64,
    pub evolution_id: u32,
    pub evolver: Address,
    pub prompt: String,
    pub new_ipfs_hash: String,
    pub timestamp: u64,
}

impl Clone for Evolution {
    fn clone(&self) -> (r: Self)
        ensures
            r == *self,
    {
        Evolution {
            token_id: self.token_id,
            evolution_id: self.evolution_id,
            evolver: self.evolver.clone(),
            prompt: self.prompt.clone(),
            new_ipfs_hash: self.new_ipfs_hash.clone(),
            timestamp: self.timestamp,
        }
    }
}

/// A royalty paid to an artwork's creator on a sale.
#[derive(Debug, PartialEq, Eq)]
pub struct RoyaltyPayment {
    pub token_id: u64,
    pub creator: Address,
    pub amount: i128,
    pub timestamp: u64,
}

/// A movement of `amount` units of the token contract `token` from `from` to `to`.
#[derive(Debug, PartialEq, Eq)]
pub struct Transfer {
    pub token: Address,
    pub from: Address,
    pub to: Address,
    pub amount: i128,
}

/// How a sale price is divided: the marketplace fee goes to the treasury,
/// the royalty to the creator and the rest to the seller.
#[derive(Debug, PartialEq, Eq, Clone, Copy)]
pub struct Payout {
    pub fee_amount: i128,
    pub royalty_amount: i128,
    pub seller_amount: i128,
}

/// How an auction that has run its course was closed.
#[derive(Debug, PartialEq, Eq)]
pub enum AuctionSettlement {
    /// Nobody bid: the listing is simply closed.
    NoBids,
    /// The reserve was met: the token went to `winner` for `amount`.
    Sold { winner: Address, amount: i128, payout: Payout },
    /// The reserve was not met: `bidder` got `amount` back and the token is
    /// listed again for the seller, starting at the moment of settlement.
    ReserveNotMet { bidder: Address, amount: i128 },
}

/// Why an operation was refused.  A refused operation changes nothing.
#[derive(Debug, PartialEq, Eq, Structural, Clone, Copy)]
pub enum MarketError {
    AlreadyInitialized,
    NotInitialized,
    IpfsHashRequired,
    TitleRequired,
    AiModelRequired,
    RoyaltyTooHigh,
    ContributionsMustSumTo100,
    TokenNotFound,
    NotTokenOwner,
    AlreadyListed,
    PriceNotPositive,
    DurationNotPositive,
    DurationTooLong,
    ReserveRequired,
    ReserveNotPositive,
    ListingNotFound,
    ListingNotActive,
    UseAuctionFunctions,
    ListingExpired,
    NotAnAuction,
    AuctionHasEnded,
    AuctionNotEnded,
    BidTooLow,
    NotTheSeller,
    ArtworkNotFound,
    ArtworkCannotEvolve,
    EvolutionIntervalNotMet,
    TreasuryNotSet,
    FeeTooHigh,
    FeeNegative,
    /// An intermediate amount or time does not fit its integer type.
    ArithmeticOverflow,
}

} // verus!
