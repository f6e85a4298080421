//! Properties of the marketplace as a whole: what every operation keeps, how
//! money moves through sales and escrow, and how ownership is bookkept.

use vstd::prelude::*;
use crate::types::{Address, Artwork, AuctionEscrow, Bid, Evolution, MarketError, Transfer};
use crate::rules::{after_outbid, div_up, history_after_outbid, fits_i128, latest_live_bid_at, other_than, payout_of, without_token};
use crate::market::{MarketView, MAX_LISTING_DURATION, MAX_MARKETPLACE_FEE_BPS};

verus! {

/// A request to the marketplace, with everything the operation reads.
pub enum Request {
    Initialize {
        admin: Address,
        marketplace_fee: u32,
        treasury: Address,
        evolution_fee: i128,
        min_evolution_interval: u64,
    },
    Mint {
        creator: Address,
        ipfs_hash: String,
        title: String,
        description: String,
        ai_model: String,
        royalty_percentage: u32,
        is_collaborative: bool,
        ai_contribution: u32,
        human_contribution: u32,
        can_evolve: bool,
        now: u64,
    },
    List {
        seller: Address,
        token_id: u64,
        price: i128,
        duration: u64,
        auction_style: bool,
        reserve_price: Option<i128>,
        now: u64,
    },
    Buy { buyer: Address, token_id: u64, now: u64 },
    PlaceBid { bidder: Address, token_id: u64, amount: i128, payment_token: Address, now: u64 },
    EndAuction { token_id: u64, now: u64 },
    Cancel { seller: Address, token_id: u64 },
    Evolve { evolver: Address, token_id: u64, prompt: String, new_ipfs_hash: String, now: u64 },
    SetMarketplaceFee { fee_bps: u32 },
    SetEvolutionFee { fee: i128 },
    SetTreasury { new_treasury: Address },
}

impl MarketView {
    /// The state after a request: the operation's result when it is
    /// accepted, the state unchanged when it is refused.
    pub open spec fn step(self, req: Request) -> MarketView {
        match req {
            Request::Initialize {
                admin,
                marketplace_fee,
                treasury,
                evolution_fee,
                min_evolution_interval,
            } => if self.initialize_error() is None {
                self.initialized(admin, marketplace_fee, treasury, evolution_fee, min_evolution_interval)
            } else {
                self
            },
            Request::Mint {
                creator,
                ipfs_hash,
                title,
                description,
                ai_model,
                royalty_percentage,
                is_collaborative,
                ai_contribution,
                human_contribution,
                can_evolve,
                now,
            } => if self.mint_error(
                ipfs_hash@,
                title@,
                ai_model@,
                royalty_percentage,
                is_collaborative,
                ai_contribution,
                human_contribution,
            ) is None {
                self.minted(
                    creator,
                    ipfs_hash,
                    title,
                    description,
                    ai_model,
                    royalty_percentage,
                    is_collaborative,
                    ai_contribution,
                    human_contribution,
                    can_evolve,
                    now,
                )
            } else {
                self
            },
            Request::List { seller, token_id, price, duration, auction_style, reserve_price, now } =>
                if self.list_error(seller@, token_id, price, duration, auction_style, reserve_price)
                is None {
                self.listed(seller, token_id, price, duration, auction_style, reserve_price, now)
            } else {
                self
            },
            Request::Buy { buyer, token_id, now } => if self.buy_error(token_id, now) is None {
                self.bought(buyer, token_id, now)
            } else {
                self
            },
            Request::PlaceBid { bidder, token_id, amount, payment_token, now } => if self.bid_error(
                token_id,
                amount,
                now,
            ) is None {
                self.bid_placed(bidder, token_id, amount, payment_token, now)
            } else {
                self
            },
            Request::EndAuction { token_id, now } => if self.end_error(token_id, now) is None {
                self.ended(token_id, now)
            } else {
                self
            },
            Request::Cancel { seller, token_id } => if self.cancel_error(seller@, token_id) is None {
                self.cancelled(token_id)
            } else {
                self
            },
            Request::Evolve { evolver, token_id, prompt, new_ipfs_hash, now } => if self.evolve_error(
                evolver@,
                token_id,
                now,
            ) is None {
                self.evolved(evolver, token_id, prompt, new_ipfs_hash, now)
            } else {
                self
            },
            Request::SetMarketplaceFee { fee_bps } => if self.admin is Some && fee_bps
                <= MAX_MARKETPLACE_FEE_BPS {
                MarketView { marketplace_fee: Some(fee_bps), ..self }
            } else {
                self
            },
            Request::SetEvolutionFee { fee } => if self.admin is Some && fee >= 0 {
                MarketView { evolution_fee: Some(fee), ..self }
            } else {
                self
            },
            Request::SetTreasury { new_treasury } => if self.admin is Some {
                MarketView { treasury: Some(new_treasury), ..self }
            } else {
                self
            },
        }
    }

    /// The state after a series of requests, in order.
    pub open spec fn run(self, reqs: Seq<Request>) -> MarketView
        decreases reqs.len(),
    {
        if reqs.len() == 0 {
            self
        } else {
            self.run(reqs.drop_last()).step(reqs.last())
        }
    }
}

/// Every stored listing describes its own token, has a positive price and a
/// duration of at most 30 days, and an auction has a positive reserve.
pub open spec fn listings_well_formed(s: MarketView) -> bool {
    forall|t: u64| #[trigger] s.listings.contains_key(t) ==> {
        let l = s.listings[t];
        &&& l.token_id == t
        &&& l.price > 0
        &&& 0 < l.duration <= MAX_LISTING_DURATION
        &&& l.auction_style ==> (l.reserve_price matches Some(r) && r > 0)
    }
}

/// An escrow only exists for an active auction listing of its token, and it
/// holds at least the reserve.
pub open spec fn escrows_backed(s: MarketView) -> bool {
    forall|t: u64| #[trigger] s.escrows.contains_key(t) ==> {
        let e = s.escrows[t];
        let l = s.listings[t];
        &&& s.listings.contains_key(t)
        &&& l.active
        &&& l.auction_style
        &&& e.token_id == t
        &&& (l.reserve_price matches Some(r) && e.highest_amount >= r)
    }
}

/// Every artwork describes its own token, carries an id no larger than the
/// minting counter, is owned, and counts exactly its recorded evolutions,
/// which are numbered 1, 2, 3, ... in order.
pub open spec fn artworks_well_formed(s: MarketView) -> bool {
    &&& forall|t: u64| #[trigger] s.artworks.contains_key(t) ==> {
        let a = s.artworks[t];
        &&& 1 <= t <= s.minted_count()
        &&& a.token_id == t
        &&& a.evolution_count == s.evolutions_of(t).len()
        &&& forall|i: int|
            0 <= i < s.evolutions_of(t).len() ==> (#[trigger] s.evolutions_of(t)[i]).evolution_id
                == i + 1 && s.evolutions_of(t)[i].token_id == t
    }
    &&& forall|t: u64| #[trigger] s.evolutions.contains_key(t) ==> s.artworks.contains_key(t)
    &&& forall|t: u64| #[trigger] s.ownership.contains_key(t) <==> s.artworks.contains_key(t)
    &&& s.admin is None ==> forall|t: u64| !(#[trigger] s.artworks.contains_key(t))
}

/// Listings, escrows and artworks are each well formed.
pub open spec fn records_well_formed(s: MarketView) -> bool {
    &&& listings_well_formed(s)
    &&& escrows_backed(s)
    &&& artworks_well_formed(s)
}

/// Every listing is of an owned token, and an active listing is offered by
/// the token's current owner.
pub open spec fn listings_by_owner(s: MarketView) -> bool {
    forall|t: u64| #[trigger] s.listings.contains_key(t) ==> {
        &&& s.ownership.contains_key(t)
        &&& s.listings[t].active ==> s.ownership[t]@ == s.listings[t].seller@
    }
}

/// While an auction holds an escrow, the last entry of its bid history is
/// the escrowed bid, still active.
pub open spec fn bids_follow_escrow(s: MarketView) -> bool {
    forall|t: u64| #[trigger] s.escrows.contains_key(t) ==> {
        let h = s.bids_of(t);
        &&& h.len() > 0
        &&& h.last().active
        &&& h.last().bidder == s.escrows[t].highest_bidder
        &&& h.last().amount == s.escrows[t].highest_amount
    }
}

/// `who` is the current owner of token `t`.
pub open spec fn owns(s: MarketView, who: Seq<char>, t: u64) -> bool {
    s.ownership.contains_key(t) && s.ownership[t]@ == who
}

/// Each account's token list holds exactly the tokens it owns, each once.
pub open spec fn token_lists_exact(s: MarketView) -> bool {
    &&& forall|who: Seq<char>, t: u64|
        #![trigger s.tokens_of(who).contains(t)]
        #![trigger owns(s, who, t)]
        s.tokens_of(who).contains(t) <==> owns(s, who, t)
    &&& forall|who: Seq<char>| (#[trigger] s.tokens_of(who)).no_duplicates()
}

/// What every reachable state of the marketplace satisfies.
pub open spec fn market_invariant(s: MarketView) -> bool {
    &&& records_well_formed(s)
    &&& listings_by_owner(s)
    &&& bids_follow_escrow(s)
    &&& token_lists_exact(s)
}

/// The storage of a fresh contract satisfies the invariant.
pub proof fn lemma_empty_satisfies_invariant()
    ensures
        market_invariant(MarketView::empty()),
{
}

/// 105% of a nonnegative amount, rounded toward zero, is at least the amount.
/// The least next bid after `h` is at least 105% of `h`, and so above `h`
/// whenever `h` is positive.
pub proof fn lemma_outbid_margin(h: i128)
    requires
        h >= 0,
        fits_i128(h * 105),
    ensures
        100 * div_up(h * 105, 100) >= 105 * h,
        div_up(h * 105, 100) >= h,
        h > 0 ==> div_up(h * 105, 100) > h,
{
    let p = h * 105;
    let q = (p + 99) / 100;
    assert(100 * q >= p) by (nonlinear_arith)
        requires
            p >= 0,
            q == (p + 99) / 100,
    ;
}

proof fn lemma_list_keeps(
    s: MarketView,
    seller: Address,
    token_id: u64,
    price: i128,
    duration: u64,
    auction_style: bool,
    reserve_price: Option<i128>,
    now: u64,
)
    requires
        market_invariant(s),
        s.list_error(seller@, token_id, price, duration, auction_style, reserve_price) is None,
    ensures
        records_well_formed(s.listed(seller, token_id, price, duration, auction_style, reserve_price, now)),
{
    let s2 = s.listed(seller, token_id, price, duration, auction_style, reserve_price, now);
    assert forall|t: u64| #[trigger] s2.escrows.contains_key(t) implies {
        let e = s2.escrows[t];
        let l = s2.listings[t];
        &&& s2.listings.contains_key(t)
        &&& l.active
        &&& l.auction_style
        &&& e.token_id == t
        &&& (l.reserve_price matches Some(r) && e.highest_amount >= r)
    } by {
        assert(s.escrows.contains_key(t));
        if t == token_id {
            assert(s.listings.contains_key(t) && s.listings[t].active);
        }
    }
}

proof fn lemma_bid_keeps(
    s: MarketView,
    bidder: Address,
    token_id: u64,
    amount: i128,
    payment_token: Address,
    now: u64,
)
    requires
        market_invariant(s),
        s.bid_error(token_id, amount, now) is None,
    ensures
        records_well_formed(s.bid_placed(bidder, token_id, amount, payment_token, now)),
{
    let s2 = s.bid_placed(bidder, token_id, amount, payment_token, now);
    let l = s.listings[token_id];
    if s.escrows.contains_key(token_id) {
        let h = s.escrows[token_id].highest_amount;
        lemma_outbid_margin(h);
    }
    assert(s2.escrows[token_id].highest_amount >= l.reserve_price->0);
    assert(artworks_well_formed(s2)) by {
        assert forall|t: u64| #[trigger] s2.artworks.contains_key(t) implies s2.evolutions_of(t)
            == s.evolutions_of(t) by {}
    }
}

proof fn lemma_sold_keeps_artworks(
    s: MarketView,
    token_id: u64,
    seller: Address,
    buyer: Address,
    price: i128,
    now: u64,
)
    requires
        artworks_well_formed(s),
        s.artworks.contains_key(token_id),
    ensures
        artworks_well_formed(s.sold(token_id, seller, buyer, price, now)),
        s.sold(token_id, seller, buyer, price, now).listings == s.listings,
        s.sold(token_id, seller, buyer, price, now).escrows == s.escrows,
{
    let s2 = s.sold(token_id, seller, buyer, price, now);
    assert(s2.artworks == s.artworks);
    assert(s2.evolutions == s.evolutions);
    assert forall|t: u64| #[trigger] s2.ownership.contains_key(t) <==> s2.artworks.contains_key(t) by {
        if t != token_id {
            assert(s2.ownership.contains_key(t) == s.ownership.contains_key(t));
        }
    }
}

proof fn lemma_buy_keeps(s: MarketView, buyer: Address, token_id: u64, now: u64)
    requires
        market_invariant(s),
        s.buy_error(token_id, now) is None,
    ensures
        records_well_formed(s.bought(buyer, token_id, now)),
{
    let l = s.listings[token_id];
    lemma_sold_keeps_artworks(s, token_id, l.seller, buyer, l.price, now);
    let s1 = s.sold(token_id, l.seller, buyer, l.price, now);
    let s2 = s1.with_listing_closed(token_id);
    assert(!s.escrows.contains_key(token_id));
    assert(escrows_backed(s2)) by {
        assert forall|t: u64| #[trigger] s2.escrows.contains_key(t) implies s2.listings.contains_key(
            t,
        ) && s2.listings[t] == s.listings[t] by {}
    }
    assert(artworks_well_formed(s2)) by {
        assert forall|t: u64| #[trigger] s2.artworks.contains_key(t) implies s2.evolutions_of(t)
            == s1.evolutions_of(t) by {}
    }
}

proof fn lemma_end_keeps(s: MarketView, token_id: u64, now: u64)
    requires
        market_invariant(s),
        s.end_error(token_id, now) is None,
    ensures
        records_well_formed(s.ended(token_id, now)),
{
    let s2 = s.ended(token_id, now);
    if s.escrows.contains_key(token_id) && s.reserve_met(token_id) {
        let e = s.escrows[token_id];
        lemma_sold_keeps_artworks(
            s,
            token_id,
            s.listings[token_id].seller,
            e.highest_bidder,
            e.highest_amount,
            now,
        );
    }
    assert(s2.evolutions == s.evolutions);
    assert(s2.artworks == s.artworks);
    assert(artworks_well_formed(s2)) by {
        assert forall|t: u64| #[trigger] s2.artworks.contains_key(t) implies s2.evolutions_of(t)
            == s.evolutions_of(t) by {}
        assert forall|t: u64| #[trigger] s2.ownership.contains_key(t) <==> s2.artworks.contains_key(t) by {
            if t != token_id {
                assert(s2.ownership.contains_key(t) == s.ownership.contains_key(t));
            }
        }
    }
}

proof fn lemma_cancel_keeps(s: MarketView, seller: Address, token_id: u64)
    requires
        market_invariant(s),
        s.cancel_error(seller@, token_id) is None,
    ensures
        records_well_formed(s.cancelled(token_id)),
{
    let s2 = s.cancelled(token_id);
    assert(artworks_well_formed(s2)) by {
        assert forall|t: u64| #[trigger] s2.artworks.contains_key(t) implies s2.evolutions_of(t)
            == s.evolutions_of(t) by {}
    }
}

proof fn lemma_mint_keeps(
    s: MarketView,
    creator: Address,
    ipfs_hash: String,
    title: String,
    description: String,
    ai_model: String,
    royalty_percentage: u32,
    is_collaborative: bool,
    ai_contribution: u32,
    human_contribution: u32,
    can_evolve: bool,
    now: u64,
)
    requires
        market_invariant(s),
        s.mint_error(
            ipfs_hash@,
            title@,
            ai_model@,
            royalty_percentage,
            is_collaborative,
            ai_contribution,
            human_contribution,
        ) is None,
    ensures
        records_well_formed(
            s.minted(
                creator,
                ipfs_hash,
                title,
                description,
                ai_model,
                royalty_percentage,
                is_collaborative,
                ai_contribution,
                human_contribution,
                can_evolve,
                now,
            ),
        ),
{
    let s2 = s.minted(
        creator,
        ipfs_hash,
        title,
        description,
        ai_model,
        royalty_percentage,
        is_collaborative,
        ai_contribution,
        human_contribution,
        can_evolve,
        now,
    );
    let id = s.next_token_id();
    assert(!s.artworks.contains_key(id));
    assert(!s.evolutions.contains_key(id));
    assert forall|t: u64| #[trigger] s2.artworks.contains_key(t) implies s2.evolutions_of(t)
        == s.evolutions_of(t) by {}
}

proof fn lemma_evolve_keeps(
    s: MarketView,
    evolver: Address,
    token_id: u64,
    prompt: String,
    new_ipfs_hash: String,
    now: u64,
)
    requires
        market_invariant(s),
        s.evolve_error(evolver@, token_id, now) is None,
    ensures
        records_well_formed(s.evolved(evolver, token_id, prompt, new_ipfs_hash, now)),
{
    let s2 = s.evolved(evolver, token_id, prompt, new_ipfs_hash, now);
    assert forall|t: u64| #[trigger] s2.artworks.contains_key(t) implies {
        let a = s2.artworks[t];
        &&& 1 <= t <= s2.minted_count()
        &&& a.token_id == t
        &&& a.evolution_count == s2.evolutions_of(t).len()
        &&& forall|i: int|
            0 <= i < s2.evolutions_of(t).len() ==> (#[trigger] s2.evolutions_of(t)[i]).evolution_id
                == i + 1 && s2.evolutions_of(t)[i].token_id == t
    } by {
        if t == token_id {
            assert(s2.evolutions_of(t) == s.evolutions_of(t).push(s2.evolutions_of(t).last()));
        } else {
            assert(s2.evolutions_of(t) == s.evolutions_of(t));
        }
    }
}

proof fn lemma_without_token(l: Seq<u64>, t: u64)
    ensures
        forall|x: u64| #[trigger] without_token(l, t).contains(x) <==> l.contains(x) && x != t,
        l.no_duplicates() ==> without_token(l, t).no_duplicates(),
    decreases l.len(),
{
    reveal(Seq::filter);
    if l.len() > 0 {
        let rest = l.drop_last();
        let last = l.last();
        lemma_without_token(rest, t);
        let w = without_token(rest, t);
        assert(l =~= rest.push(last));
        assert(without_token(l, t) == if last != t { w.push(last) } else { w });
        assert forall|x: u64| #[trigger] without_token(l, t).contains(x) <==> l.contains(x) && x != t by {
            if l.contains(x) && x != t {
                let i = choose|i: int| 0 <= i < l.len() && l[i] == x;
                if i < l.len() - 1 {
                    assert(rest[i] == x);
                    assert(w.contains(x));
                    if last != t {
                        let k = choose|k: int| 0 <= k < w.len() && w[k] == x;
                        assert(w.push(last)[k] == x);
                    }
                } else {
                    assert(w.push(last)[w.len() as int] == x);
                }
            }
            if without_token(l, t).contains(x) {
                let k = choose|k: int| 0 <= k < without_token(l, t).len() && without_token(l, t)[k] == x;
                if last != t && k == w.len() {
                    assert(l[l.len() - 1] == x);
                } else {
                    assert(w[k] == x);
                    assert(w.contains(x));
                    let i = choose|i: int| 0 <= i < rest.len() && rest[i] == x;
                    assert(l[i] == x);
                }
            }
        }
        if l.no_duplicates() {
            assert(rest.no_duplicates());
            if last != t {
                assert(!rest.contains(last)) by {
                    if rest.contains(last) {
                        let i = choose|i: int| 0 <= i < rest.len() && rest[i] == last;
                        assert(l[i] == l[l.len() - 1]);
                    }
                }
                lemma_push_no_duplicates(w, last);
            }
        }
    }
}

proof fn lemma_push_no_duplicates(l: Seq<u64>, x: u64)
    requires
        l.no_duplicates(),
        !l.contains(x),
    ensures
        l.push(x).no_duplicates(),
        forall|y: u64| #[trigger] l.push(x).contains(y) <==> l.contains(y) || y == x,
{
    let p = l.push(x);
    assert forall|i: int, j: int| 0 <= i < p.len() && 0 <= j < p.len() && i != j implies p[i] != p[j] by {
        if i == l.len() {
            assert(l[j] == p[j]);
        } else if j == l.len() {
            assert(l[i] == p[i]);
        } else {
            assert(l[i] == p[i] && l[j] == p[j]);
        }
    }
    assert forall|y: u64| #[trigger] p.contains(y) <==> l.contains(y) || y == x by {
        if l.contains(y) {
            let i = choose|i: int| 0 <= i < l.len() && l[i] == y;
            assert(p[i] == y);
        }
        if y == x {
            assert(p[l.len() as int] == y);
        }
        if p.contains(y) {
            let i = choose|i: int| 0 <= i < p.len() && p[i] == y;
            if i < l.len() {
                assert(l[i] == y);
            }
        }
    }
}

proof fn lemma_lists_frame(s: MarketView, s2: MarketView)
    requires
        token_lists_exact(s),
        s2.creator_tokens == s.creator_tokens,
        s2.ownership == s.ownership,
    ensures
        token_lists_exact(s2),
{
    assert forall|who: Seq<char>, t: u64| s2.tokens_of(who).contains(t) <==> owns(s2, who, t) by {
        assert(s2.tokens_of(who) == s.tokens_of(who));
        assert(owns(s2, who, t) == owns(s, who, t));
    }
    assert forall|who: Seq<char>| (#[trigger] s2.tokens_of(who)).no_duplicates() by {
        assert(s2.tokens_of(who) == s.tokens_of(who));
    }
}

proof fn lemma_bids_frame(s: MarketView, s2: MarketView)
    requires
        bids_follow_escrow(s),
        s2.auction_bids == s.auction_bids,
        s2.escrows == s.escrows,
    ensures
        bids_follow_escrow(s2),
{
    assert forall|t: u64| #[trigger] s2.bids_of(t) == s.bids_of(t) by {}
}

/// Moving a token from its owner to another account, as a sale does, keeps
/// every token list exact: each account's list holds exactly what it owns,
/// each token once.
pub proof fn lemma_with_owner_keeps_lists(s: MarketView, token_id: u64, from: Address, to: Address)
    requires
        token_lists_exact(s),
        owns(s, from@, token_id),
    ensures
        token_lists_exact(s.with_owner(token_id, from, to)),
{
    let s2 = s.with_owner(token_id, from, to);
    let filtered = without_token(s.tokens_of(from@), token_id);
    lemma_without_token(s.tokens_of(from@), token_id);
    let l1 = if to@ == from@ { filtered } else { s.tokens_of(to@) };
    assert(!l1.contains(token_id)) by {
        if to@ != from@ && s.tokens_of(to@).contains(token_id) {
            assert(owns(s, to@, token_id));
        }
    }
    assert(l1.no_duplicates()) by {
        assert(s.tokens_of(from@).no_duplicates());
        assert(s.tokens_of(to@).no_duplicates());
    }
    lemma_push_no_duplicates(l1, token_id);
    assert(s2.tokens_of(to@) == l1.push(token_id));
    assert(to@ != from@ ==> s2.tokens_of(from@) == filtered);
    assert forall|who: Seq<char>, t: u64| s2.tokens_of(who).contains(t) <==> owns(s2, who, t) by {
        if who == to@ {
            if t != token_id && to@ != from@ {
                assert(s.tokens_of(to@).contains(t) <==> owns(s, to@, t));
            }
            if t != token_id && to@ == from@ {
                assert(s.tokens_of(from@).contains(t) <==> owns(s, from@, t));
            }
        } else if who == from@ {
            assert(s.tokens_of(from@).contains(t) <==> owns(s, from@, t));
        } else {
            assert(s2.tokens_of(who) == s.tokens_of(who));
            assert(s.tokens_of(who).contains(t) <==> owns(s, who, t));
        }
    }
    assert forall|who: Seq<char>| (#[trigger] s2.tokens_of(who)).no_duplicates() by {
        if who != to@ && who != from@ {
            assert(s2.tokens_of(who) == s.tokens_of(who));
        }
        if who == from@ && who != to@ {
            assert(s.tokens_of(from@).no_duplicates());
        }
    }
}

/// The parts of the invariant about ownership, token lists and bids, for
/// each accepted operation.
proof fn lemma_accepted_keeps_bookkeeping(s: MarketView, req: Request)
    requires
        market_invariant(s),
        records_well_formed(s.step(req)),
    ensures
        listings_by_owner(s.step(req)),
        bids_follow_escrow(s.step(req)),
        token_lists_exact(s.step(req)),
{
    let s2 = s.step(req);
    match req {
        Request::Mint {
            creator,
            ipfs_hash,
            title,
            description,
            ai_model,
            royalty_percentage,
            is_collaborative,
            ai_contribution,
            human_contribution,
            can_evolve,
            now,
        } => {
            if s.mint_error(
                ipfs_hash@,
                title@,
                ai_model@,
                royalty_percentage,
                is_collaborative,
                ai_contribution,
                human_contribution,
            ) is None {
                let id = s.next_token_id();
                assert(!s.artworks.contains_key(id));
                assert(!s.ownership.contains_key(id));
                assert(!s.listings.contains_key(id));
                lemma_bids_frame(s, s2);
                let l = s.tokens_of(creator@);
                assert(!l.contains(id)) by {
                    if l.contains(id) {
                        assert(owns(s, creator@, id));
                    }
                }
                lemma_push_no_duplicates(l, id);
                assert(s2.tokens_of(creator@) == l.push(id));
                assert forall|who: Seq<char>, t: u64| s2.tokens_of(who).contains(t) <==> owns(s2, who, t) by {
                    assert(s.tokens_of(who).contains(t) <==> owns(s, who, t));
                    if who != creator@ {
                        assert(s2.tokens_of(who) == s.tokens_of(who));
                    }
                }
                assert forall|who: Seq<char>| (#[trigger] s2.tokens_of(who)).no_duplicates() by {
                    if who != creator@ {
                        assert(s2.tokens_of(who) == s.tokens_of(who));
                    }
                }
            } else {
                lemma_bids_frame(s, s2);
                lemma_lists_frame(s, s2);
            }
        },
        Request::List { seller, token_id, price, duration, auction_style, reserve_price, now } => {
            lemma_bids_frame(s, s2);
            lemma_lists_frame(s, s2);
        },
        Request::Buy { buyer, token_id, now } => {
            if s.buy_error(token_id, now) is None {
                let l = s.listings[token_id];
                assert(owns(s, l.seller@, token_id));
                lemma_with_owner_keeps_lists(s, token_id, l.seller, buyer);
                let moved = s.with_owner(token_id, l.seller, buyer);
                assert(s2.creator_tokens == moved.creator_tokens);
                assert(s2.ownership == moved.ownership);
                lemma_lists_frame(moved, s2);
                lemma_bids_frame(s, s2);
            } else {
                lemma_bids_frame(s, s2);
                lemma_lists_frame(s, s2);
            }
        },
        Request::PlaceBid { bidder, token_id, amount, payment_token, now } => {
            lemma_lists_frame(s, s2);
            if s.bid_error(token_id, amount, now) is None {
                let old_h = s.bids_of(token_id);
                let hist = if s.escrows.contains_key(token_id) {
                    history_after_outbid(old_h, s.escrows[token_id].highest_bidder@)
                } else {
                    old_h
                };
                assert(s2.bids_of(token_id) == hist.push(
                    Bid { token_id, bidder, amount, timestamp: now, active: true },
                ));
                assert forall|t: u64| t != token_id implies #[trigger] s2.bids_of(t) == s.bids_of(t) by {}
            } else {
                lemma_bids_frame(s, s2);
            }
        },
        Request::EndAuction { token_id, now } => {
            if s.end_error(token_id, now) is None {
                let l = s.listings[token_id];
                if s.escrows.contains_key(token_id) && s.reserve_met(token_id) {
                    let e = s.escrows[token_id];
                    assert(owns(s, l.seller@, token_id));
                    lemma_with_owner_keeps_lists(s, token_id, l.seller, e.highest_bidder);
                    let moved = s.with_owner(token_id, l.seller, e.highest_bidder);
                    assert(s2.creator_tokens == moved.creator_tokens);
                    assert(s2.ownership == moved.ownership);
                    lemma_lists_frame(moved, s2);
                } else {
                    lemma_lists_frame(s, s2);
                }
                assert(!s2.escrows.contains_key(token_id));
                assert forall|t: u64| #[trigger] s2.bids_of(t) == s.bids_of(t) by {}
            } else {
                lemma_bids_frame(s, s2);
                lemma_lists_frame(s, s2);
            }
        },
        Request::Cancel { seller, token_id } => {
            lemma_lists_frame(s, s2);
            if s.cancel_error(seller@, token_id) is None {
                assert(!s2.escrows.contains_key(token_id));
                assert forall|t: u64| #[trigger] s2.bids_of(t) == s.bids_of(t) by {}
            } else {
                lemma_bids_frame(s, s2);
            }
        },
        _ => {
            lemma_bids_frame(s, s2);
            lemma_lists_frame(s, s2);
        },
    }
}

/// Every operation keeps the invariant, whether it is accepted or refused.
pub proof fn lemma_step_keeps_invariant(s: MarketView, req: Request)
    requires
        market_invariant(s),
    ensures
        market_invariant(s.step(req)),
{
    lemma_step_keeps_records(s, req);
    lemma_accepted_keeps_bookkeeping(s, req);
}

proof fn lemma_step_keeps_records(s: MarketView, req: Request)
    requires
        market_invariant(s),
    ensures
        records_well_formed(s.step(req)),
{
    match req {
        Request::Initialize { .. } => {
            let s2 = s.step(req);
            assert(artworks_well_formed(s2)) by {
                assert forall|t: u64| #[trigger] s2.artworks.contains_key(t) implies s2.evolutions_of(
                    t,
                ) == s.evolutions_of(t) by {}
            }
        },
        Request::Mint {
            creator,
            ipfs_hash,
            title,
            description,
            ai_model,
            royalty_percentage,
            is_collaborative,
            ai_contribution,
            human_contribution,
            can_evolve,
            now,
        } => {
            if s.mint_error(
                ipfs_hash@,
                title@,
                ai_model@,
                royalty_percentage,
                is_collaborative,
                ai_contribution,
                human_contribution,
            ) is None {
                lemma_mint_keeps(
                    s,
                    creator,
                    ipfs_hash,
                    title,
                    description,
                    ai_model,
                    royalty_percentage,
                    is_collaborative,
                    ai_contribution,
                    human_contribution,
                    can_evolve,
                    now,
                );
            }
        },
        Request::List { seller, token_id, price, duration, auction_style, reserve_price, now } => {
            if s.list_error(seller@, token_id, price, duration, auction_style, reserve_price) is None {
                lemma_list_keeps(s, seller, token_id, price, duration, auction_style, reserve_price, now);
            }
        },
        Request::Buy { buyer, token_id, now } => {
            if s.buy_error(token_id, now) is None {
                lemma_buy_keeps(s, buyer, token_id, now);
            }
        },
        Request::PlaceBid { bidder, token_id, amount, payment_token, now } => {
            if s.bid_error(token_id, amount, now) is None {
                lemma_bid_keeps(s, bidder, token_id, amount, payment_token, now);
            }
        },
        Request::EndAuction { token_id, now } => {
            if s.end_error(token_id, now) is None {
                lemma_end_keeps(s, token_id, now);
            }
        },
        Request::Cancel { seller, token_id } => {
            if s.cancel_error(seller@, token_id) is None {
                lemma_cancel_keeps(s, seller, token_id);
            }
        },
        Request::Evolve { evolver, token_id, prompt, new_ipfs_hash, now } => {
            if s.evolve_error(evolver@, token_id, now) is None {
                lemma_evolve_keeps(s, evolver, token_id, prompt, new_ipfs_hash, now);
            }
        },
        _ => {
            let s2 = s.step(req);
            assert(artworks_well_formed(s2)) by {
                assert forall|t: u64| #[trigger] s2.artworks.contains_key(t) implies s2.evolutions_of(
                    t,
                ) == s.evolutions_of(t) by {}
            }
        },
    }
}

/// Every state that a series of requests can reach from a fresh contract
/// satisfies the invariant.
pub proof fn lemma_reachable_states_keep_invariant(reqs: Seq<Request>)
    ensures
        market_invariant(MarketView::empty().run(reqs)),
    decreases reqs.len(),
{
    if reqs.len() == 0 {
        lemma_empty_satisfies_invariant();
    } else {
        lemma_reachable_states_keep_invariant(reqs.drop_last());
        lemma_step_keeps_invariant(MarketView::empty().run(reqs.drop_last()), reqs.last());
    }
}

/// In every reachable state an auction's escrow meets its reserve, so ending
/// an auction that has a bid always sells the token: the branch that refunds
/// for an unmet reserve is never taken.
pub proof fn lemma_reserve_always_met(reqs: Seq<Request>, token_id: u64, now: u64)
    ensures
        ({
            let s = MarketView::empty().run(reqs);
            &&& s.escrows.contains_key(token_id) ==> s.reserve_met(token_id)
            &&& s.escrows.contains_key(token_id) && s.end_error(token_id, now) is None
                ==> s.end_settlement(token_id) is Sold
        }),
{
    lemma_reachable_states_keep_invariant(reqs);
}

/// The three parts of a sale always add up to the price.
pub proof fn lemma_payout_adds_up(price: i128, fee_bps: u32, royalty_bps: u32)
    requires
        payout_of(price, fee_bps, royalty_bps) is Some,
    ensures
        ({
            let p = payout_of(price, fee_bps, royalty_bps).unwrap();
            p.fee_amount + p.royalty_amount + p.seller_amount == price
        }),
{
}

/// With a nonnegative price and rates that together stay within 100%, no
/// part of a sale is negative: the seller keeps at least what the fee and
/// royalty leave.
pub proof fn lemma_payout_parts_nonnegative(price: i128, fee_bps: u32, royalty_bps: u32)
    requires
        price >= 0,
        fee_bps + royalty_bps <= 10_000,
        payout_of(price, fee_bps, royalty_bps) is Some,
    ensures
        ({
            let p = payout_of(price, fee_bps, royalty_bps).unwrap();
            &&& p.fee_amount >= 0
            &&& p.royalty_amount >= 0
            &&& p.seller_amount >= 0
        }),
{
    let a = price * fee_bps;
    let b = price * royalty_bps;
    assert(a >= 0 && b >= 0 && a + b <= price * 10_000) by (nonlinear_arith)
        requires
            price >= 0,
            fee_bps + royalty_bps <= 10_000,
            fee_bps >= 0,
            royalty_bps >= 0,
            a == price * fee_bps,
            b == price * royalty_bps,
    ;
    assert(a / 10_000 + b / 10_000 <= price) by (nonlinear_arith)
        requires
            a >= 0,
            b >= 0,
            a + b <= price * 10_000,
    ;
}

/// The sum of the amounts of a series of transfers.
pub open spec fn total_amount(ts: Seq<Transfer>) -> int
    decreases ts.len(),
{
    if ts.len() == 0 {
        0
    } else {
        total_amount(ts.drop_last()) + ts.last().amount
    }
}

/// A sale's payments are all made by the payer, in the payment token, and
/// together come to exactly the price (a price below zero would have its
/// negative royalty left out of the payments).
pub proof fn lemma_sale_pays_exactly_the_price(
    s: MarketView,
    token_id: u64,
    payer: Address,
    price: i128,
    seller: Address,
    payment_token: Address,
)
    requires
        s.sale_error(token_id, price) is None,
        price >= 0,
    ensures
        ({
            let ts = s.sale_transfers(token_id, payer, price, seller, payment_token);
            &&& total_amount(ts) == price
            &&& forall|i: int| 0 <= i < ts.len() ==> (#[trigger] ts[i]).from == payer && ts[i].token
                == payment_token
        }),
{
    let ts = s.sale_transfers(token_id, payer, price, seller, payment_token);
    let p = s.sale_payout(token_id, price);
    lemma_payout_adds_up(price, s.fee_rate(), s.artworks[token_id].royalty_percentage);
    reveal_with_fuel(total_amount, 4);
    assert(p == payout_of(price, s.fee_rate(), s.artworks[token_id].royalty_percentage).unwrap());
    assert(p.fee_amount + p.royalty_amount + p.seller_amount == price);
    let royalty_bps = s.artworks[token_id].royalty_percentage;
    assert(price * royalty_bps >= 0) by (nonlinear_arith)
        requires
            price >= 0,
            royalty_bps >= 0,
    ;
    if p.royalty_amount > 0 {
        assert(ts.drop_last().drop_last().drop_last() =~= Seq::<Transfer>::empty());
        assert(total_amount(ts) == p.fee_amount + p.royalty_amount + p.seller_amount);
    } else {
        assert(ts.drop_last().drop_last() =~= Seq::<Transfer>::empty());
        assert(total_amount(ts) == p.fee_amount + p.seller_amount);
    }
    assert forall|i: int| 0 <= i < ts.len() implies (#[trigger] ts[i]).from == payer && ts[i].token
        == payment_token by {
        if p.royalty_amount > 0 {
            assert(i == 0 || i == 1 || i == 2);
        } else {
            assert(i == 0 || i == 1);
        }
    }
}

/// In a reachable state a fixed-price purchase costs the buyer exactly the
/// listing price.
pub proof fn lemma_buyer_pays_listing_price(
    s: MarketView,
    buyer: Address,
    token_id: u64,
    payment_token: Address,
    now: u64,
)
    requires
        market_invariant(s),
        s.buy_error(token_id, now) is None,
    ensures
        ({
            let l = s.listings[token_id];
            let ts = s.sale_transfers(token_id, buyer, l.price, l.seller, payment_token);
            &&& total_amount(ts) == l.price
            &&& forall|i: int| 0 <= i < ts.len() ==> (#[trigger] ts[i]).from == buyer
        }),
{
    let l = s.listings[token_id];
    lemma_sale_pays_exactly_the_price(s, token_id, buyer, l.price, l.seller, payment_token);
}

/// In a reachable state, ending an auction that has a bid pays out of escrow
/// exactly the escrowed amount, in the escrowed token, removes the escrow
/// record and closes the listing.
pub proof fn lemma_ending_releases_escrow(s: MarketView, token_id: u64, now: u64, market: Address)
    requires
        market_invariant(s),
        s.end_error(token_id, now) is None,
        s.escrows.contains_key(token_id),
    ensures
        ({
            let e = s.escrows[token_id];
            let ts = s.end_transfers(token_id, market);
            &&& total_amount(ts) == e.highest_amount
            &&& forall|i: int| 0 <= i < ts.len() ==> (#[trigger] ts[i]).from == market && ts[i].token
                == e.payment_token
            &&& !s.ended(token_id, now).escrows.contains_key(token_id)
            &&& !s.ended(token_id, now).listings[token_id].active
        }),
{
    let e = s.escrows[token_id];
    if s.reserve_met(token_id) {
        lemma_sale_pays_exactly_the_price(
            s,
            token_id,
            market,
            e.highest_amount,
            s.listings[token_id].seller,
            e.payment_token,
        );
    } else {
        let ts = s.end_transfers(token_id, market);
        reveal_with_fuel(total_amount, 2);
        assert(ts.drop_last() =~= Seq::<Transfer>::empty());
    }
}

/// Cancelling an auction listing in a reachable state refunds the whole
/// escrow, if there is one, to its bidder and removes the escrow record; a
/// cancelled listing is no longer active.
pub proof fn lemma_cancel_refunds_escrow(s: MarketView, seller: Address, token_id: u64, market: Address)
    requires
        market_invariant(s),
        s.cancel_error(seller@, token_id) is None,
    ensures
        !s.cancelled(token_id).escrows.contains_key(token_id),
        !s.cancelled(token_id).listings[token_id].active,
        s.escrows.contains_key(token_id) ==> s.cancel_transfers(token_id, market) == seq![
            Transfer {
                token: s.escrows[token_id].payment_token,
                from: market,
                to: s.escrows[token_id].highest_bidder,
                amount: s.escrows[token_id].highest_amount,
            },
        ],
{
}

/// An accepted bid in a reachable state: the previous highest bidder gets
/// exactly their escrow back in the escrowed token, the new bid is pulled in
/// whole, the escrow now stands for the new bid, and the escrowed amount
/// grows by at least 5%.
pub proof fn lemma_bid_replaces_escrow(
    s: MarketView,
    bidder: Address,
    token_id: u64,
    amount: i128,
    payment_token: Address,
    market: Address,
    now: u64,
)
    requires
        market_invariant(s),
        s.bid_error(token_id, amount, now) is None,
    ensures
        ({
            let s2 = s.bid_placed(bidder, token_id, amount, payment_token, now);
            let ts = s.bid_transfers(bidder, token_id, amount, payment_token, market);
            &&& s2.escrows[token_id] == (AuctionEscrow {
                token_id,
                highest_bidder: bidder,
                highest_amount: amount,
                payment_token,
            })
            &&& ts.last() == (Transfer { token: payment_token, from: bidder, to: market, amount })
            &&& s.escrows.contains_key(token_id) ==> {
                let e = s.escrows[token_id];
                &&& ts.len() == 2
                &&& ts[0] == (Transfer {
                    token: e.payment_token,
                    from: market,
                    to: e.highest_bidder,
                    amount: e.highest_amount,
                })
                &&& 100 * amount >= 105 * e.highest_amount
                &&& amount > e.highest_amount
            }
            &&& !s.escrows.contains_key(token_id) ==> ts.len() == 1
        }),
{
    if s.escrows.contains_key(token_id) {
        lemma_outbid_margin(s.escrows[token_id].highest_amount);
    }
}

/// What `who` gains in `token` from a series of transfers: what it receives
/// minus what it pays.
pub open spec fn net_received(ts: Seq<Transfer>, who: Seq<char>, token: Seq<char>) -> int
    decreases ts.len(),
{
    if ts.len() == 0 {
        0
    } else {
        let t = ts.last();
        let inflow = if t.token@ == token && t.to@ == who {
            t.amount as int
        } else {
            0
        };
        let outflow = if t.token@ == token && t.from@ == who {
            t.amount as int
        } else {
            0
        };
        net_received(ts.drop_last(), who, token) + inflow - outflow
    }
}

/// The amount of `token` held in escrow for the auction of `token_id`.
pub open spec fn escrow_held(s: MarketView, token_id: u64, token: Seq<char>) -> int {
    if s.escrows.contains_key(token_id) && s.escrows[token_id].payment_token@ == token {
        s.escrows[token_id].highest_amount as int
    } else {
        0
    }
}

/// Escrow is conserved token by token: what the marketplace gains in each
/// token from an accepted bid is exactly the change in what it holds in
/// escrow in that token (so the outbid escrow leaves in its own token and the
/// new bid arrives in the token it names).  The marketplace itself is
/// neither the bidder nor the outbid bidder.
pub proof fn lemma_bid_conserves_escrow(
    s: MarketView,
    bidder: Address,
    token_id: u64,
    amount: i128,
    payment_token: Address,
    market: Address,
    now: u64,
    token: Seq<char>,
)
    requires
        s.bid_error(token_id, amount, now) is None,
        bidder@ != market@,
        s.escrows.contains_key(token_id) ==> s.escrows[token_id].highest_bidder@ != market@,
    ensures
        net_received(s.bid_transfers(bidder, token_id, amount, payment_token, market), market@, token)
            == escrow_held(s.bid_placed(bidder, token_id, amount, payment_token, now), token_id, token)
            - escrow_held(s, token_id, token),
{
    let ts = s.bid_transfers(bidder, token_id, amount, payment_token, market);
    reveal_with_fuel(net_received, 3);
    if s.escrows.contains_key(token_id) {
        assert(ts.drop_last().drop_last() =~= Seq::<Transfer>::empty());
    } else {
        assert(ts.drop_last() =~= Seq::<Transfer>::empty());
    }
}

/// The escrow of `token_id`, if any, backs an active auction listing and
/// holds a nonnegative amount.
pub open spec fn escrow_backed_at(s: MarketView, token_id: u64) -> bool {
    s.escrows.contains_key(token_id) ==> {
        &&& s.listings.contains_key(token_id)
        &&& s.listings[token_id].active
        &&& s.listings[token_id].auction_style
        &&& s.escrows[token_id].highest_amount >= 0
    }
}

/// Settling an auction releases its escrow token by token: in each token the
/// marketplace pays out exactly what it held in escrow, and holds nothing
/// for the auction afterwards.  No payee is the marketplace itself.
pub proof fn lemma_end_releases_escrow_per_token(
    s: MarketView,
    token_id: u64,
    now: u64,
    market: Address,
    token: Seq<char>,
)
    requires
        escrow_backed_at(s, token_id),
        s.end_error(token_id, now) is None,
        s.escrows.contains_key(token_id) ==> {
            &&& s.escrows[token_id].highest_bidder@ != market@
            &&& s.listings[token_id].seller@ != market@
            &&& (s.treasury matches Some(tr) && tr@ != market@)
            &&& s.artworks.contains_key(token_id) ==> s.artworks[token_id].creator@ != market@
        },
    ensures
        net_received(s.end_transfers(token_id, market), market@, token) == -escrow_held(
            s,
            token_id,
            token,
        ),
        escrow_held(s.ended(token_id, now), token_id, token) == 0,
{
    let ts = s.end_transfers(token_id, market);
    reveal_with_fuel(net_received, 4);
    if s.escrows.contains_key(token_id) {
        let e = s.escrows[token_id];
        if s.reserve_met(token_id) {
            let p = s.sale_payout(token_id, e.highest_amount);
            lemma_payout_adds_up(e.highest_amount, s.fee_rate(), s.artworks[token_id].royalty_percentage);
            let royalty_bps = s.artworks[token_id].royalty_percentage;
            let amt = e.highest_amount;
            assert(amt * royalty_bps >= 0) by (nonlinear_arith)
                requires
                    amt >= 0,
                    royalty_bps >= 0,
            ;
            if p.royalty_amount > 0 {
                assert(ts.drop_last().drop_last().drop_last() =~= Seq::<Transfer>::empty());
            } else {
                assert(ts.drop_last().drop_last() =~= Seq::<Transfer>::empty());
            }
        } else {
            assert(ts.drop_last() =~= Seq::<Transfer>::empty());
        }
    }
}

/// Cancelling releases the escrow token by token in the same way.
pub proof fn lemma_cancel_releases_escrow_per_token(
    s: MarketView,
    seller: Address,
    token_id: u64,
    market: Address,
    token: Seq<char>,
)
    requires
        escrow_backed_at(s, token_id),
        s.cancel_error(seller@, token_id) is None,
        s.escrows.contains_key(token_id) ==> s.escrows[token_id].highest_bidder@ != market@,
    ensures
        net_received(s.cancel_transfers(token_id, market), market@, token) == -escrow_held(
            s,
            token_id,
            token,
        ),
        escrow_held(s.cancelled(token_id), token_id, token) == 0,
{
    let ts = s.cancel_transfers(token_id, market);
    reveal_with_fuel(net_received, 2);
    if s.escrows.contains_key(token_id) {
        assert(ts.drop_last() =~= Seq::<Transfer>::empty());
    }
}

/// In a reachable state with an escrow, the last entry of the token's bid
/// history is the escrowed bid, active: it is the latest live bid of the
/// escrowed bidder for the escrowed amount, which is what `get_highest_bid`
/// reports.
pub proof fn lemma_highest_bid_is_escrowed(s: MarketView, token_id: u64)
    requires
        market_invariant(s),
        s.escrows.contains_key(token_id),
    ensures
        ({
            let h = s.bids_of(token_id);
            let e = s.escrows[token_id];
            &&& latest_live_bid_at(h, e.highest_bidder@, e.highest_amount, h.len() - 1)
            &&& forall|i: int| latest_live_bid_at(h, e.highest_bidder@, e.highest_amount, i) ==> i == h.len() - 1
            &&& h.last().bidder == e.highest_bidder
            &&& h.last().amount == e.highest_amount
            &&& h.last().active
        }),
{
}

/// A sale moves ownership: the buyer owns the token and has it last on their
/// list, a different seller no longer lists it, and every other account's
/// list is unchanged.
pub proof fn lemma_ownership_moves(s: MarketView, token_id: u64, from: Address, to: Address, other: Seq<char>)
    ensures
        ({
            let s2 = s.with_owner(token_id, from, to);
            &&& s2.ownership[token_id] == to
            &&& s2.tokens_of(to@).last() == token_id
            &&& from@ != to@ ==> !s2.tokens_of(from@).contains(token_id)
            &&& other != from@ && other != to@ ==> s2.tokens_of(other) == s.tokens_of(other)
        }),
{
    let s2 = s.with_owner(token_id, from, to);
    if from@ != to@ {
        let kept = without_token(s.tokens_of(from@), token_id);
        assert(s2.tokens_of(from@) == kept);
        if kept.contains(token_id) {
            let i = choose|i: int| 0 <= i < kept.len() && kept[i] == token_id;
            s.tokens_of(from@).lemma_filter_pred(other_than(token_id), i);
        }
    }
}

/// A minted token is owned by its creator, sits last on the creator's list
/// and starts with no evolutions.
pub proof fn lemma_minted_token_belongs_to_creator(
    s: MarketView,
    creator: Address,
    ipfs_hash: String,
    title: String,
    description: String,
    ai_model: String,
    royalty_percentage: u32,
    is_collaborative: bool,
    ai_contribution: u32,
    human_contribution: u32,
    can_evolve: bool,
    now: u64,
)
    ensures
        ({
            let id = s.next_token_id();
            let s2 = s.minted(
                creator,
                ipfs_hash,
                title,
                description,
                ai_model,
                royalty_percentage,
                is_collaborative,
                ai_contribution,
                human_contribution,
                can_evolve,
                now,
            );
            &&& s2.ownership[id] == creator
            &&& s2.tokens_of(creator@).last() == id
            &&& s2.artworks[id].creator == creator
            &&& s2.artworks[id].evolution_count == 0
            &&& s2.minted_count() == id
        }),
{
}

/// In a reachable state the next token id is unused, so minting never
/// overwrites an artwork or an owner.
pub proof fn lemma_mint_uses_fresh_id(s: MarketView)
    requires
        market_invariant(s),
        s.minted_count() < u64::MAX,
    ensures
        !s.artworks.contains_key(s.next_token_id()),
        !s.ownership.contains_key(s.next_token_id()),
        !s.evolutions.contains_key(s.next_token_id()),
{
}

/// Once outbid, none of the earlier bids of the previous highest bidder is
/// left active in the token's history.
pub proof fn lemma_outbid_bids_deactivated(
    s: MarketView,
    bidder: Address,
    token_id: u64,
    amount: i128,
    payment_token: Address,
    now: u64,
)
    requires
        s.bid_error(token_id, amount, now) is None,
        s.escrows.contains_key(token_id),
    ensures
        ({
            let outbid = s.escrows[token_id].highest_bidder@;
            let h = s.bid_placed(bidder, token_id, amount, payment_token, now).bids_of(token_id);
            &&& h.len() == s.bids_of(token_id).len() + 1
            &&& forall|i: int|
                0 <= i < h.len() - 1 && (#[trigger] h[i]).bidder@ == outbid ==> !h[i].active
        }),
{
    let outbid = s.escrows[token_id].highest_bidder@;
    let h = s.bid_placed(bidder, token_id, amount, payment_token, now).bids_of(token_id);
    assert forall|i: int| 0 <= i < h.len() - 1 && (#[trigger] h[i]).bidder@ == outbid implies !h[i].active by {
        assert(h[i] == after_outbid(s.bids_of(token_id)[i], outbid));
    }
}

/// A cancelled listing stays on record but inactive, and the token keeps its
/// owner, so its owner may list it again.
pub proof fn lemma_cancelled_listing_can_be_relisted(
    s: MarketView,
    seller: Address,
    token_id: u64,
    price: i128,
    duration: u64,
    auction_style: bool,
    reserve_price: Option<i128>,
)
    requires
        s.cancel_error(seller@, token_id) is None,
    ensures
        s.cancelled(token_id).ownership == s.ownership,
        s.cancelled(token_id).listings.contains_key(token_id),
        s.cancelled(token_id).list_error(seller@, token_id, price, duration, auction_style, reserve_price)
            != Some(MarketError::AlreadyListed),
{
}

/// `req` lists token `token_id`.
pub open spec fn lists_token(req: Request, token_id: u64) -> bool {
    req matches Request::List { token_id: t, .. } && t == token_id
}

/// In a reachable state, a listing that is not active stays inactive and
/// its token keeps its owner under any request that does not list the
/// token again.
pub proof fn lemma_closed_listing_step(s: MarketView, req: Request, token_id: u64)
    requires
        market_invariant(s),
        s.listings.contains_key(token_id),
        !s.listings[token_id].active,
        !lists_token(req, token_id),
    ensures
        s.step(req).listings.contains_key(token_id),
        !s.step(req).listings[token_id].active,
        s.step(req).ownership.contains_key(token_id),
        s.step(req).ownership[token_id] == s.ownership[token_id],
{
    assert(s.ownership.contains_key(token_id));
    match req {
        Request::Mint { .. } => {
            assert(s.artworks.contains_key(token_id));
        },
        _ => {},
    }
}

/// In a reachable state, once a listing is closed (sold, settled or
/// cancelled) and until the token is listed again: buying, bidding and
/// settling are refused as not active, cancelling is refused, the token keeps
/// its owner, and anyone but that owner is refused when listing it.
pub proof fn lemma_closed_until_relisted(s: MarketView, reqs: Seq<Request>, token_id: u64)
    requires
        market_invariant(s),
        s.listings.contains_key(token_id),
        !s.listings[token_id].active,
        forall|i: int| 0 <= i < reqs.len() ==> !lists_token(#[trigger] reqs[i], token_id),
    ensures
        ({
            let s2 = s.run(reqs);
            &&& market_invariant(s2)
            &&& s2.listings.contains_key(token_id)
            &&& !s2.listings[token_id].active
            &&& s2.ownership.contains_key(token_id)
            &&& s2.ownership[token_id] == s.ownership[token_id]
            &&& forall|now: u64| #[trigger] s2.buy_error(token_id, now) == Some(MarketError::ListingNotActive)
            &&& forall|amount: i128, now: u64| #[trigger] s2.bid_error(token_id, amount, now)
                == Some(MarketError::ListingNotActive)
            &&& forall|now: u64| #[trigger] s2.end_error(token_id, now) == Some(MarketError::ListingNotActive)
            &&& forall|who: Seq<char>| #[trigger] s2.cancel_error(who, token_id) is Some
            &&& forall|who: Seq<char>, price: i128, duration: u64, auction_style: bool, reserve_price: Option<i128>|
                who != s.ownership[token_id]@ ==> #[trigger] s2.list_error(
                    who,
                    token_id,
                    price,
                    duration,
                    auction_style,
                    reserve_price,
                ) == Some(MarketError::NotTokenOwner)
        }),
    decreases reqs.len(),
{
    if reqs.len() > 0 {
        let prefix = reqs.drop_last();
        assert forall|i: int| 0 <= i < prefix.len() implies !lists_token(#[trigger] prefix[i], token_id) by {
            assert(prefix[i] == reqs[i]);
        }
        lemma_closed_until_relisted(s, prefix, token_id);
        let mid = s.run(prefix);
        assert(!lists_token(reqs[reqs.len() - 1], token_id));
        lemma_step_keeps_invariant(mid, reqs.last());
        lemma_closed_listing_step(mid, reqs.last(), token_id);
    }
}

/// After a fixed-price sale the listing is closed and the buyer owns the
/// token, so the seller (when not the buyer) can no longer list it.
pub proof fn lemma_sale_closes_listing(
    s: MarketView,
    buyer: Address,
    token_id: u64,
    now: u64,
    price: i128,
    duration: u64,
    auction_style: bool,
    reserve_price: Option<i128>,
)
    requires
        s.buy_error(token_id, now) is None,
    ensures
        ({
            let s2 = s.bought(buyer, token_id, now);
            let seller = s.listings[token_id].seller;
            &&& !s2.listings[token_id].active
            &&& s2.ownership[token_id] == buyer
            &&& seller@ != buyer@ ==> s2.list_error(
                seller@,
                token_id,
                price,
                duration,
                auction_style,
                reserve_price,
            ) == Some(MarketError::NotTokenOwner)
        }),
{
}

/// After an auction is settled with a sale the listing is closed and the
/// winner owns the token.
pub proof fn lemma_settlement_closes_listing(s: MarketView, token_id: u64, now: u64)
    requires
        s.end_error(token_id, now) is None,
        s.escrows.contains_key(token_id),
        s.reserve_met(token_id),
    ensures
        !s.ended(token_id, now).listings[token_id].active,
        s.ended(token_id, now).ownership[token_id] == s.escrows[token_id].highest_bidder,
{
}

/// The admin's settings stay within their caps: a marketplace fee of at
/// most 10% and a nonnegative evolution fee remain so through every later
/// request.
pub open spec fn fees_within_caps(s: MarketView) -> bool {
    &&& s.marketplace_fee matches Some(f) ==> f <= MAX_MARKETPLACE_FEE_BPS
    &&& s.evolution_fee matches Some(f) ==> f >= 0
}

pub proof fn lemma_fee_caps_persist(s: MarketView, reqs: Seq<Request>)
    requires
        s.admin is Some,
        fees_within_caps(s),
    ensures
        s.run(reqs).admin is Some,
        fees_within_caps(s.run(reqs)),
    decreases reqs.len(),
{
    if reqs.len() > 0 {
        lemma_fee_caps_persist(s, reqs.drop_last());
    }
}

/// Two bid records agree on everything but whether they are active.
pub open spec fn same_bid(a: Bid, b: Bid) -> bool {
    &&& a.token_id == b.token_id
    &&& a.bidder == b.bidder
    &&& a.amount == b.amount
    &&& a.timestamp == b.timestamp
}

/// The bid history of a token only grows: every request keeps the entries
/// already there (up to their being made inactive), an accepted bid on the
/// token appends exactly that bid, and any other request adds nothing.
pub proof fn lemma_bid_history_step(s: MarketView, req: Request, token_id: u64)
    ensures
        ({
            let h = s.bids_of(token_id);
            let h2 = s.step(req).bids_of(token_id);
            &&& forall|i: int| 0 <= i < h.len() ==> same_bid(#[trigger] h2[i], h[i])
            &&& match req {
                Request::PlaceBid { bidder, token_id: t, amount, payment_token, now } => if t
                    == token_id && s.bid_error(t, amount, now) is None {
                    h2.len() == h.len() + 1 && h2.last() == (Bid {
                        token_id,
                        bidder,
                        amount,
                        timestamp: now,
                        active: true,
                    })
                } else {
                    h2.len() == h.len()
                },
                _ => h2.len() == h.len(),
            }
        }),
{
    let h = s.bids_of(token_id);
    let h2 = s.step(req).bids_of(token_id);
    match req {
        Request::PlaceBid { bidder, token_id: t, amount, payment_token, now } => {
            if t == token_id && s.bid_error(t, amount, now) is None && s.escrows.contains_key(t) {
                assert forall|i: int| 0 <= i < h.len() implies same_bid(#[trigger] h2[i], h[i]) by {
                    assert(h2[i] == after_outbid(h[i], s.escrows[t].highest_bidder@));
                }
            }
        },
        _ => {},
    }
}

/// Over any series of requests a token's bid history keeps its earlier
/// entries, in order.
pub proof fn lemma_bid_history_grows(s: MarketView, reqs: Seq<Request>, token_id: u64)
    ensures
        ({
            let h = s.bids_of(token_id);
            let h2 = s.run(reqs).bids_of(token_id);
            &&& h2.len() >= h.len()
            &&& forall|i: int| 0 <= i < h.len() ==> same_bid(#[trigger] h2[i], h[i])
        }),
    decreases reqs.len(),
{
    if reqs.len() > 0 {
        lemma_bid_history_grows(s, reqs.drop_last(), token_id);
        let mid = s.run(reqs.drop_last());
        lemma_bid_history_step(mid, reqs.last(), token_id);
        let h = s.bids_of(token_id);
        let hm = mid.bids_of(token_id);
        let h2 = s.run(reqs).bids_of(token_id);
        assert forall|i: int| 0 <= i < h.len() implies same_bid(#[trigger] h2[i], h[i]) by {
            assert(same_bid(h2[i], hm[i]));
            assert(same_bid(hm[i], h[i]));
        }
    }
}

/// In a reachable state an artwork's record only ever changes in its
/// evolution count, and its evolutions only grow, keeping those recorded.
pub proof fn lemma_artwork_record_step(s: MarketView, req: Request, token_id: u64)
    requires
        market_invariant(s),
        s.artworks.contains_key(token_id),
    ensures
        ({
            let s2 = s.step(req);
            &&& s2.artworks.contains_key(token_id)
            &&& s2.artworks[token_id] == (Artwork {
                evolution_count: s2.artworks[token_id].evolution_count,
                ..s.artworks[token_id]
            })
            &&& s2.evolutions_of(token_id).len() >= s.evolutions_of(token_id).len()
            &&& s2.evolutions_of(token_id).subrange(0, s.evolutions_of(token_id).len() as int)
                == s.evolutions_of(token_id)
        }),
{
    let s2 = s.step(req);
    match req {
        Request::Mint { .. } => {
            assert(s2.evolutions_of(token_id) =~= s.evolutions_of(token_id));
        },
        Request::Evolve { evolver, token_id: t, prompt, new_ipfs_hash, now } => {
            if t == token_id && s.evolve_error(evolver@, t, now) is None {
                assert(s2.evolutions_of(token_id).subrange(0, s.evolutions_of(token_id).len() as int)
                    =~= s.evolutions_of(token_id));
            } else {
                assert(s2.evolutions_of(token_id) =~= s.evolutions_of(token_id));
            }
        },
        _ => {
            assert(s2.evolutions_of(token_id) =~= s.evolutions_of(token_id));
        },
    }
}

/// In every reachable state, while an auction holds an escrow the highest
/// bid that `get_highest_bid` reports is the escrowed bid: the last entry of
/// the bid history, by the escrowed bidder for the escrowed amount.
pub proof fn lemma_reachable_highest_bid_is_escrowed(reqs: Seq<Request>, token_id: u64)
    ensures
        ({
            let s = MarketView::empty().run(reqs);
            let h = s.bids_of(token_id);
            s.escrows.contains_key(token_id) ==> {
                let e = s.escrows[token_id];
                &&& latest_live_bid_at(h, e.highest_bidder@, e.highest_amount, h.len() - 1)
                &&& h.last().bidder == e.highest_bidder
                &&& h.last().amount == e.highest_amount
            }
        }),
{
    lemma_reachable_states_keep_invariant(reqs);
    let s = MarketView::empty().run(reqs);
    if s.escrows.contains_key(token_id) {
        lemma_highest_bid_is_escrowed(s, token_id);
    }
}

/// Every request series from a state satisfying the invariant ends in a
/// state satisfying it.
pub proof fn lemma_run_keeps_invariant(s: MarketView, reqs: Seq<Request>)
    requires
        market_invariant(s),
    ensures
        market_invariant(s.run(reqs)),
    decreases reqs.len(),
{
    if reqs.len() > 0 {
        lemma_run_keeps_invariant(s, reqs.drop_last());
        lemma_step_keeps_invariant(s.run(reqs.drop_last()), reqs.last());
    }
}

/// The bids accepted on `token_id` over a series of requests, in order, as
/// they were placed.
pub open spec fn accepted_bids(s: MarketView, reqs: Seq<Request>, token_id: u64) -> Seq<Bid>
    decreases reqs.len(),
{
    if reqs.len() == 0 {
        Seq::empty()
    } else {
        let earlier = accepted_bids(s, reqs.drop_last(), token_id);
        let mid = s.run(reqs.drop_last());
        match reqs.last() {
            Request::PlaceBid { bidder, token_id: t, amount, payment_token, now } => if t == token_id
                && mid.bid_error(t, amount, now) is None {
                earlier.push(Bid { token_id, bidder, amount, timestamp: now, active: true })
            } else {
                earlier
            },
            _ => earlier,
        }
    }
}

/// The bid history of a token is what it was plus every bid accepted on it
/// since, in order, with its bidder, amount and time (an entry may since
/// have been made inactive by a later bid); settling, cancelling and
/// relisting never shorten it.
pub proof fn lemma_bid_history_records_accepted_bids(s: MarketView, reqs: Seq<Request>, token_id: u64)
    ensures
        ({
            let h = s.run(reqs).bids_of(token_id);
            let expected = s.bids_of(token_id) + accepted_bids(s, reqs, token_id);
            &&& h.len() == expected.len()
            &&& forall|i: int| 0 <= i < h.len() ==> same_bid(#[trigger] h[i], expected[i])
        }),
    decreases reqs.len(),
{
    if reqs.len() > 0 {
        let prefix = reqs.drop_last();
        lemma_bid_history_records_accepted_bids(s, prefix, token_id);
        let mid = s.run(prefix);
        lemma_bid_history_step(mid, reqs.last(), token_id);
        let hm = mid.bids_of(token_id);
        let h = s.run(reqs).bids_of(token_id);
        let em = s.bids_of(token_id) + accepted_bids(s, prefix, token_id);
        let expected = s.bids_of(token_id) + accepted_bids(s, reqs, token_id);
        assert forall|i: int| 0 <= i < h.len() implies same_bid(#[trigger] h[i], expected[i]) by {
            if i < hm.len() {
                assert(same_bid(h[i], hm[i]));
                assert(same_bid(hm[i], em[i]));
                assert(expected[i] == em[i]);
            } else {
                assert(expected[i] == h[i]);
            }
        }
    }
}

/// From a fresh contract, a token's bid history holds exactly the bids
/// accepted on it, in order.
pub proof fn lemma_bid_history_since_start(reqs: Seq<Request>, token_id: u64)
    ensures
        ({
            let h = MarketView::empty().run(reqs).bids_of(token_id);
            let accepted = accepted_bids(MarketView::empty(), reqs, token_id);
            &&& h.len() == accepted.len()
            &&& forall|i: int| 0 <= i < h.len() ==> same_bid(#[trigger] h[i], accepted[i])
        }),
{
    lemma_bid_history_records_accepted_bids(MarketView::empty(), reqs, token_id);
    assert(MarketView::empty().bids_of(token_id) + accepted_bids(MarketView::empty(), reqs, token_id)
        =~= accepted_bids(MarketView::empty(), reqs, token_id));
}

/// The evolutions accepted on `token_id` over a series of requests, in
/// order, as they were recorded.
pub open spec fn accepted_evolutions(s: MarketView, reqs: Seq<Request>, token_id: u64) -> Seq<Evolution>
    decreases reqs.len(),
{
    if reqs.len() == 0 {
        Seq::empty()
    } else {
        let earlier = accepted_evolutions(s, reqs.drop_last(), token_id);
        let mid = s.run(reqs.drop_last());
        match reqs.last() {
            Request::Evolve { evolver, token_id: t, prompt, new_ipfs_hash, now } => if t == token_id
                && mid.evolve_error(evolver@, t, now) is None {
                earlier.push(
                    Evolution {
                        token_id,
                        evolution_id: mid.next_evolution_id(token_id),
                        evolver,
                        prompt,
                        new_ipfs_hash,
                        timestamp: now,
                    },
                )
            } else {
                earlier
            },
            _ => earlier,
        }
    }
}

/// A token's evolutions are what they were plus every evolution accepted on
/// it since, in order.
pub proof fn lemma_evolution_history(s: MarketView, reqs: Seq<Request>, token_id: u64)
    ensures
        s.run(reqs).evolutions_of(token_id) == s.evolutions_of(token_id) + accepted_evolutions(
            s,
            reqs,
            token_id,
        ),
    decreases reqs.len(),
{
    if reqs.len() == 0 {
        assert(s.evolutions_of(token_id) + Seq::<Evolution>::empty() =~= s.evolutions_of(token_id));
    } else {
        let prefix = reqs.drop_last();
        lemma_evolution_history(s, prefix, token_id);
        let mid = s.run(prefix);
        let fin = s.run(reqs);
        let before = s.evolutions_of(token_id) + accepted_evolutions(s, prefix, token_id);
        match reqs.last() {
            Request::Evolve { evolver, token_id: t, prompt, new_ipfs_hash, now } => {
                if t == token_id && mid.evolve_error(evolver@, t, now) is None {
                    assert(fin.evolutions_of(token_id) =~= mid.evolutions_of(token_id).push(
                        fin.evolutions_of(token_id).last(),
                    ));
                    assert(s.evolutions_of(token_id) + accepted_evolutions(s, reqs, token_id) =~= before.push(
                        fin.evolutions_of(token_id).last(),
                    ));
                } else {
                    assert(fin.evolutions_of(token_id) =~= mid.evolutions_of(token_id));
                }
            },
            _ => {
                assert(fin.evolutions_of(token_id) =~= mid.evolutions_of(token_id));
            },
        }
    }
}

/// In a reachable state, after a series of requests an artwork is the
/// record its mint wrote with only its evolution count moved on by the
/// number of evolutions accepted since, and its evolutions are those it had
/// plus the accepted ones, numbered on from 1 in order.  (Right after its
/// mint a token has no evolutions, so after m evolutions its count is m and
/// they carry the ids 1 to m.)
pub proof fn lemma_artwork_after_evolutions(s: MarketView, reqs: Seq<Request>, token_id: u64)
    requires
        market_invariant(s),
        s.artworks.contains_key(token_id),
    ensures
        ({
            let fin = s.run(reqs);
            let added = accepted_evolutions(s, reqs, token_id);
            &&& fin.artworks.contains_key(token_id)
            &&& fin.artworks[token_id] == (Artwork {
                evolution_count: (s.artworks[token_id].evolution_count + added.len()) as u32,
                ..s.artworks[token_id]
            })
            &&& fin.evolutions_of(token_id) == s.evolutions_of(token_id) + added
            &&& forall|i: int|
                0 <= i < fin.evolutions_of(token_id).len() ==> (#[trigger] fin.evolutions_of(
                    token_id,
                )[i]).evolution_id == i + 1
        }),
    decreases reqs.len(),
{
    lemma_evolution_history(s, reqs, token_id);
    lemma_run_keeps_invariant(s, reqs);
    if reqs.len() > 0 {
        let prefix = reqs.drop_last();
        lemma_artwork_after_evolutions(s, prefix, token_id);
        let mid = s.run(prefix);
        lemma_run_keeps_invariant(s, prefix);
        lemma_artwork_record_step(mid, reqs.last(), token_id);
    }
    let fin = s.run(reqs);
    assert(fin.artworks.contains_key(token_id));
    assert(fin.artworks[token_id].evolution_count == fin.evolutions_of(token_id).len());
    assert(s.artworks[token_id].evolution_count == s.evolutions_of(token_id).len());
}

} // verus!
