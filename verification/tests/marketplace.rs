use wuta_marketplace::market::WutaWutaMarketplace;
use wuta_marketplace::types::{Address, AuctionSettlement, Bid, MarketError, Payout, Transfer};

const START: u64 = 1_000_000;
const DAY: u64 = 86_400;

fn addr(s: &str) -> Address {
    Address::new(s.to_string())
}

fn market_account() -> Address {
    addr("CMARKET")
}

fn xlm() -> Address {
    addr("CTOKEN")
}

fn fresh_market() -> WutaWutaMarketplace {
    let mut m = WutaWutaMarketplace::new();
    m.initialize(addr("GADMIN"), 250, addr("GTREASURY"), 1_000_000, DAY)
        .unwrap();
    m
}

fn mint_with(m: &mut WutaWutaMarketplace, creator: &str, royalty: u32, can_evolve: bool) -> u64 {
    m.mint_artwork(
        addr(creator),
        "QmHash".to_string(),
        "Sunrise".to_string(),
        "A generated sunrise".to_string(),
        "diffusion-v2".to_string(),
        royalty,
        false,
        0,
        0,
        can_evolve,
        START,
    )
    .unwrap()
}

fn transfer(token: &Address, from: &Address, to: &Address, amount: i128) -> Transfer {
    Transfer { token: token.clone(), from: from.clone(), to: to.clone(), amount }
}

// ----- initialize -----

#[test]
fn initialize_stores_settings_and_resets_counter() {
    let m = fresh_market();
    assert_eq!(m.admin, Some(addr("GADMIN")));
    assert_eq!(m.nft_counter, Some(0));
    assert_eq!(m.marketplace_fee, Some(250));
    assert_eq!(m.treasury, Some(addr("GTREASURY")));
    assert_eq!(m.evolution_fee, Some(1_000_000));
    assert_eq!(m.min_evolution_interval, Some(DAY));
}

#[test]
fn initialize_twice_is_refused() {
    let mut m = fresh_market();
    let r = m.initialize(addr("GOTHER"), 100, addr("GOTHER"), 5, 5);
    assert_eq!(r, Err(MarketError::AlreadyInitialized));
    assert_eq!(m.admin, Some(addr("GADMIN")));
    assert_eq!(m.marketplace_fee, Some(250));
}

// ----- mint_artwork -----

#[test]
fn mint_before_initialize_is_refused() {
    let mut m = WutaWutaMarketplace::new();
    let r = m.mint_artwork(
        addr("GALICE"),
        "Qm".to_string(),
        "T".to_string(),
        String::new(),
        "m".to_string(),
        0,
        false,
        0,
        0,
        false,
        START,
    );
    assert_eq!(r, Err(MarketError::NotInitialized));
    assert_eq!(m.nft_counter, None);
}

#[test]
fn mint_gives_sequential_ids_owned_by_creator() {
    let mut m = fresh_market();
    let first = mint_with(&mut m, "GALICE", 500, true);
    let second = mint_with(&mut m, "GALICE", 0, false);
    let third = mint_with(&mut m, "GBOB", 0, false);
    assert_eq!((first, second, third), (1, 2, 3));
    assert_eq!(m.nft_counter, Some(3));
    assert_eq!(m.get_token_owner(1), Ok(addr("GALICE")));
    assert_eq!(m.get_token_owner(3), Ok(addr("GBOB")));
    assert_eq!(m.get_creator_tokens(&addr("GALICE")), vec![1, 2]);
    assert_eq!(m.get_creator_tokens(&addr("GBOB")), vec![3]);
    let art = m.get_artwork(1).unwrap();
    assert_eq!(art.token_id, 1);
    assert_eq!(art.creator, addr("GALICE"));
    assert_eq!(art.title, "Sunrise".to_string());
    assert_eq!(art.creation_timestamp, START);
    assert_eq!(art.royalty_percentage, 500);
    assert_eq!(art.evolution_count, 0);
    assert!(art.can_evolve);
}

#[test]
fn mint_checks_required_fields_in_order() {
    let mut m = fresh_market();
    let attempt = |m: &mut WutaWutaMarketplace, ipfs: &str, title: &str, model: &str, royalty: u32| {
        m.mint_artwork(
            addr("GALICE"),
            ipfs.to_string(),
            title.to_string(),
            String::new(),
            model.to_string(),
            royalty,
            false,
            0,
            0,
            false,
            START,
        )
    };
    assert_eq!(attempt(&mut m, "", "", "", 2000), Err(MarketError::IpfsHashRequired));
    assert_eq!(attempt(&mut m, "Qm", "", "", 2000), Err(MarketError::TitleRequired));
    assert_eq!(attempt(&mut m, "Qm", "T", "", 2000), Err(MarketError::AiModelRequired));
    assert_eq!(attempt(&mut m, "Qm", "T", "m", 1001), Err(MarketError::RoyaltyTooHigh));
    assert_eq!(attempt(&mut m, "Qm", "T", "m", 1000), Ok(1));
    assert_eq!(m.nft_counter, Some(1));
}

#[test]
fn mint_collaborative_contributions_must_sum_to_100() {
    let mut m = fresh_market();
    let attempt = |m: &mut WutaWutaMarketplace, ai: u32, human: u32| {
        m.mint_artwork(
            addr("GALICE"),
            "Qm".to_string(),
            "T".to_string(),
            String::new(),
            "m".to_string(),
            0,
            true,
            ai,
            human,
            false,
            START,
        )
    };
    assert_eq!(attempt(&mut m, 60, 30), Err(MarketError::ContributionsMustSumTo100));
    assert_eq!(attempt(&mut m, u32::MAX, 101), Err(MarketError::ArithmeticOverflow));
    assert_eq!(attempt(&mut m, 70, 30), Ok(1));
    let art = m.get_artwork(1).unwrap();
    assert!(art.is_collaborative);
    assert_eq!((art.ai_contribution, art.human_contribution), (70, 30));
}

#[test]
fn mint_counter_overflow_is_refused() {
    let mut m = fresh_market();
    m.nft_counter = Some(u64::MAX);
    let r = m.mint_artwork(
        addr("GALICE"),
        "Qm".to_string(),
        "T".to_string(),
        String::new(),
        "m".to_string(),
        0,
        false,
        0,
        0,
        false,
        START,
    );
    assert_eq!(r, Err(MarketError::ArithmeticOverflow));
    assert_eq!(m.nft_counter, Some(u64::MAX));
}

// ----- list_artwork -----

#[test]
fn list_artwork_refusals() {
    let mut m = fresh_market();
    let id = mint_with(&mut m, "GALICE", 0, false);
    let alice = addr("GALICE");
    assert_eq!(
        m.list_artwork(alice.clone(), 99, 100, DAY, false, None, START),
        Err(MarketError::TokenNotFound)
    );
    assert_eq!(
        m.list_artwork(addr("GBOB"), id, 100, DAY, false, None, START),
        Err(MarketError::NotTokenOwner)
    );
    assert_eq!(
        m.list_artwork(alice.clone(), id, 0, DAY, false, None, START),
        Err(MarketError::PriceNotPositive)
    );
    assert_eq!(
        m.list_artwork(alice.clone(), id, 100, 0, false, None, START),
        Err(MarketError::DurationNotPositive)
    );
    assert_eq!(
        m.list_artwork(alice.clone(), id, 100, 2_592_001, false, None, START),
        Err(MarketError::DurationTooLong)
    );
    assert_eq!(
        m.list_artwork(alice.clone(), id, 100, DAY, true, None, START),
        Err(MarketError::ReserveRequired)
    );
    assert_eq!(
        m.list_artwork(alice.clone(), id, 100, DAY, true, Some(0), START),
        Err(MarketError::ReserveNotPositive)
    );
    assert_eq!(m.get_listing(id), Err(MarketError::ListingNotFound));
    assert_eq!(m.list_artwork(alice.clone(), id, 100, 2_592_000, false, None, START), Ok(()));
    assert_eq!(
        m.list_artwork(alice, id, 100, DAY, false, None, START),
        Err(MarketError::AlreadyListed)
    );
}

#[test]
fn list_artwork_records_an_active_listing() {
    let mut m = fresh_market();
    let id = mint_with(&mut m, "GALICE", 0, false);
    m.list_artwork(addr("GALICE"), id, 5_000, DAY, true, Some(4_000), START).unwrap();
    let l = m.get_listing(id).unwrap();
    assert_eq!(l.token_id, id);
    assert_eq!(l.seller, addr("GALICE"));
    assert_eq!(l.price, 5_000);
    assert_eq!(l.start_time, START);
    assert_eq!(l.duration, DAY);
    assert!(l.active);
    assert!(l.auction_style);
    assert_eq!(l.reserve_price, Some(4_000));
    assert!(m.get_active_listings().is_empty());
}

// ----- buy_artwork -----

#[test]
fn buy_splits_price_between_treasury_creator_and_seller() {
    let mut m = fresh_market();
    let id = mint_with(&mut m, "GALICE", 500, false);
    let alice = addr("GALICE");
    let bob = addr("GBOB");
    m.list_artwork(alice.clone(), id, 10_000, DAY, false, None, START).unwrap();
    let (payout, transfers) = m.buy_artwork(bob.clone(), id, xlm(), START + 10).unwrap();
    assert_eq!(payout, Payout { fee_amount: 250, royalty_amount: 500, seller_amount: 9_250 });
    assert_eq!(
        transfers,
        vec![
            transfer(&xlm(), &bob, &addr("GTREASURY"), 250),
            transfer(&xlm(), &bob, &alice, 500),
            transfer(&xlm(), &bob, &alice, 9_250),
        ]
    );
    let paid: i128 = transfers.iter().map(|t| t.amount).sum();
    assert_eq!(paid, 10_000);
    assert_eq!(m.get_token_owner(id), Ok(bob.clone()));
    assert_eq!(m.get_creator_tokens(&alice), Vec::<u64>::new());
    assert_eq!(m.get_creator_tokens(&bob), vec![id]);
    assert!(!m.get_listing(id).unwrap().active);
    assert_eq!(m.royalty_history.len(), 1);
    assert_eq!(m.royalty_history[0].amount, 500);
    assert_eq!(m.royalty_history[0].creator, alice);
    assert_eq!(m.royalty_history[0].timestamp, START + 10);
}

#[test]
fn buy_without_royalty_skips_the_royalty_payment() {
    let mut m = fresh_market();
    let id = mint_with(&mut m, "GALICE", 0, false);
    let alice = addr("GALICE");
    let bob = addr("GBOB");
    m.list_artwork(alice.clone(), id, 999, DAY, false, None, START).unwrap();
    let (payout, transfers) = m.buy_artwork(bob.clone(), id, xlm(), START).unwrap();
    // 2.5% of 999 is 24.975, rounded toward zero
    assert_eq!(payout, Payout { fee_amount: 24, royalty_amount: 0, seller_amount: 975 });
    assert_eq!(
        transfers,
        vec![transfer(&xlm(), &bob, &addr("GTREASURY"), 24), transfer(&xlm(), &bob, &alice, 975)]
    );
    assert!(m.royalty_history.is_empty());
}

#[test]
fn buy_refusals() {
    let mut m = fresh_market();
    let id = mint_with(&mut m, "GALICE", 0, false);
    let auction_id = mint_with(&mut m, "GALICE", 0, false);
    let alice = addr("GALICE");
    let bob = addr("GBOB");
    assert_eq!(m.buy_artwork(bob.clone(), id, xlm(), START), Err(MarketError::ListingNotFound));
    m.list_artwork(alice.clone(), id, 100, DAY, false, None, START).unwrap();
    m.list_artwork(alice.clone(), auction_id, 100, DAY, true, Some(50), START).unwrap();
    assert_eq!(
        m.buy_artwork(bob.clone(), auction_id, xlm(), START),
        Err(MarketError::UseAuctionFunctions)
    );
    assert_eq!(
        m.buy_artwork(bob.clone(), id, xlm(), START + DAY),
        Err(MarketError::ListingExpired)
    );
    assert!(m.buy_artwork(bob.clone(), id, xlm(), START + DAY - 1).is_ok());
    assert_eq!(m.buy_artwork(bob, id, xlm(), START + 1), Err(MarketError::ListingNotActive));
}

#[test]
fn buy_with_listing_end_past_u64_is_refused() {
    let mut m = fresh_market();
    let id = mint_with(&mut m, "GALICE", 0, false);
    m.list_artwork(addr("GALICE"), id, 100, DAY, false, None, u64::MAX - 5).unwrap();
    assert_eq!(
        m.buy_artwork(addr("GBOB"), id, xlm(), u64::MAX - 4),
        Err(MarketError::ArithmeticOverflow)
    );
    assert_eq!(m.get_time_remaining(id, 0), Err(MarketError::ArithmeticOverflow));
}

#[test]
fn buy_without_treasury_or_artwork_is_refused() {
    let mut m = fresh_market();
    let id = mint_with(&mut m, "GALICE", 0, false);
    m.list_artwork(addr("GALICE"), id, 100, DAY, false, None, START).unwrap();
    m.treasury = None;
    assert_eq!(m.buy_artwork(addr("GBOB"), id, xlm(), START), Err(MarketError::TreasuryNotSet));
    m.treasury = Some(addr("GTREASURY"));
    m.artworks.remove(&id);
    assert_eq!(m.buy_artwork(addr("GBOB"), id, xlm(), START), Err(MarketError::ArtworkNotFound));
    assert!(m.get_listing(id).unwrap().active);
}

#[test]
fn buy_with_overflowing_fee_is_refused() {
    let mut m = fresh_market();
    let id = mint_with(&mut m, "GALICE", 0, false);
    m.list_artwork(addr("GALICE"), id, i128::MAX, DAY, false, None, START).unwrap();
    assert_eq!(
        m.buy_artwork(addr("GBOB"), id, xlm(), START),
        Err(MarketError::ArithmeticOverflow)
    );
}

#[test]
fn default_marketplace_fee_is_250_basis_points() {
    let mut m = fresh_market();
    m.marketplace_fee = None;
    let id = mint_with(&mut m, "GALICE", 0, false);
    m.list_artwork(addr("GALICE"), id, 10_000, DAY, false, None, START).unwrap();
    let (payout, _) = m.buy_artwork(addr("GBOB"), id, xlm(), START).unwrap();
    assert_eq!(payout.fee_amount, 250);
}

// ----- auctions -----

fn auction_market(reserve: i128) -> (WutaWutaMarketplace, u64) {
    let mut m = fresh_market();
    let id = mint_with(&mut m, "GALICE", 1_000, false);
    m.list_artwork(addr("GALICE"), id, 50, DAY, true, Some(reserve), START).unwrap();
    (m, id)
}

#[test]
fn first_bid_must_meet_reserve() {
    let (mut m, id) = auction_market(100);
    assert_eq!(
        m.make_bid(addr("GBOB"), id, 99, xlm(), &market_account(), START),
        Err(MarketError::BidTooLow)
    );
    let ts = m.make_bid(addr("GBOB"), id, 100, xlm(), &market_account(), START).unwrap();
    assert_eq!(ts, vec![transfer(&xlm(), &addr("GBOB"), &market_account(), 100)]);
    let e = m.get_auction_escrow(id).unwrap();
    assert_eq!(e.highest_bidder, addr("GBOB"));
    assert_eq!(e.highest_amount, 100);
    assert_eq!(e.payment_token, xlm());
}

#[test]
fn next_bid_must_outbid_by_five_percent_and_refunds_previous() {
    let (mut m, id) = auction_market(100);
    let market = market_account();
    m.make_bid(addr("GBOB"), id, 100, xlm(), &market, START).unwrap();
    assert_eq!(
        m.make_bid(addr("GCAROL"), id, 104, xlm(), &market, START + 1),
        Err(MarketError::BidTooLow)
    );
    let ts = m.make_bid(addr("GCAROL"), id, 105, xlm(), &market, START + 1).unwrap();
    assert_eq!(
        ts,
        vec![
            transfer(&xlm(), &market, &addr("GBOB"), 100),
            transfer(&xlm(), &addr("GCAROL"), &market, 105),
        ]
    );
    let bids = m.get_token_bids(id);
    assert_eq!(bids.len(), 2);
    assert!(!bids[0].active);
    assert_eq!(bids[0].bidder, addr("GBOB"));
    assert!(bids[1].active);
    assert_eq!(bids[1].amount, 105);
    assert_eq!(bids[1].timestamp, START + 1);
    let highest = m.get_highest_bid(id).unwrap();
    assert_eq!(highest.bidder, addr("GCAROL"));
    assert_eq!(highest.amount, 105);
    assert_eq!(m.get_auction_escrow(id).unwrap().highest_amount, 105);
}

#[test]
fn bid_refusals() {
    let mut m = fresh_market();
    let fixed = mint_with(&mut m, "GALICE", 0, false);
    m.list_artwork(addr("GALICE"), fixed, 50, DAY, false, None, START).unwrap();
    let market = market_account();
    assert_eq!(
        m.make_bid(addr("GBOB"), 42, 100, xlm(), &market, START),
        Err(MarketError::ListingNotFound)
    );
    assert_eq!(
        m.make_bid(addr("GBOB"), fixed, 100, xlm(), &market, START),
        Err(MarketError::NotAnAuction)
    );
    let (mut m, id) = auction_market(100);
    assert_eq!(
        m.make_bid(addr("GBOB"), id, 500, xlm(), &market, START + DAY),
        Err(MarketError::AuctionHasEnded)
    );
    m.cancel_listing(&addr("GALICE"), id, &market).unwrap();
    assert_eq!(
        m.make_bid(addr("GBOB"), id, 500, xlm(), &market, START),
        Err(MarketError::ListingNotActive)
    );
}

#[test]
fn bid_after_huge_escrow_overflows() {
    let (mut m, id) = auction_market(100);
    let market = market_account();
    m.make_bid(addr("GBOB"), id, i128::MAX, xlm(), &market, START).unwrap();
    assert_eq!(
        m.make_bid(addr("GCAROL"), id, i128::MAX, xlm(), &market, START),
        Err(MarketError::ArithmeticOverflow)
    );
}

#[test]
fn end_auction_pays_out_escrow_and_transfers_token() {
    let (mut m, id) = auction_market(100);
    let market = market_account();
    m.make_bid(addr("GBOB"), id, 1_000, xlm(), &market, START).unwrap();
    assert_eq!(m.end_auction(id, &market, START + DAY - 1), Err(MarketError::AuctionNotEnded));
    let (settlement, ts) = m.end_auction(id, &market, START + DAY).unwrap();
    let payout = Payout { fee_amount: 25, royalty_amount: 100, seller_amount: 875 };
    assert_eq!(settlement, AuctionSettlement::Sold { winner: addr("GBOB"), amount: 1_000, payout });
    assert_eq!(
        ts,
        vec![
            transfer(&xlm(), &market, &addr("GTREASURY"), 25),
            transfer(&xlm(), &market, &addr("GALICE"), 100),
            transfer(&xlm(), &market, &addr("GALICE"), 875),
        ]
    );
    let released: i128 = ts.iter().map(|t| t.amount).sum();
    assert_eq!(released, 1_000);
    assert_eq!(m.get_auction_escrow(id), None);
    assert_eq!(m.get_token_owner(id), Ok(addr("GBOB")));
    assert_eq!(m.get_creator_tokens(&addr("GBOB")), vec![id]);
    assert!(!m.get_listing(id).unwrap().active);
    assert_eq!(m.royalty_history.len(), 1);
    assert_eq!(m.end_auction(id, &market, START + DAY), Err(MarketError::ListingNotActive));
}

#[test]
fn end_auction_without_bids_just_closes() {
    let (mut m, id) = auction_market(100);
    let (settlement, ts) = m.end_auction(id, &market_account(), START + 2 * DAY).unwrap();
    assert_eq!(settlement, AuctionSettlement::NoBids);
    assert!(ts.is_empty());
    assert!(!m.get_listing(id).unwrap().active);
    assert_eq!(m.get_token_owner(id), Ok(addr("GALICE")));
}

#[test]
fn end_auction_with_unmet_reserve_refunds_and_relists() {
    let (mut m, id) = auction_market(100);
    let market = market_account();
    m.make_bid(addr("GBOB"), id, 100, xlm(), &market, START).unwrap();
    // A reserve above the escrowed bid cannot arise through the operations;
    // it is written here directly.
    let mut l = m.get_listing(id).unwrap();
    l.reserve_price = Some(500);
    m.listings.insert(id, l);
    let (settlement, ts) = m.end_auction(id, &market, START + DAY).unwrap();
    assert_eq!(settlement, AuctionSettlement::ReserveNotMet { bidder: addr("GBOB"), amount: 100 });
    assert_eq!(ts, vec![transfer(&xlm(), &market, &addr("GBOB"), 100)]);
    assert_eq!(m.get_auction_escrow(id), None);
    assert_eq!(m.get_token_owner(id), Ok(addr("GALICE")));
    let relisted = m.get_listing(id).unwrap();
    assert!(relisted.active);
    assert_eq!(relisted.seller, addr("GALICE"));
    assert_eq!(relisted.start_time, START + DAY);
    assert_eq!(relisted.duration, DAY);
    assert_eq!(relisted.reserve_price, Some(500));
    // the bid history is kept as it was
    let bids = m.get_token_bids(id);
    assert_eq!(bids.len(), 1);
    assert!(bids[0].active);
    assert_eq!(m.get_highest_bid(id), None);
}

#[test]
fn end_auction_refusals() {
    let mut m = fresh_market();
    let fixed = mint_with(&mut m, "GALICE", 0, false);
    m.list_artwork(addr("GALICE"), fixed, 50, DAY, false, None, START).unwrap();
    assert_eq!(m.end_auction(77, &market_account(), START), Err(MarketError::ListingNotFound));
    assert_eq!(
        m.end_auction(fixed, &market_account(), START + DAY),
        Err(MarketError::NotAnAuction)
    );
}

// ----- cancel_listing -----

#[test]
fn cancel_refunds_the_escrow() {
    let (mut m, id) = auction_market(100);
    let market = market_account();
    m.make_bid(addr("GBOB"), id, 300, xlm(), &market, START).unwrap();
    assert_eq!(m.cancel_listing(&addr("GBOB"), id, &market), Err(MarketError::NotTheSeller));
    let ts = m.cancel_listing(&addr("GALICE"), id, &market).unwrap();
    assert_eq!(ts, vec![transfer(&xlm(), &market, &addr("GBOB"), 300)]);
    assert_eq!(m.get_auction_escrow(id), None);
    assert!(!m.get_listing(id).unwrap().active);
    assert_eq!(m.cancel_listing(&addr("GALICE"), id, &market), Err(MarketError::ListingNotActive));
    assert_eq!(m.cancel_listing(&addr("GALICE"), 9, &market), Err(MarketError::ListingNotFound));
}

#[test]
fn cancel_fixed_price_listing_moves_nothing() {
    let mut m = fresh_market();
    let id = mint_with(&mut m, "GALICE", 0, false);
    m.list_artwork(addr("GALICE"), id, 50, DAY, false, None, START).unwrap();
    let ts = m.cancel_listing(&addr("GALICE"), id, &market_account()).unwrap();
    assert!(ts.is_empty());
    assert!(!m.get_listing(id).unwrap().active);
    // once cancelled the token can be listed again
    assert_eq!(m.list_artwork(addr("GALICE"), id, 70, DAY, false, None, START + 5), Ok(()));
}

// ----- evolve_artwork -----

#[test]
fn evolve_charges_fee_and_numbers_evolutions() {
    let mut m = fresh_market();
    let id = mint_with(&mut m, "GALICE", 0, true);
    let alice = addr("GALICE");
    let (first, ts) = m
        .evolve_artwork(alice.clone(), id, "more blue".to_string(), "QmBlue".to_string(), xlm(), START + DAY)
        .unwrap();
    assert_eq!(first, 1);
    assert_eq!(ts, vec![transfer(&xlm(), &alice, &addr("GTREASURY"), 1_000_000)]);
    m.update_evolution_fee(0).unwrap();
    let (second, ts) = m
        .evolve_artwork(alice.clone(), id, "stars".to_string(), "QmStars".to_string(), xlm(), START + DAY)
        .unwrap();
    assert_eq!(second, 2);
    assert!(ts.is_empty());
    let evolutions = m.get_evolutions(id);
    assert_eq!(evolutions.len(), 2);
    assert_eq!(evolutions[0].evolution_id, 1);
    assert_eq!(evolutions[0].prompt, "more blue".to_string());
    assert_eq!(evolutions[1].evolution_id, 2);
    assert_eq!(evolutions[1].new_ipfs_hash, "QmStars".to_string());
    assert_eq!(m.get_artwork(id).unwrap().evolution_count, 2);
}

#[test]
fn evolve_refusals() {
    let mut m = fresh_market();
    let frozen = mint_with(&mut m, "GALICE", 0, false);
    let living = mint_with(&mut m, "GALICE", 0, true);
    let alice = addr("GALICE");
    let evolve = |m: &mut WutaWutaMarketplace, who: &Address, id: u64, now: u64| {
        m.evolve_artwork(who.clone(), id, "p".to_string(), "h".to_string(), xlm(), now)
    };
    assert_eq!(evolve(&mut m, &alice, 50, START + DAY), Err(MarketError::TokenNotFound));
    assert_eq!(evolve(&mut m, &addr("GBOB"), living, START + DAY), Err(MarketError::NotTokenOwner));
    assert_eq!(evolve(&mut m, &alice, frozen, START + DAY), Err(MarketError::ArtworkCannotEvolve));
    assert_eq!(
        evolve(&mut m, &alice, living, START + DAY - 1),
        Err(MarketError::EvolutionIntervalNotMet)
    );
    m.treasury = None;
    assert_eq!(evolve(&mut m, &alice, living, START + DAY), Err(MarketError::TreasuryNotSet));
    assert!(m.get_evolutions(living).is_empty());
}

#[test]
fn evolve_default_interval_and_fee_apply_when_unset() {
    let mut m = fresh_market();
    m.min_evolution_interval = None;
    m.evolution_fee = None;
    let id = mint_with(&mut m, "GALICE", 0, true);
    let alice = addr("GALICE");
    assert_eq!(
        m.evolve_artwork(alice.clone(), id, "p".to_string(), "h".to_string(), xlm(), START + 86_399),
        Err(MarketError::EvolutionIntervalNotMet)
    );
    let (_, ts) = m
        .evolve_artwork(alice.clone(), id, "p".to_string(), "h".to_string(), xlm(), START + 86_400)
        .unwrap();
    assert_eq!(ts[0].amount, 1_000_000);
}

// ----- admin settings -----

#[test]
fn admin_settings_are_bounded() {
    let mut m = fresh_market();
    assert_eq!(m.update_marketplace_fee(1001), Err(MarketError::FeeTooHigh));
    assert_eq!(m.update_marketplace_fee(1000), Ok(()));
    assert_eq!(m.marketplace_fee, Some(1000));
    assert_eq!(m.update_evolution_fee(-1), Err(MarketError::FeeNegative));
    assert_eq!(m.update_evolution_fee(7), Ok(()));
    assert_eq!(m.evolution_fee, Some(7));
    assert_eq!(m.update_treasury(addr("GNEWTREASURY")), Ok(()));
    assert_eq!(m.treasury, Some(addr("GNEWTREASURY")));
}

#[test]
fn admin_settings_need_initialisation() {
    let mut m = WutaWutaMarketplace::new();
    assert_eq!(m.update_marketplace_fee(10), Err(MarketError::NotInitialized));
    assert_eq!(m.update_evolution_fee(10), Err(MarketError::NotInitialized));
    assert_eq!(m.update_treasury(addr("GX")), Err(MarketError::NotInitialized));
    assert_eq!(m.marketplace_fee, None);
}

// ----- queries -----

#[test]
fn time_remaining_counts_down_to_zero() {
    let mut m = fresh_market();
    let id = mint_with(&mut m, "GALICE", 0, false);
    m.list_artwork(addr("GALICE"), id, 50, DAY, false, None, START).unwrap();
    assert_eq!(m.get_time_remaining(id, START), Ok(DAY));
    assert_eq!(m.get_time_remaining(id, START + 400), Ok(DAY - 400));
    assert_eq!(m.get_time_remaining(id, START + DAY), Ok(0));
    assert_eq!(m.get_time_remaining(id, START + 5 * DAY), Ok(0));
    assert_eq!(m.get_time_remaining(id + 1, START), Err(MarketError::ListingNotFound));
}

#[test]
fn missing_records_are_reported() {
    let m = fresh_market();
    assert_eq!(m.get_artwork(1), Err(MarketError::ArtworkNotFound));
    assert_eq!(m.get_listing(1), Err(MarketError::ListingNotFound));
    assert_eq!(m.get_token_owner(1), Err(MarketError::TokenNotFound));
    assert_eq!(m.get_auction_escrow(1), None);
    assert_eq!(m.get_highest_bid(1), None);
    assert!(m.get_token_bids(1).is_empty());
    assert!(m.get_evolutions(1).is_empty());
    assert!(m.get_creator_tokens(&addr("GNOBODY")).is_empty());
}

#[test]
fn highest_bid_is_latest_live_bid_of_the_escrow() {
    let mut m = fresh_market();
    let bid = |who: &str, amount: i128, time: u64, active: bool| Bid {
        token_id: 1,
        bidder: addr(who),
        amount,
        timestamp: START + time,
        active,
    };
    m.auction_bids.insert(
        1,
        vec![
            bid("GA", 900, 0, true),
            bid("GB", 300, 1, true),
            bid("GB", 300, 2, true),
            bid("GB", 300, 3, false),
            bid("GC", 100, 4, true),
        ],
    );
    assert_eq!(m.get_highest_bid(1), None);
    m.escrows.insert(
        1,
        wuta_marketplace::types::AuctionEscrow {
            token_id: 1,
            highest_bidder: addr("GB"),
            highest_amount: 300,
            payment_token: xlm(),
        },
    );
    let best = m.get_highest_bid(1).unwrap();
    assert_eq!(best.bidder, addr("GB"));
    assert_eq!(best.timestamp, START + 2);
    m.escrows.insert(
        1,
        wuta_marketplace::types::AuctionEscrow {
            token_id: 1,
            highest_bidder: addr("GD"),
            highest_amount: 300,
            payment_token: xlm(),
        },
    );
    assert_eq!(m.get_highest_bid(1), None);
}

#[test]
fn highest_bid_is_the_current_auctions_escrowed_bid() {
    let (mut m, id) = auction_market(100);
    let market = market_account();
    m.make_bid(addr("GBOB"), id, 1_000, xlm(), &market, START).unwrap();
    m.end_auction(id, &market, START + DAY).unwrap();
    let bids = m.get_token_bids(id);
    assert_eq!(bids.len(), 1);
    assert!(bids[0].active);
    assert_eq!(m.get_highest_bid(id), None);
    let later = START + 2 * DAY;
    m.list_artwork(addr("GBOB"), id, 50, DAY, true, Some(100), later).unwrap();
    m.make_bid(addr("GCAROL"), id, 200, xlm(), &market, later).unwrap();
    let escrow = m.get_auction_escrow(id).unwrap();
    let highest = m.get_highest_bid(id).unwrap();
    assert_eq!(highest.bidder, escrow.highest_bidder);
    assert_eq!(highest.amount, 200);
    assert_eq!(escrow.highest_amount, 200);
    assert_eq!(highest.timestamp, later);
}

#[test]
fn settled_listing_refuses_everything_until_relisted() {
    let (mut m, id) = auction_market(100);
    let market = market_account();
    m.make_bid(addr("GBOB"), id, 1_000, xlm(), &market, START).unwrap();
    m.end_auction(id, &market, START + DAY).unwrap();
    let later = START + DAY + 1;
    assert_eq!(m.end_auction(id, &market, later), Err(MarketError::ListingNotActive));
    assert_eq!(
        m.make_bid(addr("GCAROL"), id, 5_000, xlm(), &market, later),
        Err(MarketError::ListingNotActive)
    );
    assert_eq!(m.buy_artwork(addr("GCAROL"), id, xlm(), later), Err(MarketError::ListingNotActive));
    assert_eq!(m.cancel_listing(&addr("GALICE"), id, &market), Err(MarketError::ListingNotActive));
    assert_eq!(
        m.list_artwork(addr("GALICE"), id, 10, DAY, false, None, later),
        Err(MarketError::NotTokenOwner)
    );
    assert_eq!(m.list_artwork(addr("GBOB"), id, 10, DAY, false, None, later), Ok(()));
}

#[test]
fn resale_moves_token_between_lists() {
    let mut m = fresh_market();
    let id = mint_with(&mut m, "GALICE", 0, false);
    let other = mint_with(&mut m, "GALICE", 0, false);
    m.list_artwork(addr("GALICE"), id, 100, DAY, false, None, START).unwrap();
    m.buy_artwork(addr("GBOB"), id, xlm(), START).unwrap();
    m.list_artwork(addr("GBOB"), id, 200, DAY, false, None, START + 1).unwrap();
    m.buy_artwork(addr("GCAROL"), id, xlm(), START + 1).unwrap();
    assert_eq!(m.get_creator_tokens(&addr("GALICE")), vec![other]);
    assert!(m.get_creator_tokens(&addr("GBOB")).is_empty());
    assert_eq!(m.get_creator_tokens(&addr("GCAROL")), vec![id]);
    assert_eq!(m.get_token_owner(id), Ok(addr("GCAROL")));
}

#[test]
fn next_bid_minimum_rounds_up() {
    let mut m = fresh_market();
    let id = mint_with(&mut m, "GALICE", 0, false);
    m.list_artwork(addr("GALICE"), id, 5, 100, true, Some(5), 0).unwrap();
    let market = market_account();
    m.make_bid(addr("GB1"), id, 10, xlm(), &market, 1).unwrap();
    // 105% of 10 is 10.5, so the least acceptable bid is 11
    assert_eq!(m.make_bid(addr("GB2"), id, 10, xlm(), &market, 2), Err(MarketError::BidTooLow));
    assert_eq!(m.get_auction_escrow(id).unwrap().highest_bidder, addr("GB1"));
    assert_eq!(m.get_auction_escrow(id).unwrap().highest_amount, 10);
    assert!(m.make_bid(addr("GB2"), id, 11, xlm(), &market, 2).is_ok());
    assert_eq!(m.get_auction_escrow(id).unwrap().highest_amount, 11);
}

#[test]
fn outbid_refund_uses_the_escrowed_token() {
    let (mut m, id) = auction_market(100);
    let market = market_account();
    let other = addr("COTHERTOKEN");
    m.make_bid(addr("GBOB"), id, 100, xlm(), &market, START).unwrap();
    let ts = m.make_bid(addr("GCAROL"), id, 200, other.clone(), &market, START + 1).unwrap();
    assert_eq!(
        ts,
        vec![
            transfer(&xlm(), &market, &addr("GBOB"), 100),
            transfer(&other, &addr("GCAROL"), &market, 200),
        ]
    );
    assert_eq!(m.get_auction_escrow(id).unwrap().payment_token, other);
}

#[test]
fn cancel_keeps_bid_history() {
    let (mut m, id) = auction_market(100);
    let market = market_account();
    m.make_bid(addr("GBOB"), id, 300, xlm(), &market, START).unwrap();
    let before = m.get_token_bids(id);
    m.cancel_listing(&addr("GALICE"), id, &market).unwrap();
    assert_eq!(m.get_token_bids(id), before);
    assert!(before[0].active);
    assert_eq!(m.get_highest_bid(id), None);
}

#[test]
fn bid_history_keeps_every_accepted_bid() {
    let (mut m, id) = auction_market(100);
    let market = market_account();
    m.make_bid(addr("GBOB"), id, 100, xlm(), &market, START).unwrap();
    assert_eq!(
        m.make_bid(addr("GCAROL"), id, 101, xlm(), &market, START + 1),
        Err(MarketError::BidTooLow)
    );
    m.make_bid(addr("GCAROL"), id, 200, xlm(), &market, START + 2).unwrap();
    m.end_auction(id, &market, START + DAY).unwrap();
    let later = START + 2 * DAY;
    m.list_artwork(addr("GCAROL"), id, 50, DAY, true, Some(10), later).unwrap();
    m.make_bid(addr("GDAVE"), id, 10, xlm(), &market, later).unwrap();
    let bids = m.get_token_bids(id);
    let summary: Vec<(String, i128, u64)> =
        bids.iter().map(|b| (b.bidder.strkey.clone(), b.amount, b.timestamp)).collect();
    assert_eq!(
        summary,
        vec![
            ("GBOB".to_string(), 100, START),
            ("GCAROL".to_string(), 200, START + 2),
            ("GDAVE".to_string(), 10, later),
        ]
    );
    assert!(!bids[0].active);
    assert!(bids[1].active);
    assert!(bids[2].active);
    let highest = m.get_highest_bid(id).unwrap();
    assert_eq!(highest.bidder, addr("GDAVE"));
    assert_eq!(highest.amount, 10);
}
