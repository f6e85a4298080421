# wuta_marketplace

A verified model of the Wuta-Wuta NFT marketplace contract for Stellar/Soroban:
minting AI-generated artworks, fixed-price sales, escrowed auctions with a 5%
outbid rule, artwork evolution, and the fee and royalty rules around them.

- `src/types.rs`: the records (artwork, listing, bid, escrow, evolution,
  royalty payment), token transfers, payouts and the error type.
- `src/rules.rs`: price splitting in basis points, the minimum next bid,
  listing end times, token-list and bid-history rewriting, and finding the
  escrowed bid in a bid history.
- `src/market.rs`: `WutaWutaMarketplace`, the contract's storage, with one
  method per contract operation; `MarketView` is its mathematical model and
  states, per operation, which request is refused with which error and what
  the state becomes.
- `src/laws.rs`: properties of the marketplace as a whole: the invariant that
  every reachable state keeps, money conservation in sales and escrow, and
  ownership bookkeeping.
- `app/`: the Soroban contract itself. It loads the storage entries an
  operation reads, checks authorisation, runs the library's operation,
  performs the token transfers it returns, stores the result and publishes
  events.
- `tests/`: tests of the library on concrete values.
