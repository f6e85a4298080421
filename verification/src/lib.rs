//! A verified model of the Wuta-Wuta NFT marketplace: minting, fixed-price
//! sales, escrowed auctions, artwork evolution and the fee rules around them.

pub mod types;
pub mod rules;
pub mod market;
pub mod laws;
pub mod operation_laws;
pub mod acceptance_laws;
