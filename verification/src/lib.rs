pub mod campaign;
pub mod hashing;
pub mod ledger;
pub mod merkle;
