pub mod base58;
pub mod crypto;
pub mod text;
pub mod xrpl;
pub mod discovery;
pub mod audit;
pub mod wallet;
