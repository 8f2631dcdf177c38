//! Transaction-preparation support: parsing amount/denomination strings into
//! structured coins, and resolving the signing key that a set of mutually
//! exclusive credential inputs selects.

pub mod coin;
pub mod signer;
