//! An escrow-style crowdfunding ledger: campaigns collect contributions until a
//! deadline; a funded campaign pays its creator, a failed one refunds each
//! contributor exactly what they put in.
pub mod account;
pub mod campaign;
pub mod crowdfunding;
pub mod laws;
