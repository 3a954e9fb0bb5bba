//! An identity registry that binds each identity token to one ledger account,
//! an admission check that admits only registered accounts, and a voting
//! session manager whose candidates and voters are resolved through the
//! registry.
pub mod storage;
pub mod types;
pub mod dispatch;
pub mod aadhaar;
pub mod ballot;
pub mod access;
