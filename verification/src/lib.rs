//! Verified core of the TUSDT protocol.
pub mod account;
pub mod calendar;
pub mod fixed_point;
pub mod governance;
pub mod governance_effects;
pub mod governance_laws;
pub mod governance_ledger;
pub mod host;
pub mod lending;
pub mod lending_laws;
pub mod merkle;
pub mod otc;
pub mod otc_effects;
pub mod otc_laws;
pub mod peers;
pub mod ratio;
pub mod ratio_laws;
pub mod storage;
pub mod test_support;
pub mod trace;
pub mod vault;
pub mod vault_alpha;
pub mod vault_alpha_model;
pub mod vault_effects;
pub mod vault_flow_laws;
pub mod vault_laws;
pub mod vault_rules;
pub mod voting;
