//! What ACME issuance promises, in terms of the configuration, the CSR and what comes back.
pub mod accounts;
pub mod challenges;
pub mod issuing;
pub mod messages;
pub mod naming;
