//! ACME certificate, DNS and proof-of-possession helpers.
pub mod acme;
pub mod dns;
pub mod ip;
pub mod pop;
pub mod secure_fs;
pub mod text;
