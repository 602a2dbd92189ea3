//! World of Unreal identity engine: verified core logic.
pub mod access;
pub mod account;
pub mod assets;
pub mod b64;
pub mod botlinks;
pub mod clans;
pub mod contact;
pub mod digest;
pub mod email;
pub mod inventory;
pub mod ladder;
pub mod ledger;
pub mod mailer;
pub mod error;
pub mod feed;
pub mod flows;
pub mod interactions;
pub mod models;
pub mod oauth;
pub mod otp;
pub mod players;
pub mod qr;
pub mod requests;
pub mod session;
pub mod table;
pub mod templates;
pub mod text;
pub mod trades;
pub mod web3;
