//! Verified decisions behind locally managed accounts and quota pools.

pub mod account_pool;
pub mod backend;
pub mod chat;
pub mod cli;
pub mod clock;
pub mod denials;
pub mod digest;
pub mod import;
pub mod lists;
pub mod login;
pub mod manage;
pub mod managed_link;
pub mod membership;
pub mod models;
pub mod paging;
pub mod percent;
pub mod policy;
pub mod preferences;
pub mod quota;
pub mod ranking;
pub mod recovery;
pub mod redemption;
pub mod report;
pub mod rounding;
pub mod server;
pub mod session;
pub mod sorting;
pub mod status;
pub mod storage;
pub mod store;
pub mod stream;
pub mod text;
pub mod thread;
