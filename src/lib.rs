//! Temporal, hierarchical permission resolution and delegation control for
//! staff accounts: which permissions a principal holds at an instant, who may
//! grant or revoke accreditations and derogations, and the cached view of the
//! resolved permission set.

pub mod access;
pub mod accreditation;
pub mod cache;
pub mod catalog;
pub mod derogation;
pub mod errors;
pub mod jwt;
pub mod laws;
pub mod listing;
pub mod login;
pub mod lookup;
pub mod paginate;
pub mod requests;
pub mod resolve;
pub mod store;
pub mod window;
