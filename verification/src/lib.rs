use vstd::prelude::*;

pub mod auth;
pub mod calendar;
pub mod department;
pub mod embed;
pub mod error;
pub mod export;
pub mod models;
pub mod project;
pub mod query;
pub mod registration;
pub mod registration_approval;
pub mod roles;
pub mod text;
pub mod time_entry;
pub mod user;

verus! {

} // verus!
