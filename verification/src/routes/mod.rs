pub mod auth;
pub mod body;
pub mod query;
pub mod review;
