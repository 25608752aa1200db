//! Client-direction MySQL packet bodies.

pub mod login;
pub mod query;
