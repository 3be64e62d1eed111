use vstd::prelude::*;

pub mod auth;
pub mod config;
pub mod crypto;
pub mod dashboard;
pub mod foreign;
pub mod json;
pub mod monitor;
pub mod names;
pub mod payload;
pub mod proxy;
pub mod records;
pub mod render;
pub mod routing;
pub mod text;
pub mod tokens;

verus! {
}
