//! Verified logic of an e-learning platform and its staking pool.
pub mod collections;
pub mod text;
pub mod foreign;
pub mod models;
pub mod context;
pub mod repository;
pub mod elearning;
pub mod users;
pub mod mentoring;
pub mod credentials;
pub mod courses;
pub mod collab;
pub mod combos;
pub mod payment;
pub mod pools;
pub mod pool_contract;
pub mod shares;
