//! Verified core of the altc agent.
pub mod text;
pub mod json;
pub mod error;
pub mod storage;
pub mod numbers;
pub mod assoc;
pub mod progress;
pub mod events;
pub mod library;
pub mod identity;
pub mod metadata;
pub mod serve;
pub mod users;
pub mod auth;
pub mod passwords;
pub mod accounts;
pub mod apps;
pub mod listing;
pub mod wolf;
pub mod logs;
pub mod migrations;
pub mod pairing;
pub mod games;
pub mod web;
