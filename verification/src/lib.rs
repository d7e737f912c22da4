//! Verified core of an automated trading platform for the Indonesian Stock
//! Exchange: fixed-point money arithmetic, the auto-trade rule engine, a
//! simulated broker, in-memory repositories, prompt building and parsing for
//! the AI analyst, and the pure parts of the broker and market-data adapters.
pub mod decimal;
pub mod domain;
pub mod autotrade;
pub mod text;
pub mod clock;
pub mod simulated;
pub mod repository;
pub mod json;
pub mod prompt;
pub mod stockbit;
pub mod market;
pub mod dto;
pub mod presentation;
pub mod config;
pub mod web;
pub mod rule_request;
