//! A headless backtesting engine.
pub mod decimal;
pub mod types;
pub mod capability;
pub mod instrument;
pub mod manifest;
pub mod market_event;
pub mod trade;
pub mod book;
pub mod fill;
pub mod extensions;
pub mod clock;
pub mod warmup;
pub mod steps;
pub mod assoc;
pub mod engine;
pub mod ports;
pub mod account;
pub mod money;
pub mod rng;
pub mod market_view;
pub mod strategy;
pub mod metrics;
pub mod run_request;
pub mod validator;
pub mod event_stream;
pub mod single_run;
pub mod engine_laws;
pub mod engine_trait;
pub mod event_loop;
