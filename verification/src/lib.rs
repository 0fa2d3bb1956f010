//! Verified core of a prediction-market position manager and its trading bots.

pub mod accounting;
pub mod binance;
pub mod bot;
pub mod bytes;
pub mod checker;
pub mod config;
pub mod consensus;
pub mod decimal;
pub mod display;
pub mod health;
pub mod history;
pub mod json;
pub mod keyboard;
pub mod liquidations;
pub mod lists;
pub mod manager;
pub mod market;
pub mod market_stream;
pub mod models;
pub mod momentum;
pub mod orderbook;
pub mod orders;
pub mod position;
pub mod prices;
pub mod scanner;
pub mod selling;
pub mod session;
pub mod settings;
pub mod side;
pub mod signals;
pub mod strategy;
pub mod text;
pub mod tick;
pub mod ticks;
pub mod trader;
pub mod window;
pub mod words;
