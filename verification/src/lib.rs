//! A Telegram bot for reading clubs: a club creates an event, members
//! suggest subjects, one is picked at random, and an insights service
//! collects impressions of the event. This library holds the bot's rules
//! and texts; the bot itself, the database and the insights client stand
//! around it.
pub mod commands;
pub mod dates;
pub mod errors;
pub mod markdown;
pub mod models;
pub mod service;
