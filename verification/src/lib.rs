//! Matchmaking core of a netplay signaling server.

pub mod account_laws;
pub mod auth;
pub mod challenges;
pub mod config;
pub mod digest;
pub mod discord;
pub mod error;
pub mod gathering_laws;
pub mod hill_laws;
pub mod ids;
pub mod incidents;
pub mod koh;
pub mod lobbies;
pub mod lobby_laws;
pub mod lobby_requests;
pub mod match_laws;
pub mod model_laws;
pub mod models;
pub mod names;
pub mod order_laws;
pub mod pairing_laws;
pub mod presence;
pub mod queue;
pub mod ranking;
pub mod result_laws;
pub mod results;
pub mod rooms;
pub mod service_laws;
pub mod sessions;
pub mod spectators;
pub mod state;
pub mod sweep_laws;
pub mod sweeper;
pub mod table;
pub mod text;
pub mod text_laws;
pub mod time;
pub mod turn;
pub mod url;
pub mod watching_laws;
