pub mod text;
pub mod model;
pub mod portproxy;
pub mod network;
pub mod update;
pub mod health;
pub mod encoding;
pub mod config;
pub mod rules;
pub mod panels;
pub mod privilege;
pub mod clock;
pub mod gateway_app;
