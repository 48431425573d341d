//! Decision logic of a home-lab controller: a Discord bot that reports the
//! host's status and drives systemd, a small hardware observer that watches a
//! PC's power LED and presses its power button, and a status web front end.

pub mod decimal;
pub mod db;
pub mod ipv4;
pub mod logger;
pub mod commands;
pub mod systemd;
pub mod config;
pub mod socket;
pub mod status;
pub mod stream;
pub mod observer;
pub mod frontend;
