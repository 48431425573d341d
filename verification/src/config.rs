//! The bot's settings, read from the environment.

use vstd::prelude::*;

verus! {

/// The settings of the bot.
pub struct Settings {
    /// The token the bot logs in to Discord with.
    pub discord_token: String,
    /// Where the SQLite database of subscribed channels is.
    pub database_url: String,
    /// The one guild the bot serves; it leaves all others.
    pub allowed_guild: u64,
    /// The `systemctl` program that services and power are managed with.
    pub systemctl_path: String,
}

} // verus!
