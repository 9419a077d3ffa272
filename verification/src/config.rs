//! Runtime configuration: which automated behaviours are on, the primary
//! command list and its cooldown, and the fuzzy-matching settings. The
//! similarity threshold is held in hundredths.
use vstd::prelude::*;
use vstd::string::*;

verus! {

/// The configuration rows as the settings store keeps them.
#[derive(Debug, Clone)]
pub struct SavedConfig {
    pub roll_commands: Vec<String>,
    pub roll_cooldown_seconds: u64,
    pub auto_roll: bool,
    pub auto_react_kakera: bool,
    pub auto_daily: bool,
    pub daily_time: String,
    pub wishlist_enabled: bool,
    pub fuzzy_match: bool,
    pub fuzzy_threshold_hundredths: u32,
}

impl Default for SavedConfig {
    /// The stock configuration: both primary commands, an hour of cooldown,
    /// everything automated, fuzzy matching at eighty hundredths.
    fn default() -> (r: Self)
        ensures
            r.roll_commands@.len() == 2,
            r.roll_commands@[0]@ == "$wa"@,
            r.roll_commands@[1]@ == "$ha"@,
            r.roll_cooldown_seconds == 3600,
            r.auto_roll && r.auto_react_kakera && r.auto_daily,
            r.daily_time@ == "00:00"@,
            r.wishlist_enabled,
            r.fuzzy_match,
            r.fuzzy_threshold_hundredths == 80,
    {
        let mut roll_commands: Vec<String> = Vec::new();
        roll_commands.push(String::from_str("$wa"));
        roll_commands.push(String::from_str("$ha"));
        SavedConfig {
            roll_commands,
            roll_cooldown_seconds: 3600,
            auto_roll: true,
            auto_react_kakera: true,
            auto_daily: true,
            daily_time: String::from_str("00:00"),
            wishlist_enabled: true,
            fuzzy_match: true,
            fuzzy_threshold_hundredths: 80,
        }
    }
}

/// The live configuration the engine and scheduler consult.
#[derive(Debug, Clone)]
pub struct Config {
    pub roll_commands: Vec<String>,
    pub roll_cooldown_seconds: u64,
    pub auto_roll: bool,
    pub auto_react_kakera: bool,
    pub auto_daily: bool,
    pub daily_time: String,
    pub wishlist_enabled: bool,
    pub wishlist_file: String,
    pub auto_verify: bool,
    pub fuzzy_match: bool,
    pub fuzzy_threshold_hundredths: u32,
}

impl Config {
    /// Take the saved rows over, with the fixed store file name and
    /// verification on.
    pub fn from_saved(saved: SavedConfig) -> (r: Self)
        ensures
            r.roll_commands == saved.roll_commands,
            r.roll_cooldown_seconds == saved.roll_cooldown_seconds,
            r.auto_roll == saved.auto_roll,
            r.auto_react_kakera == saved.auto_react_kakera,
            r.auto_daily == saved.auto_daily,
            r.daily_time == saved.daily_time,
            r.wishlist_enabled == saved.wishlist_enabled,
            r.wishlist_file@ == "wishlist.json"@,
            r.auto_verify == true,
            r.fuzzy_match == saved.fuzzy_match,
            r.fuzzy_threshold_hundredths == saved.fuzzy_threshold_hundredths,
    {
        Config {
            roll_commands: saved.roll_commands,
            roll_cooldown_seconds: saved.roll_cooldown_seconds,
            auto_roll: saved.auto_roll,
            auto_react_kakera: saved.auto_react_kakera,
            auto_daily: saved.auto_daily,
            daily_time: saved.daily_time,
            wishlist_enabled: saved.wishlist_enabled,
            wishlist_file: String::from_str("wishlist.json"),
            auto_verify: true,
            fuzzy_match: saved.fuzzy_match,
            fuzzy_threshold_hundredths: saved.fuzzy_threshold_hundredths,
        }
    }

    /// Application id of the game bot that outbound button interactions
    /// target.
    pub fn mudae_bot_id() -> (id: u64)
        ensures
            id == 432610292342587392u64,
    {
        432610292342587392
    }
}

impl Default for Config {
    fn default() -> (r: Self)
        ensures
            r.roll_commands@.len() == 2,
            r.roll_cooldown_seconds == 3600,
            r.auto_roll && r.auto_react_kakera && r.auto_daily,
            r.wishlist_enabled && r.auto_verify && r.fuzzy_match,
            r.fuzzy_threshold_hundredths == 80,
    {
        Config::from_saved(SavedConfig::default())
    }
}

} // verus!
