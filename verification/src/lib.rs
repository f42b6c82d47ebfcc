//! Taunter: reacts to kills written to Team Fortress 2's `console.log`.
//!
//! The library holds the logic of the program: reading kill lines, deciding
//! whether a kill is one the user cares about, keeping count of kills and
//! dominations, and choosing the console commands to send back through RCON.
use vstd::prelude::*;

pub mod commands;
pub mod helper;
pub mod keyed;
pub mod log;
pub mod pattern;
pub mod response;
pub mod text;
pub mod tracker;
pub mod victims;

verus! {

/// Settings of the program, read from the command line or from `config.json`.
pub struct Config {
    /// Path of a JSON file with per-victim settings.
    pub user_victim_config: Option<String>,
    /// RCON port of the local game.
    pub port: String,
    /// Skip the start-up warning.
    pub ignore_warning: bool,
    /// Root directory of the game.
    pub tf2_path: String,
    /// RCON password.
    pub rcon_password: String,
    /// Commands (separated by ';') sent after every counted kill.
    pub extra_commands: String,
    /// Killers whose kills count; empty means every killer.
    pub usernames: Vec<String>,
    /// Victims whose deaths count; empty means every victim.
    pub username_victim: Vec<String>,
    /// Spin for a second after a counted kill.
    pub use_spinbot: bool,
    /// Taunt with slot 1 after a counted kill.
    pub use_taunt: bool,
    /// A chat message said after every counted kill of a victim without
    /// settings of their own; empty for none.
    pub message: String,
    /// Chat messages, one of which is said after a counted kill.
    pub words: Vec<String>,
    /// Chat messages, one of which is said when the victim is dominated.
    pub special_words: Vec<String>,
    /// Keep Discord rich presence up to date.
    pub use_discord_rpc: bool,
    /// Let `custom.lua` decide which kills count.
    pub use_custom_lua: bool,
}

/// Settings for one victim (or one killer-victim pair), read from the
/// per-victim JSON file.
pub struct UsernameVictimConfig {
    /// Taunt after the kill (takes precedence over `use_spinbot`).
    pub use_taunt: bool,
    /// Spin after the kill.
    pub use_spinbot: bool,
    /// Chat messages, one of which is said after the kill.
    pub message_to_send: Vec<String>,
    /// Chat messages, one of which is said when the victim is dominated.
    pub message_to_send_when_dominated: Vec<String>,
    /// Commands sent after the kill.
    pub extra_commands: String,
}

/// The port used when `config.json` names none.
pub fn default_port() -> (r: String)
    ensures
        r@ == "27015"@,
{
    String::from_str("27015")
}

/// Whether to taunt when `config.json` does not say.
pub fn use_taunt() -> (r: bool)
    ensures
        r,
{
    true
}

impl Default for Config {
    /// Every text empty, every list empty, every flag off.
    fn default() -> (r: Self)
        ensures
            r.user_victim_config is None,
            r.port@ == Seq::<char>::empty(),
            !r.ignore_warning,
            r.tf2_path@ == Seq::<char>::empty(),
            r.rcon_password@ == Seq::<char>::empty(),
            r.extra_commands@ == Seq::<char>::empty(),
            r.usernames@ == Seq::<String>::empty(),
            r.username_victim@ == Seq::<String>::empty(),
            !r.use_spinbot,
            !r.use_taunt,
            r.message@ == Seq::<char>::empty(),
            r.words@ == Seq::<String>::empty(),
            r.special_words@ == Seq::<String>::empty(),
            !r.use_discord_rpc,
            !r.use_custom_lua,
    {
        Config {
            user_victim_config: None,
            port: String::new(),
            ignore_warning: false,
            tf2_path: String::new(),
            rcon_password: String::new(),
            extra_commands: String::new(),
            usernames: Vec::new(),
            username_victim: Vec::new(),
            use_spinbot: false,
            use_taunt: false,
            message: String::new(),
            words: Vec::new(),
            special_words: Vec::new(),
            use_discord_rpc: false,
            use_custom_lua: false,
        }
    }
}

impl Default for UsernameVictimConfig {
    /// No taunt, no spin, no messages, no commands.
    fn default() -> (r: Self)
        ensures
            !r.use_taunt,
            !r.use_spinbot,
            r.message_to_send@ == Seq::<String>::empty(),
            r.message_to_send_when_dominated@ == Seq::<String>::empty(),
            r.extra_commands@ == Seq::<char>::empty(),
    {
        UsernameVictimConfig {
            use_taunt: false,
            use_spinbot: false,
            message_to_send: Vec::new(),
            message_to_send_when_dominated: Vec::new(),
            extra_commands: String::new(),
        }
    }
}

} // verus!
