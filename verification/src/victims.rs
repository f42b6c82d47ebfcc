//! Per-victim settings, keyed as in the per-victim JSON file.
use crate::keyed::StringMap;
use crate::UsernameVictimConfig;
use vstd::prelude::*;

verus! {

/// One entry of the per-victim file: the settings it holds, or, when the
/// entry is not a valid settings object, the reason it could not be read.
/// An unreadable entry stops the program only when a kill looks it up.
pub type VictimEntry = Result<UsernameVictimConfig, String>;

/// The entries of the per-victim file: a map from keys such as
/// `when_killed_{victim}` or `when_killed_{victim}_by_{username}` to entries.
pub type VictimSettings = StringMap<VictimEntry>;

/// The key of the settings for `victim` killed by `username`.
pub open spec fn pair_settings_key(victim: Seq<char>, username: Seq<char>) -> Seq<char> {
    "when_killed_"@ + victim + "_by_"@ + username
}

/// The key of the settings for `victim`, whoever the killer.
pub open spec fn victim_settings_key(victim: Seq<char>) -> Seq<char> {
    "when_killed_"@ + victim
}

/// The settings that apply when `username` kills `victim`: those for the
/// pair if there are any, else those for the victim, else none.
pub open spec fn settings_for(
    table: Map<Seq<char>, VictimEntry>,
    victim: Seq<char>,
    username: Seq<char>,
) -> Option<VictimEntry> {
    if table.contains_key(pair_settings_key(victim, username)) {
        Some(table[pair_settings_key(victim, username)])
    } else if table.contains_key(victim_settings_key(victim)) {
        Some(table[victim_settings_key(victim)])
    } else {
        None
    }
}

/// Settings for a killer-victim pair take precedence over settings for the
/// victim alone, which apply to every other killer.
pub proof fn lemma_pair_settings_first(
    table: Map<Seq<char>, VictimEntry>,
    victim: Seq<char>,
    username: Seq<char>,
    other: Seq<char>,
)
    requires
        table.contains_key(pair_settings_key(victim, username)),
        table.contains_key(victim_settings_key(victim)),
        !table.contains_key(pair_settings_key(victim, other)),
    ensures
        settings_for(table, victim, username) == Some(table[pair_settings_key(victim, username)]),
        settings_for(table, victim, other) == Some(table[victim_settings_key(victim)]),
{
}

/// A kill of a victim with no entry, for the pair or for the victim, has no
/// settings; an entry for the victim alone applies to any killer without an
/// entry of their own.
pub proof fn lemma_settings_found_by_key(
    table: Map<Seq<char>, VictimEntry>,
    victim: Seq<char>,
    username: Seq<char>,
)
    ensures
        !table.contains_key("when_killed_"@ + victim + "_by_"@ + username) && !table.contains_key(
            "when_killed_"@ + victim,
        ) ==> settings_for(table, victim, username) is None,
        !table.contains_key("when_killed_"@ + victim + "_by_"@ + username) && table.contains_key(
            "when_killed_"@ + victim,
        ) ==> settings_for(table, victim, username) == Some(table["when_killed_"@ + victim]),
        table.contains_key("when_killed_"@ + victim + "_by_"@ + username) ==> settings_for(
            table,
            victim,
            username,
        ) == Some(table["when_killed_"@ + victim + "_by_"@ + username]),
{
}

/// Finds the entry for the kill of `victim` by `username`: the entry
/// `when_killed_{victim}_by_{username}` when present, otherwise the entry
/// `when_killed_{victim}`.
pub fn victim_settings<'a>(table: &'a VictimSettings, victim: &str, username: &str) -> (r: Option<
    &'a VictimEntry,
>)
    requires
        table.wf(),
    ensures
        r is Some <==> settings_for(table@, victim@, username@) is Some,
        r matches Some(c) ==> settings_for(table@, victim@, username@) == Some(*c),
{
    let mut pair_key = String::from_str("when_killed_");
    pair_key.append(victim);
    let victim_key = pair_key.clone();
    pair_key.append("_by_");
    pair_key.append(username);
    match table.get(pair_key.as_str()) {
        Some(c) => Some(c),
        None => table.get(victim_key.as_str()),
    }
}

} // verus!
