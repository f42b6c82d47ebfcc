//! The state kept between kills: the last kill handled, the kill count and
//! the domination streaks.
use crate::helper::{
    contains_name, kill_line_names, names_contain, usernames_with, KILL_LINE_PATTERN,
};
use crate::keyed::StringMap;
use crate::log::{scan_log, split_lines, unseen_lines, Scan, MIN_LINES, WINDOW_LINES};
use crate::pattern::{compile_pattern, regex_compiles, CompiledPattern};
use crate::response::{actions_view, message_pool, respond, response, valid_choice, Action};
use crate::victims::{settings_for, victim_settings, VictimEntry, VictimSettings};
use crate::{Config, UsernameVictimConfig};
use vstd::prelude::*;

verus! {

/// How many earlier kills in a row make the next one a domination.
pub const DOMINATION_STREAK: u64 = 4;

/// The text `last_line` holds before any kill was handled.
pub open spec fn no_line() -> Seq<char> {
    "-"@
}

/// The state of a tracker that has handled nothing.
pub open spec fn fresh() -> TrackerView {
    TrackerView { last_line: no_line(), count: 0, streaks: Map::empty() }
}

/// The key of a streak: the victim, a hyphen, then the killer.
pub open spec fn streak_key(victim: Seq<char>, killer: Seq<char>) -> Seq<char> {
    victim + "-"@ + killer
}

/// What the tracker holds.
pub struct TrackerView {
    /// The line of the last kill handled.
    pub last_line: Seq<char>,
    /// How many kills were handled.
    pub count: u32,
    /// For each victim-killer key, how many kills of that victim by that
    /// killer came after the first one, since the streak began.
    pub streaks: Map<Seq<char>, u64>,
}

/// A kill read from a line: who killed whom.
pub struct KillEvent {
    pub username: String,
    pub victim: String,
}

/// What recording a kill found.
pub struct KillRecord {
    /// The kill count after this kill.
    pub count: u32,
    /// The streak of this victim-killer pair after this kill.
    pub streak: u64,
    /// Whether the victim is now dominated by the killer.
    pub dominating: bool,
}

/// Why the tracker could not go on.
pub enum TrackerError {
    /// The `regex` crate refused the kill-line pattern.
    PatternRefused(regex::Error),
    /// The kill count would pass `u32::MAX`.
    CountOverflow,
    /// A streak would pass `u64::MAX`.
    StreakOverflow,
    /// The per-victim entry that applies to a kill is not a valid settings
    /// object; this holds the reason.
    SettingsUnreadable(String),
}

/// The settings that a found per-victim entry gives (none for no entry; an
/// unreadable entry gives none either, and stops the reaction).
pub open spec fn usable_settings(found: Option<VictimEntry>) -> Option<UsernameVictimConfig> {
    match found {
        Some(Ok(c)) => Some(c),
        _ => None,
    }
}

/// The state after reading a kill of `victim` by `killer`: when the victim is
/// one of `usernames`, the victim's own streak over the killer ends.
pub open spec fn observe(
    v: TrackerView,
    killer: Seq<char>,
    victim: Seq<char>,
    usernames: Seq<String>,
) -> TrackerView {
    if names_contain(usernames, victim) {
        TrackerView { streaks: v.streaks.remove(streak_key(killer, victim)), ..v }
    } else {
        v
    }
}

/// The streak of the pair after one more kill: 0 for a first kill, one
/// more otherwise.
pub open spec fn next_streak(v: TrackerView, victim: Seq<char>, killer: Seq<char>) -> int {
    let key = streak_key(victim, killer);
    if v.streaks.contains_key(key) {
        v.streaks[key] + 1
    } else {
        0
    }
}

/// Whether recording the kill would pass a counter's bound.
pub open spec fn record_overflows(v: TrackerView, victim: Seq<char>, killer: Seq<char>) -> bool {
    next_streak(v, victim, killer) > u64::MAX || v.count == u32::MAX
}

/// The state after recording the kill of `victim` by `killer` read from
/// `line`.
pub open spec fn record(v: TrackerView, line: Seq<char>, victim: Seq<char>, killer: Seq<char>) -> TrackerView {
    TrackerView {
        last_line: line,
        count: (v.count + 1) as u32,
        streaks: v.streaks.insert(streak_key(victim, killer), next_streak(v, victim, killer) as u64),
    }
}

/// The state after recording, in order, kills of `victim` by `killer` read
/// from each of `lines`.
pub open spec fn record_all(v: TrackerView, lines: Seq<Seq<char>>, victim: Seq<char>, killer: Seq<char>) -> TrackerView
    decreases lines.len(),
{
    if lines.len() == 0 {
        v
    } else {
        record(record_all(v, lines.drop_last(), victim, killer), lines.last(), victim, killer)
    }
}

/// Consecutive kills of one victim by one killer count up from a fresh
/// streak: after `n` of them the next kill has streak `n`, none of them
/// passed a bound, and the kill count went up by `n`.
pub proof fn lemma_streak_counts_kills(
    v: TrackerView,
    lines: Seq<Seq<char>>,
    victim: Seq<char>,
    killer: Seq<char>,
)
    requires
        !v.streaks.contains_key(streak_key(victim, killer)),
        v.count + lines.len() <= u32::MAX,
    ensures
        next_streak(record_all(v, lines, victim, killer), victim, killer) == lines.len(),
        record_all(v, lines, victim, killer).count == v.count + lines.len(),
        lines.len() > 0 ==> !record_overflows(
            record_all(v, lines.drop_last(), victim, killer),
            victim,
            killer,
        ),
    decreases lines.len(),
{
    if lines.len() > 0 {
        lemma_streak_counts_kills(v, lines.drop_last(), victim, killer);
    }
}

/// A killer dominates a victim on the fifth kill in a row: after four
/// recorded kills of the victim by the killer from a fresh streak, the next
/// one reaches `DOMINATION_STREAK`; each of the first four stays below it.
pub proof fn lemma_fifth_kill_dominates(
    v: TrackerView,
    lines: Seq<Seq<char>>,
    victim: Seq<char>,
    killer: Seq<char>,
)
    requires
        !v.streaks.contains_key(streak_key(victim, killer)),
        lines.len() == 4,
        v.count + 5 <= u32::MAX,
    ensures
        next_streak(record_all(v, lines, victim, killer), victim, killer) == DOMINATION_STREAK,
        !record_overflows(record_all(v, lines, victim, killer), victim, killer),
        forall|k: int|
            0 <= k < 4 ==> next_streak(#[trigger] record_all(v, lines.take(k), victim, killer), victim, killer)
                < DOMINATION_STREAK,
{
    lemma_streak_counts_kills(v, lines, victim, killer);
    assert forall|k: int| 0 <= k < 4 implies next_streak(
        #[trigger] record_all(v, lines.take(k), victim, killer),
        victim,
        killer,
    ) < DOMINATION_STREAK by {
        lemma_streak_counts_kills(v, lines.take(k), victim, killer);
    }
}

/// Revenge ends a domination: once the killer `killer` kills `victim`, one
/// of `usernames`, the next kill of `killer` by `victim` starts a fresh
/// streak and is no domination.
pub proof fn lemma_revenge_ends_streak(
    v: TrackerView,
    killer: Seq<char>,
    victim: Seq<char>,
    usernames: Seq<String>,
)
    requires
        names_contain(usernames, victim),
    ensures
        next_streak(observe(v, killer, victim, usernames), killer, victim) == 0,
{
}

/// Recording a kill of `victim` by `killer` read from `line` makes `line`
/// the last line handled and adds one to the kill count; the streak under
/// the key `victim-killer` becomes one more than it was, or 0 when there was
/// none; every other streak is left exactly as it was.
pub proof fn lemma_record_touches_only_its_pair(
    v: TrackerView,
    line: Seq<char>,
    victim: Seq<char>,
    killer: Seq<char>,
)
    requires
        v.count < u32::MAX,
        v.streaks.contains_key(victim + "-"@ + killer) ==> v.streaks[victim + "-"@ + killer]
            < u64::MAX,
    ensures
        ({
            let key = victim + "-"@ + killer;
            let r = record(v, line, victim, killer);
            &&& r.last_line == line
            &&& r.count == v.count + 1
            &&& r.streaks.contains_key(key)
            &&& r.streaks[key] == (if v.streaks.contains_key(key) {
                v.streaks[key] + 1
            } else {
                0
            })
            &&& forall|k: Seq<char>|
                k != key ==> (#[trigger] r.streaks.contains_key(k) == v.streaks.contains_key(k) && (
                v.streaks.contains_key(k) ==> r.streaks[k] == v.streaks[k]))
        }),
        !record_overflows(v, victim, killer),
{
}

/// Reading a kill of `victim` by `killer` never changes the last line or
/// the kill count. When the victim is one of `usernames` it takes out only
/// the streak under the key `killer-victim` (the victim's own streak over
/// the killer); every other streak is left exactly as it was. When the
/// victim is not one of `usernames` nothing changes.
pub proof fn lemma_observe_ends_only_the_revenged_streak(
    v: TrackerView,
    killer: Seq<char>,
    victim: Seq<char>,
    usernames: Seq<String>,
)
    ensures
        ({
            let key = killer + "-"@ + victim;
            let r = observe(v, killer, victim, usernames);
            let listed = exists|i: int| 0 <= i < usernames.len() && #[trigger] usernames[i]@ == victim;
            &&& r.last_line == v.last_line
            &&& r.count == v.count
            &&& listed ==> !r.streaks.contains_key(key)
            &&& !listed ==> r == v
            &&& forall|k: Seq<char>|
                k != key ==> (#[trigger] r.streaks.contains_key(k) == v.streaks.contains_key(k) && (
                v.streaks.contains_key(k) ==> r.streaks[k] == v.streaks[k]))
        }),
{
}

/// Streaks of different pairs are kept apart: recording kills of another
/// pair between two kills of `victim` by `killer` does not change the streak
/// the second of them reaches.
pub proof fn lemma_other_pairs_do_not_break_a_streak(
    v: TrackerView,
    line: Seq<char>,
    victim: Seq<char>,
    killer: Seq<char>,
    other_line: Seq<char>,
    other_victim: Seq<char>,
    other_killer: Seq<char>,
)
    requires
        v.count < u32::MAX,
        other_victim + "-"@ + other_killer != victim + "-"@ + killer,
    ensures
        next_streak(record(v, other_line, other_victim, other_killer), victim, killer)
            == next_streak(v, victim, killer),
{
    assert(streak_key(victim, killer) == victim + "-"@ + killer);
    assert(streak_key(other_victim, other_killer) == other_victim + "-"@ + other_killer);
}

/// Keeps what the program remembers between kills.
pub struct KillTracker {
    pattern: CompiledPattern,
    last_line: String,
    count: u32,
    streaks: StringMap<u64>,
}

impl View for KillTracker {
    type V = TrackerView;

    closed spec fn view(&self) -> TrackerView {
        TrackerView { last_line: self.last_line@, count: self.count, streaks: self.streaks@ }
    }
}

/// Builds `a + "-" + b`.
fn hyphen_key(a: &str, b: &str) -> (r: String)
    ensures
        r@ == a@ + "-"@ + b@,
{
    let mut r = a.to_owned();
    r.append("-");
    r.append(b);
    r
}

impl KillTracker {
    /// The pattern is the kill-line pattern and the streak keys are distinct.
    pub closed spec fn wf(&self) -> bool {
        &&& self.pattern.source() == KILL_LINE_PATTERN@
        &&& regex_compiles(KILL_LINE_PATTERN@)
        &&& self.streaks.wf()
    }

    /// A tracker that has handled nothing: no last line (`-`), no kills, no
    /// streaks. Fails only when the `regex` crate refuses the kill-line
    /// pattern.
    pub fn new() -> (r: Result<KillTracker, TrackerError>)
        ensures
            r is Ok <==> regex_compiles(KILL_LINE_PATTERN@),
            r matches Ok(t) ==> (t.wf() && t@ == fresh()),
            r matches Err(e) ==> (e is PatternRefused),
    {
        match compile_pattern(KILL_LINE_PATTERN) {
            Ok(pattern) => Ok(
                KillTracker {
                    pattern,
                    last_line: String::from_str("-"),
                    count: 0,
                    streaks: StringMap::new(),
                },
            ),
            Err(e) => Err(TrackerError::PatternRefused(e)),
        }
    }

    /// Forgets the last line handled, as when the RCON connection is made
    /// again; the kill count and the streaks stay.
    pub fn restart(&mut self)
        requires
            old(self).wf(),
        ensures
            final(self).wf(),
            final(self)@ == (TrackerView { last_line: no_line(), ..old(self)@ }),
    {
        self.last_line = String::from_str("-");
    }

    /// The kill count.
    pub fn count(&self) -> (r: u32)
        ensures
            r == self@.count,
    {
        self.count
    }

    /// The line of the last kill handled.
    pub fn last_line(&self) -> (r: &str)
        ensures
            r@ == self@.last_line,
    {
        self.last_line.as_str()
    }

    /// Looks at the text read from the end of the log and picks the lines
    /// after the last kill handled (see `scan_log`).
    pub fn scan(&self, text: &str) -> (r: Scan)
        ensures
            ({
                let lines = split_lines(text@);
                match r {
                    Scan::Waiting => lines.len() <= MIN_LINES,
                    Scan::TooShort => MIN_LINES < lines.len() < WINDOW_LINES,
                    Scan::Lines(v) => WINDOW_LINES <= lines.len() && crate::log::texts(v@)
                        == unseen_lines(lines, self@.last_line),
                }
            }),
    {
        scan_log(text, self.last_line.as_str())
    }

    /// Reads a console line. A line that names no killer or no victim gives
    /// `None` and changes nothing. Otherwise it gives the kill, and when the
    /// victim is one of `usernames` the victim's streak over the killer ends.
    pub fn observe_line(&mut self, line: &str, usernames: &[String]) -> (r: Option<KillEvent>)
        requires
            old(self).wf(),
        ensures
            final(self).wf(),
            ({
                let names = kill_line_names(line@);
                if names.0.len() == 0 || names.1.len() == 0 {
                    r is None && final(self)@ == old(self)@
                } else {
                    &&& r matches Some(e) && e.username@ == names.0 && e.victim@ == names.1
                    &&& final(self)@ == observe(old(self)@, names.0, names.1, usernames@)
                }
            }),
    {
        let (username, victim) = usernames_with(&self.pattern, line);
        if username.as_str().is_empty() || victim.as_str().is_empty() {
            return None;
        }
        if contains_name(usernames, &victim) {
            let key = hyphen_key(username.as_str(), victim.as_str());
            self.streaks.remove(key.as_str());
            proof {
                assert(self@ =~= observe(old(self)@, username@, victim@, usernames@));
            }
        }
        Some(KillEvent { username, victim })
    }

    /// Records a counted kill read from `line`: the victim-killer streak goes
    /// up by one (or starts at 0), the kill count goes up by one, and `line`
    /// becomes the last line handled. The kill is a domination when the
    /// streak reaches `DOMINATION_STREAK`. Fails, changing nothing, when a
    /// counter would pass its bound.
    pub fn record_kill(&mut self, line: &str, event: &KillEvent) -> (r: Result<KillRecord, TrackerError>)
        requires
            old(self).wf(),
        ensures
            final(self).wf(),
            r is Err <==> record_overflows(old(self)@, event.victim@, event.username@),
            r matches Err(e) ==> (final(self)@ == old(self)@ && (e is CountOverflow || e is StreakOverflow)),
            r matches Ok(rec) ==> {
                &&& final(self)@ == record(old(self)@, line@, event.victim@, event.username@)
                &&& rec.count == final(self)@.count
                &&& rec.streak == next_streak(old(self)@, event.victim@, event.username@)
                &&& rec.dominating == (rec.streak == DOMINATION_STREAK)
            },
    {
        let key = hyphen_key(event.victim.as_str(), event.username.as_str());
        let streak: u64 = match self.streaks.get(key.as_str()) {
            Some(c) => {
                if *c == u64::MAX {
                    return Err(TrackerError::StreakOverflow);
                }
                *c + 1
            },
            None => 0,
        };
        if self.count == u32::MAX {
            return Err(TrackerError::CountOverflow);
        }
        self.streaks.insert(key, streak);
        self.count = self.count + 1;
        self.last_line = line.to_owned();
        proof {
            assert(self@ =~= record(old(self)@, line@, event.victim@, event.username@));
        }
        Ok(KillRecord { count: self.count, streak, dominating: streak == DOMINATION_STREAK })
    }

    /// Reacts to the kill `event` read from `line`, which `counted` says is
    /// one to react to (by `check`, or by the user's Lua code). A kill that
    /// does not count changes nothing and asks for nothing. A counted kill is
    /// recorded (see `record_kill`); then the per-victim entry for the pair,
    /// or else for the victim, is looked up: an unreadable entry gives
    /// `SettingsUnreadable`, otherwise the result is the reaction of
    /// `respond` with the new kill count and domination.
    pub fn react(
        &mut self,
        line: &str,
        event: &KillEvent,
        counted: bool,
        config: &Config,
        table: &VictimSettings,
    ) -> (r: Result<Vec<Action>, TrackerError>)
        requires
            old(self).wf(),
            table.wf(),
        ensures
            final(self).wf(),
            !counted ==> (r matches Ok(v) && v@.len() == 0 && final(self)@ == old(self)@),
            counted && record_overflows(old(self)@, event.victim@, event.username@) ==> (r matches Err(
                e,
            ) && (e is CountOverflow || e is StreakOverflow) && final(self)@ == old(self)@),
            counted && !record_overflows(old(self)@, event.victim@, event.username@) ==> ({
                let after = record(old(self)@, line@, event.victim@, event.username@);
                let found = settings_for(table@, event.victim@, event.username@);
                let dominating = next_streak(old(self)@, event.victim@, event.username@)
                    == DOMINATION_STREAK;
                &&& final(self)@ == after
                &&& found matches Some(Err(msg)) ==> (r matches Err(e) && e
                    matches TrackerError::SettingsUnreadable(m) && m@ == msg@)
                &&& !(found matches Some(Err(_))) ==> (r matches Ok(v) && exists|choice: int|
                    valid_choice(message_pool(*config, usable_settings(found), dominating), choice)
                        && actions_view(v@) == #[trigger] response(
                        *config,
                        usable_settings(found),
                        event.victim@,
                        after.count as nat,
                        dominating,
                        choice,
                    ))
            }),
    {
        if !counted {
            return Ok(Vec::new());
        }
        let record = match self.record_kill(line, event) {
            Ok(record) => record,
            Err(e) => {
                return Err(e);
            },
        };
        match victim_settings(table, event.victim.as_str(), event.username.as_str()) {
            Some(Err(msg)) => Err(TrackerError::SettingsUnreadable(msg.clone())),
            Some(Ok(settings)) => Ok(
                respond(config, Some(settings), event.victim.as_str(), record.count, record.dominating),
            ),
            None => Ok(respond(config, None, event.victim.as_str(), record.count, record.dominating)),
        }
    }
}

} // verus!
