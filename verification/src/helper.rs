//! Reading kill lines and deciding which kills count.
use crate::pattern::{
    capture_pair, compile_pattern, is_infix, regex_capture_pair, regex_compiles, CompiledPattern,
};
use vstd::prelude::*;

verus! {

/// The shape of a kill line in the console log, for example
/// `03/11/2023 - 01:55:04: ./albarozzz killed Mentlegen with force_a_nature.`
pub const KILL_LINE_PATTERN: &'static str =
    r"^(\d\d/\d\d/\d\d\d\d) - (\d\d:\d\d:\d\d): (?P<user>.*) killed (?P<victim>.*) with (.*)$";

/// The text of an optional group, or the empty text.
pub open spec fn text_or_empty(t: Option<Seq<char>>) -> Seq<char> {
    match t {
        Some(t) => t,
        None => Seq::empty(),
    }
}

/// The killer and the victim named by a match of the kill-line pattern
/// (empty texts when the line did not match).
pub open spec fn names_of(caps: Option<(Option<Seq<char>>, Option<Seq<char>>)>) -> (
    Seq<char>,
    Seq<char>,
) {
    match caps {
        Some((user, victim)) => (text_or_empty(user), text_or_empty(victim)),
        None => (Seq::empty(), Seq::empty()),
    }
}

/// The killer and the victim that the kill-line pattern, compiled from
/// `pattern`, finds in `line`.
pub open spec fn names_with(pattern: Seq<char>, line: Seq<char>) -> (Seq<char>, Seq<char>) {
    names_of(regex_capture_pair(pattern, line, "user"@, "victim"@))
}

/// The killer and the victim of a kill line; two empty texts for any other
/// line.
pub open spec fn kill_line_names(line: Seq<char>) -> (Seq<char>, Seq<char>) {
    if regex_compiles(KILL_LINE_PATTERN@) {
        names_with(KILL_LINE_PATTERN@, line)
    } else {
        (Seq::empty(), Seq::empty())
    }
}

/// Turns the groups `user` and `victim` of a match into the killer and the
/// victim: a missing match or a missing group gives an empty text.
pub fn usernames_from_captures(caps: Option<(Option<String>, Option<String>)>) -> (r: (
    String,
    String,
))
    ensures
        (r.0@, r.1@) == names_of(caps.deep_view()),
{
    match caps {
        Some((user, victim)) => {
            let user = match user {
                Some(u) => u,
                None => String::new(),
            };
            let victim = match victim {
                Some(v) => v,
                None => String::new(),
            };
            (user, victim)
        },
        None => (String::new(), String::new()),
    }
}

/// The killer and the victim that `pattern` (the kill-line pattern once
/// compiled) finds in `line`.
pub fn usernames_with(pattern: &CompiledPattern, line: &str) -> (r: (String, String))
    ensures
        (r.0@, r.1@) == names_with(pattern.source(), line@),
        r.0@.len() > 0 ==> is_infix(r.0@, line@),
        r.1@.len() > 0 ==> is_infix(r.1@, line@),
{
    usernames_from_captures(capture_pair(pattern, line, "user", "victim"))
}

/// Reads the killer and the victim from a console line such as
/// `03/11/2023 - 01:55:04: ./albarozzz killed Mentlegen with force_a_nature.`;
/// any line of another shape gives two empty texts. Both names are pieces of
/// the line. The pattern is compiled on each call; `KillTracker` compiles it
/// once. Were the `regex` crate to refuse the pattern, both names would be
/// empty.
pub fn get_usernames(line: &str) -> (r: (String, String))
    ensures
        (r.0@, r.1@) == kill_line_names(line@),
        r.0@.len() > 0 ==> is_infix(r.0@, line@),
        r.1@.len() > 0 ==> is_infix(r.1@, line@),
{
    match compile_pattern(KILL_LINE_PATTERN) {
        Ok(pattern) => usernames_with(&pattern, line),
        Err(_) => (String::new(), String::new()),
    }
}

/// Whether `name` is one of the names in `names`.
pub open spec fn names_contain(names: Seq<String>, name: Seq<char>) -> bool {
    exists|i: int| 0 <= i < names.len() && #[trigger] names[i]@ == name
}

/// A kill counts when the killer is listed (or no killer is listed) and the
/// victim is listed (or no victim is listed).
pub open spec fn kill_counts(
    usernames: Seq<String>,
    username_victim: Seq<String>,
    username: Seq<char>,
    victim: Seq<char>,
) -> bool {
    &&& (usernames.len() == 0 || names_contain(usernames, username))
    &&& (username_victim.len() == 0 || names_contain(username_victim, victim))
}

/// With no killer and no victim listed, every kill counts; with only
/// killers listed, a kill counts exactly when the killer is listed.
pub proof fn lemma_open_lists_count_every_kill(
    usernames: Seq<String>,
    username: Seq<char>,
    victim: Seq<char>,
)
    ensures
        kill_counts(Seq::empty(), Seq::empty(), username, victim),
        kill_counts(usernames, Seq::empty(), username, victim) == (usernames.len() == 0
            || names_contain(usernames, username)),
{
}

/// A kill counts exactly when each filter that is in use lets it through:
/// a listed killer list that does not hold the killer, or a listed victim
/// list that does not hold the victim, rejects the kill; otherwise it counts.
pub proof fn lemma_kill_counts_filters(
    usernames: Seq<String>,
    username_victim: Seq<String>,
    username: Seq<char>,
    victim: Seq<char>,
)
    ensures
        usernames.len() > 0 && (forall|i: int| 0 <= i < usernames.len() ==> #[trigger] usernames[i]@
            != username) ==> !kill_counts(usernames, username_victim, username, victim),
        username_victim.len() > 0 && (forall|i: int|
            0 <= i < username_victim.len() ==> #[trigger] username_victim[i]@ != victim)
            ==> !kill_counts(usernames, username_victim, username, victim),
        (usernames.len() == 0 || exists|i: int|
            0 <= i < usernames.len() && #[trigger] usernames[i]@ == username) && (
        username_victim.len() == 0 || exists|i: int|
            0 <= i < username_victim.len() && #[trigger] username_victim[i]@ == victim)
            ==> kill_counts(usernames, username_victim, username, victim),
{
}

/// The killer is the text of the group `user` and the victim that of the
/// group `victim` of the kill-line pattern's match; a line without a match
/// names nobody.
pub proof fn lemma_names_come_from_their_groups(line: Seq<char>, user: Seq<char>, victim: Seq<char>)
    requires
        regex_compiles(KILL_LINE_PATTERN@),
    ensures
        regex_capture_pair(KILL_LINE_PATTERN@, line, "user"@, "victim"@) == Some(
            (Some(user), Some(victim)),
        ) ==> kill_line_names(line) == (user, victim),
        regex_capture_pair(KILL_LINE_PATTERN@, line, "user"@, "victim"@) is None ==> kill_line_names(
            line,
        ) == (Seq::<char>::empty(), Seq::<char>::empty()),
{
}

/// Whether `names` holds `name`.
pub(crate) fn contains_name(names: &[String], name: &String) -> (r: bool)
    ensures
        r == names_contain(names@, name@),
{
    let mut i: usize = 0;
    while i < names.len()
        invariant
            i <= names@.len(),
            forall|j: int| 0 <= j < i ==> names@[j]@ != name@,
        decreases names@.len() - i,
    {
        if names[i] == *name {
            return true;
        }
        i = i + 1;
    }
    false
}

/// Decides whether the kill of `victim` by `username` is one to react to:
/// the killer must be in `usernames` unless that list is empty, and the
/// victim must be in `username_victim` unless that list is empty.
pub fn check(usernames: &[String], username_victim: &[String], username: &str, victim: &str) -> (r:
    bool)
    ensures
        r == kill_counts(usernames@, username_victim@, username@, victim@),
{
    let username = username.to_owned();
    let victim = victim.to_owned();
    if (!contains_name(usernames, &username) && usernames.len() != 0) || (!contains_name(
        username_victim,
        &victim,
    ) && username_victim.len() != 0) {
        return false;
    }
    true
}

} // verus!
