//! The console commands and status texts the program sends.
use crate::text::{chars_of, decimal, decimal_string, remove_char, string_of, without_char};
use vstd::prelude::*;

verus! {

/// The `say` command for `text`: semicolons are taken out, so the text can
/// never end the command and start another one.
pub open spec fn say_text(text: Seq<char>) -> Seq<char> {
    "say "@ + without_char(text, ';')
}

/// The command that taunts with taunt slot `num`.
pub open spec fn taunt_text(num: nat) -> Seq<char> {
    "taunt "@ + decimal(num)
}

/// The presence status after a kill: the kill count, the victim and the
/// killer.
pub open spec fn kill_status_text(count: nat, victim: Seq<char>, username: Seq<char>) -> Seq<char> {
    "Kills: "@ + decimal(count) + " - "@ + victim + " killed by "@ + username
}

/// The presence status that shows the kill count.
pub open spec fn count_status_text(count: nat) -> Seq<char> {
    "Kills: "@ + decimal(count)
}

/// Builds the chat command that says `text` (what `RconWrapper::say` sends):
/// `say ` followed by `text` without its semicolons.
pub fn say_command(text: &str) -> (r: String)
    ensures
        r@ == say_text(text@),
        !r@.contains(';'),
{
    let cleaned = remove_char(&chars_of(text), ';');
    let mut r = String::from_str("say ");
    let tail = string_of(&cleaned);
    r.append(tail.as_str());
    proof {
        lemma_without_char_lacks(text@, ';');
        reveal_strlit("say ");
        assert(!r@.contains(';')) by {
            if r@.contains(';') {
                let i = choose|i: int| 0 <= i < r@.len() && r@[i] == ';';
                if i >= 4 {
                    assert(cleaned@[i - 4] == ';');
                }
            }
        }
    }
    r
}

/// Builds the command that taunts with slot `num` (what `RconWrapper::taunt`
/// sends).
pub fn taunt_command(num: u32) -> (r: String)
    ensures
        r@ == taunt_text(num as nat),
{
    let mut r = String::from_str("taunt ");
    let n = decimal_string(num as u64);
    r.append(n.as_str());
    r
}

/// The presence status after a kill (what `update_rpc` shows):
/// `Kills: {count} - {victim} killed by {username}`.
pub fn kill_status(count: u32, victim: &str, username: &str) -> (r: String)
    ensures
        r@ == kill_status_text(count as nat, victim@, username@),
{
    let mut r = String::from_str("Kills: ");
    let n = decimal_string(count as u64);
    r.append(n.as_str());
    r.append(" - ");
    r.append(victim);
    r.append(" killed by ");
    r.append(username);
    r
}

/// The presence status that shows the kill count: `Kills: {count}`.
pub fn count_status(count: u32) -> (r: String)
    ensures
        r@ == count_status_text(count as nat),
{
    let mut r = String::from_str("Kills: ");
    let n = decimal_string(count as u64);
    r.append(n.as_str());
    r
}

/// A text without semicolons is said as written, after `say `.
pub proof fn lemma_say_keeps_plain_text(text: Seq<char>)
    requires
        !text.contains(';'),
    ensures
        say_text(text) == "say "@ + text,
{
    lemma_without_char_keeps(text, ';');
}

proof fn lemma_without_char_keeps(s: Seq<char>, c: char)
    requires
        !s.contains(c),
    ensures
        without_char(s, c) == s,
    decreases s.len(),
{
    if s.len() > 0 {
        assert(!s.drop_last().contains(c)) by {
            if s.drop_last().contains(c) {
                let i = choose|i: int| 0 <= i < s.drop_last().len() && s.drop_last()[i] == c;
                assert(s[i] == c);
            }
        }
        lemma_without_char_keeps(s.drop_last(), c);
        assert(s.last() != c) by {
            assert(s[s.len() - 1] == s.last());
        }
        assert(s.drop_last().push(s.last()) =~= s);
    }
}

/// Taking out every `c` leaves no `c`.
pub proof fn lemma_without_char_lacks(s: Seq<char>, c: char)
    ensures
        !without_char(s, c).contains(c),
    decreases s.len(),
{
    if s.len() > 0 {
        lemma_without_char_lacks(s.drop_last(), c);
        let prev = without_char(s.drop_last(), c);
        if s.last() != c {
            assert forall|i: int| 0 <= i < prev.push(s.last()).len() implies prev.push(
                s.last(),
            )[i] != c by {
                if i < prev.len() {
                    assert(prev.push(s.last())[i] == prev[i]);
                }
            }
        }
    }
}

} // verus!
