//! What to send back after a kill that counts.
use crate::commands::{
    count_status, count_status_text, say_command, say_text, taunt_command, taunt_text,
};
use crate::text::{
    chars_of, decimal, decimal_string, occurs_at, replace_all, replace_chars, string_of,
};
use crate::{Config, UsernameVictimConfig};
use rand::Rng;
use vstd::prelude::*;

verus! {

/// The taunt slot used after a kill.
pub const TAUNT_SLOT: u32 = 1;

/// How long the spin lasts, in milliseconds.
pub const SPIN_MILLIS: u64 = 1000;

/// The presence status is refreshed every this many kills.
pub const STATUS_EVERY: u32 = 5;

/// One step of the reaction to a kill.
pub enum Action {
    /// Send this console command through RCON.
    Command(String),
    /// Wait this many milliseconds.
    Wait(u64),
    /// Show this status in Discord rich presence.
    Status(String),
}

/// An `Action`, with texts as character sequences.
pub enum ActionView {
    Command(Seq<char>),
    Wait(u64),
    Status(Seq<char>),
}

impl View for Action {
    type V = ActionView;

    open spec fn view(&self) -> ActionView {
        match self {
            Action::Command(c) => ActionView::Command(c@),
            Action::Wait(ms) => ActionView::Wait(*ms),
            Action::Status(s) => ActionView::Status(s@),
        }
    }
}

/// The actions held by a list.
pub open spec fn actions_view(v: Seq<Action>) -> Seq<ActionView> {
    v.map_values(|a: Action| a@)
}

/// A chat template with `{victim}` replaced by the victim's name and then
/// `{count}` by the kill count.
pub open spec fn filled(template: Seq<char>, victim: Seq<char>, count: nat) -> Seq<char> {
    replace_all(replace_all(template, "{victim}"@, victim), "{count}"@, decimal(count))
}

/// The list of chat templates to pick from: the victim's own lists when the
/// victim has settings, the general lists otherwise; the list for dominations
/// when the victim is dominated; none when that list is empty.
pub open spec fn message_pool(
    config: Config,
    settings: Option<UsernameVictimConfig>,
    dominating: bool,
) -> Option<Seq<String>> {
    let (plain, special) = match settings {
        Some(s) => (s.message_to_send@, s.message_to_send_when_dominated@),
        None => (config.words@, config.special_words@),
    };
    if !dominating && plain.len() > 0 {
        Some(plain)
    } else if dominating && special.len() > 0 {
        Some(special)
    } else {
        None
    }
}

/// Turning with `+left` for a moment, then stopping.
pub open spec fn spin_actions() -> Seq<ActionView> {
    seq![
        ActionView::Command("+left"@),
        ActionView::Wait(SPIN_MILLIS),
        ActionView::Command("-left"@),
    ]
}

/// Taunting with the taunt slot.
pub open spec fn taunt_actions() -> Seq<ActionView> {
    seq![ActionView::Command(taunt_text(TAUNT_SLOT as nat))]
}

/// The extra commands, if there are any.
pub open spec fn extra_actions(extra: Seq<char>) -> Seq<ActionView> {
    if extra.len() > 0 {
        seq![ActionView::Command(extra)]
    } else {
        seq![]
    }
}

/// Saying the template at position `choice` of the pool, if there is a pool.
pub open spec fn say_actions(pool: Option<Seq<String>>, choice: int, victim: Seq<char>, count: nat) -> Seq<
    ActionView,
> {
    match pool {
        Some(p) => seq![ActionView::Command(say_text(filled(p[choice]@, victim, count)))],
        None => seq![],
    }
}

/// Saying the configured message, if there is one.
pub open spec fn message_actions(message: Seq<char>) -> Seq<ActionView> {
    if message.len() > 0 {
        seq![ActionView::Command(say_text(message))]
    } else {
        seq![]
    }
}

/// The reaction to a counted kill of `victim`, the `count`-th kill so far,
/// with `choice` picking the chat template.
///
/// With settings for the victim: taunt (or else spin) as they say, say a
/// template of theirs, send their extra commands. Without: say a general
/// template, say the configured message, spin (or else taunt) as the
/// configuration says, send the extra
/// commands, and every `STATUS_EVERY` kills refresh the presence status when
/// it is in use.
pub open spec fn response(
    config: Config,
    settings: Option<UsernameVictimConfig>,
    victim: Seq<char>,
    count: nat,
    dominating: bool,
    choice: int,
) -> Seq<ActionView> {
    let says = say_actions(message_pool(config, settings, dominating), choice, victim, count);
    match settings {
        Some(s) => {
            let moves = if s.use_taunt {
                taunt_actions()
            } else if s.use_spinbot {
                spin_actions()
            } else {
                seq![]
            };
            moves + says + extra_actions(s.extra_commands@)
        },
        None => {
            let moves = if config.use_spinbot {
                spin_actions()
            } else if config.use_taunt {
                taunt_actions()
            } else {
                seq![]
            };
            says + message_actions(config.message@) + moves + extra_actions(config.extra_commands@)
                + status_actions(config, count)
        },
    }
}

/// With settings of its own the victim's lists are the only source of chat
/// templates: the pool does not depend on the configuration at all, it is
/// the victim's list for dominations on a domination and the victim's plain
/// list otherwise, when that list is not empty.
pub proof fn lemma_victim_pool_is_their_own(
    config: Config,
    other: Config,
    s: UsernameVictimConfig,
    dominating: bool,
)
    ensures
        message_pool(config, Some(s), dominating) == message_pool(other, Some(s), dominating),
        dominating && s.message_to_send_when_dominated@.len() > 0 ==> message_pool(
            config,
            Some(s),
            dominating,
        ) == Some(s.message_to_send_when_dominated@),
        !dominating && s.message_to_send@.len() > 0 ==> message_pool(config, Some(s), dominating)
            == Some(s.message_to_send@),
        dominating && s.message_to_send_when_dominated@.len() == 0 ==> message_pool(
            config,
            Some(s),
            dominating,
        ) is None,
        !dominating && s.message_to_send@.len() == 0 ==> message_pool(config, Some(s), dominating) is None,
{
}

/// Without settings for the victim the pool is the configuration's
/// `special_words` on a domination and `words` otherwise, when not empty.
pub proof fn lemma_general_pool(config: Config, dominating: bool)
    ensures
        dominating && config.special_words@.len() > 0 ==> message_pool(config, None, dominating)
            == Some(config.special_words@),
        !dominating && config.words@.len() > 0 ==> message_pool(config, None, dominating) == Some(
            config.words@,
        ),
        dominating && config.special_words@.len() == 0 ==> message_pool(config, None, dominating) is None,
        !dominating && config.words@.len() == 0 ==> message_pool(config, None, dominating) is None,
{
}

/// With settings for the victim the reaction starts with the victim's own
/// move: `taunt 1` when they ask for a taunt, otherwise, when they ask for a
/// spin, `+left`, a wait of 1000 ms and `-left`. It never refreshes the
/// presence status, and it never sends the configuration's extra commands
/// unless they are the victim's own.
pub proof fn lemma_victim_settings_move_first(
    config: Config,
    s: UsernameVictimConfig,
    victim: Seq<char>,
    count: nat,
    dominating: bool,
    choice: int,
)
    ensures
        ({
            let r = response(config, Some(s), victim, count, dominating, choice);
            &&& s.use_taunt ==> r.len() >= 1 && r[0] == ActionView::Command("taunt 1"@)
            &&& !s.use_taunt && s.use_spinbot ==> r.len() >= 3 && r[0] == ActionView::Command(
                "+left"@,
            ) && r[1] == ActionView::Wait(1000) && r[2] == ActionView::Command("-left"@)
            &&& forall|i: int| 0 <= i < r.len() ==> !(#[trigger] r[i] is Status)
            &&& s.extra_commands@.len() > 0 ==> r.last() == ActionView::Command(s.extra_commands@)
            &&& message_pool(config, Some(s), dominating) matches Some(p) ==> r.contains(
                ActionView::Command(say_text(filled(p[choice]@, victim, count))),
            )
        }),
{
    let r = response(config, Some(s), victim, count, dominating, choice);
    reveal_strlit("taunt ");
    reveal_strlit("taunt 1");
    assert(decimal(1) =~= seq!['1']);
    assert("taunt "@ + decimal(1) =~= "taunt 1"@);
    let says = say_actions(message_pool(config, Some(s), dominating), choice, victim, count);
    let moves = if s.use_taunt {
        taunt_actions()
    } else if s.use_spinbot {
        spin_actions()
    } else {
        seq![]
    };
    assert(r == moves + says + extra_actions(s.extra_commands@));
    if says.len() > 0 {
        assert(r[moves.len() as int] == says[0]);
    }
    assert forall|i: int| 0 <= i < r.len() implies !(#[trigger] r[i] is Status) by {
        if i < moves.len() {
            assert(r[i] == moves[i]);
        } else if i < moves.len() + says.len() {
            assert(r[i] == says[i - moves.len()]);
        } else {
            assert(r[i] == extra_actions(s.extra_commands@)[i - moves.len() - says.len()]);
        }
    }
}

/// Without settings for the victim, the presence status is refreshed
/// exactly when it is in use and the kill count is a multiple of
/// `STATUS_EVERY`, as the last action, showing `Kills: {count}`; and spinning
/// happens when asked for, taunting only when spinning is not.
pub proof fn lemma_general_reaction(
    config: Config,
    victim: Seq<char>,
    count: nat,
    dominating: bool,
    choice: int,
)
    ensures
        ({
            let r = response(config, None, victim, count, dominating, choice);
            &&& (config.use_discord_rpc && count % 5 == 0) ==> r.len() >= 1 && r.last()
                == ActionView::Status("Kills: "@ + decimal(count))
            &&& !(config.use_discord_rpc && count % 5 == 0) ==> forall|i: int|
                0 <= i < r.len() ==> !(#[trigger] r[i] is Status)
            &&& config.use_spinbot ==> r.contains(ActionView::Command("+left"@))
            &&& !config.use_spinbot && config.use_taunt ==> r.contains(ActionView::Command("taunt 1"@))
            &&& message_pool(config, None, dominating) matches Some(p) ==> r.len() >= 1 && r[0]
                == ActionView::Command(say_text(filled(p[choice]@, victim, count)))
            &&& config.message@.len() > 0 ==> r.contains(ActionView::Command(say_text(config.message@)))
        }),
{
    let r = response(config, None, victim, count, dominating, choice);
    reveal_strlit("taunt ");
    reveal_strlit("taunt 1");
    assert(decimal(1) =~= seq!['1']);
    assert("taunt "@ + decimal(1) =~= "taunt 1"@);
    let says = say_actions(message_pool(config, None, dominating), choice, victim, count);
    let msg = message_actions(config.message@);
    let moves = if config.use_spinbot {
        spin_actions()
    } else if config.use_taunt {
        taunt_actions()
    } else {
        seq![]
    };
    let extra = extra_actions(config.extra_commands@);
    let status = status_actions(config, count);
    assert(r == says + msg + moves + extra + status);
    let p: int = (says.len() + msg.len()) as int;
    if moves.len() > 0 {
        assert(r[p] == moves[0]);
    }
    if says.len() > 0 {
        assert(r[0] == says[0]);
    }
    if msg.len() > 0 {
        assert(r[says.len() as int] == msg[0]);
    }
    assert forall|i: int| 0 <= i < r.len() && !(config.use_discord_rpc && count % 5 == 0) implies !(
    #[trigger] r[i] is Status) by {
        if i < says.len() {
            assert(r[i] == says[i]);
        } else if i < p {
            assert(r[i] == msg[i - says.len()]);
        } else if i < p + moves.len() {
            assert(r[i] == moves[i - p]);
        } else {
            assert(r[i] == extra[i - p - moves.len()]);
        }
    }
}

/// The settings behind an optional reference.
pub open spec fn deref_settings(s: Option<&UsernameVictimConfig>) -> Option<UsernameVictimConfig> {
    match s {
        Some(c) => Some(*c),
        None => None,
    }
}

/// The templates behind an optional reference to a list.
pub open spec fn pool_view(p: Option<&Vec<String>>) -> Option<Seq<String>> {
    match p {
        Some(v) => Some(v@),
        None => None,
    }
}

proof fn lemma_replace_absent(s: Seq<char>, pat: Seq<char>, by: Seq<char>)
    requires
        pat.len() > 0,
        !s.contains(pat[0]),
    ensures
        replace_all(s, pat, by) == s,
    decreases s.len(),
{
    if s.len() > 0 {
        if occurs_at(s, pat, 0) {
            assert(s.subrange(0, pat.len() as int)[0] == s[0]);
        }
        assert(!s.skip(1).contains(pat[0])) by {
            if s.skip(1).contains(pat[0]) {
                let i = choose|i: int| 0 <= i < s.skip(1).len() && s.skip(1)[i] == pat[0];
                assert(s[i + 1] == pat[0]);
            }
        }
        lemma_replace_absent(s.skip(1), pat, by);
        assert(seq![s[0]] + s.skip(1) =~= s);
    }
}

/// A chat template without braces is said as written, whoever the victim
/// and whatever the count.
pub proof fn lemma_plain_template_kept(template: Seq<char>, victim: Seq<char>, count: nat)
    requires
        !template.contains('{'),
    ensures
        filled(template, victim, count) == template,
{
    reveal_strlit("{victim}");
    reveal_strlit("{count}");
    lemma_replace_absent(template, "{victim}"@, victim);
    lemma_replace_absent(template, "{count}"@, decimal(count));
}

/// The status refresh that follows a counted kill without victim settings.
pub open spec fn status_actions(config: Config, count: nat) -> Seq<ActionView> {
    if config.use_discord_rpc && count % (STATUS_EVERY as nat) == 0 {
        seq![ActionView::Status(count_status_text(count))]
    } else {
        seq![]
    }
}

/// Spinning overrides taunting: when the configuration asks for both and
/// the victim has no settings of their own, the reaction says its messages,
/// spins in the place of the taunt, then sends the extra commands and the
/// status.
pub proof fn lemma_spin_overrides_taunt(
    config: Config,
    victim: Seq<char>,
    count: nat,
    dominating: bool,
    choice: int,
)
    requires
        config.use_spinbot,
        config.use_taunt,
    ensures
        response(config, None, victim, count, dominating, choice) == say_actions(
            message_pool(config, None, dominating),
            choice,
            victim,
            count,
        ) + message_actions(config.message@) + spin_actions() + extra_actions(config.extra_commands@)
            + status_actions(config, count),
{
}

/// Whether `choice` can pick from the pool (any choice does when there is
/// no pool).
pub open spec fn valid_choice(pool: Option<Seq<String>>, choice: int) -> bool {
    match pool {
        Some(p) => 0 <= choice < p.len(),
        None => 0 <= choice,
    }
}

/// Fills a chat template: `{victim}` becomes the victim's name, then
/// `{count}` becomes the kill count.
pub fn fill_message(template: &str, victim: &str, count: u32) -> (r: String)
    ensures
        r@ == filled(template@, victim@, count as nat),
{
    proof {
        reveal_strlit("{victim}");
        reveal_strlit("{count}");
    }
    let t = chars_of(template);
    let v = chars_of(victim);
    let c = chars_of(decimal_string(count as u64).as_str());
    let once = replace_chars(&t, &chars_of("{victim}"), &v);
    let twice = replace_chars(&once, &chars_of("{count}"), &c);
    string_of(&twice)
}

/// The list of chat templates to pick from (see `message_pool`).
pub fn pick_pool<'a>(
    config: &'a Config,
    settings: Option<&'a UsernameVictimConfig>,
    dominating: bool,
) -> (r: Option<&'a Vec<String>>)
    ensures
        r is Some <==> message_pool(*config, deref_settings(settings), dominating) is Some,
        r matches Some(p) ==> message_pool(*config, deref_settings(settings), dominating) == Some(
            p@,
        ),
{
    let (plain, special) = match settings {
        Some(s) => (&s.message_to_send, &s.message_to_send_when_dominated),
        None => (&config.words, &config.special_words),
    };
    if !dominating && plain.len() > 0 {
        Some(plain)
    } else if dominating && special.len() > 0 {
        Some(special)
    } else {
        None
    }
}

fn push_spin(out: &mut Vec<Action>)
    ensures
        actions_view(final(out)@) == actions_view(old(out)@) + spin_actions(),
{
    let ghost before = actions_view(out@);
    out.push(Action::Command(String::from_str("+left")));
    out.push(Action::Wait(SPIN_MILLIS));
    out.push(Action::Command(String::from_str("-left")));
    proof {
        assert(actions_view(out@) =~= before + spin_actions());
    }
}

fn push_taunt(out: &mut Vec<Action>)
    ensures
        actions_view(final(out)@) == actions_view(old(out)@) + taunt_actions(),
{
    let ghost before = actions_view(out@);
    out.push(Action::Command(taunt_command(TAUNT_SLOT)));
    proof {
        assert(actions_view(out@) =~= before + taunt_actions());
    }
}

fn push_extra(out: &mut Vec<Action>, extra: &String)
    ensures
        actions_view(final(out)@) == actions_view(old(out)@) + extra_actions(extra@),
{
    let ghost before = actions_view(out@);
    if extra.as_str().is_empty() {
        proof {
            assert(actions_view(out@) =~= before + extra_actions(extra@));
        }
    } else {
        out.push(Action::Command(extra.clone()));
        proof {
            assert(actions_view(out@) =~= before + extra_actions(extra@));
        }
    }
}

fn push_message(out: &mut Vec<Action>, message: &String)
    ensures
        actions_view(final(out)@) == actions_view(old(out)@) + message_actions(message@),
{
    let ghost before = actions_view(out@);
    if !message.as_str().is_empty() {
        out.push(Action::Command(say_command(message.as_str())));
    }
    proof {
        assert(actions_view(out@) =~= before + message_actions(message@));
    }
}

fn push_say(
    out: &mut Vec<Action>,
    pool: Option<&Vec<String>>,
    choice: usize,
    victim: &str,
    count: u32,
)
    requires
        pool matches Some(p) ==> choice < p@.len(),
    ensures
        actions_view(final(out)@) == actions_view(old(out)@) + say_actions(
            pool_view(pool),
            choice as int,
            victim@,
            count as nat,
        ),
{
    let ghost before = actions_view(out@);
    match pool {
        Some(p) => {
            let text = fill_message(p[choice].as_str(), victim, count);
            out.push(Action::Command(say_command(text.as_str())));
        },
        None => {},
    }
    proof {
        assert(actions_view(out@) =~= before + say_actions(
            pool_view(pool),
            choice as int,
            victim@,
            count as nat,
        ));
    }
}

/// The reaction to a counted kill of `victim` that is the `count`-th kill,
/// with the chat template at position `choice` of the pool (see `response`).
pub fn respond_with_choice(
    config: &Config,
    settings: Option<&UsernameVictimConfig>,
    victim: &str,
    count: u32,
    dominating: bool,
    choice: usize,
) -> (r: Vec<Action>)
    requires
        valid_choice(message_pool(*config, deref_settings(settings), dominating), choice as int),
    ensures
        actions_view(r@) == response(
            *config,
            deref_settings(settings),
            victim@,
            count as nat,
            dominating,
            choice as int,
        ),
{
    let pool = pick_pool(config, settings, dominating);
    let mut out: Vec<Action> = Vec::new();
    proof {
        assert(actions_view(out@) =~= Seq::<ActionView>::empty());
    }
    match settings {
        Some(s) => {
            if s.use_taunt {
                push_taunt(&mut out);
            } else if s.use_spinbot {
                push_spin(&mut out);
            }
            push_say(&mut out, pool, choice, victim, count);
            push_extra(&mut out, &s.extra_commands);
        },
        None => {
            push_say(&mut out, pool, choice, victim, count);
            push_message(&mut out, &config.message);
            if config.use_spinbot {
                push_spin(&mut out);
            } else if config.use_taunt {
                push_taunt(&mut out);
            }
            push_extra(&mut out, &config.extra_commands);
            let ghost before = actions_view(out@);
            if config.use_discord_rpc && count % STATUS_EVERY == 0 {
                out.push(Action::Status(count_status(count)));
            }
            proof {
                assert(actions_view(out@) =~= before + status_actions(*config, count as nat));
            }
        },
    }
    proof {
        let says = say_actions(
            message_pool(*config, deref_settings(settings), dominating),
            choice as int,
            victim@,
            count as nat,
        );
        assert(pool_view(pool) == message_pool(*config, deref_settings(settings), dominating));
    }
    out
}

/// A random position below `len` (`rand::Rng::gen_range` over `0..len` on
/// the thread's generator). Trusted: the position is below `len`; which one
/// it is rests on chance.
#[verifier::external_body]
fn random_below(len: usize) -> (r: usize)
    requires
        len > 0,
    ensures
        r < len,
{
    rand::thread_rng().gen_range(0..len)
}

/// The reaction to a counted kill of `victim` that is the `count`-th kill,
/// with the chat template picked at random from the pool (see `response`).
pub fn respond(
    config: &Config,
    settings: Option<&UsernameVictimConfig>,
    victim: &str,
    count: u32,
    dominating: bool,
) -> (r: Vec<Action>)
    ensures
        exists|choice: int|
            valid_choice(message_pool(*config, deref_settings(settings), dominating), choice)
                && actions_view(r@) == #[trigger] response(
                *config,
                deref_settings(settings),
                victim@,
                count as nat,
                dominating,
                choice,
            ),
{
    let choice = match pick_pool(config, settings, dominating) {
        Some(p) => random_below(p.len()),
        None => 0,
    };
    respond_with_choice(config, settings, victim, count, dominating, choice)
}

} // verus!
