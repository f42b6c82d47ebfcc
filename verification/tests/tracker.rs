use taunter::keyed::StringMap;
use taunter::log::{lines_of, scan_log, tail_start, Scan, DEFAULT_CHUNK_SIZE};
use taunter::response::{pick_pool, respond, respond_with_choice, Action};
use taunter::tracker::{KillTracker, TrackerError};
use taunter::victims::{victim_settings, VictimSettings};
use taunter::{Config, UsernameVictimConfig};

fn kill(user: &str, victim: &str) -> String {
    format!("03/11/2023 - 01:55:04: {} killed {} with scattergun.", user, victim)
}

fn log_of(lines: &[String]) -> String {
    lines.join("\n")
}

fn commands(actions: &[Action]) -> Vec<String> {
    actions
        .iter()
        .map(|a| match a {
            Action::Command(c) => format!("cmd:{}", c),
            Action::Wait(ms) => format!("wait:{}", ms),
            Action::Status(s) => format!("status:{}", s),
        })
        .collect()
}

#[test]
fn tail_start_reads_the_last_chunk() {
    assert_eq!(tail_start(100, DEFAULT_CHUNK_SIZE), 0);
    assert_eq!(tail_start(5000, 2048), 2952);
    assert_eq!(tail_start(2048, 2048), 0);
    assert_eq!(tail_start(0, 10), 0);
}

#[test]
fn lines_of_splits_like_split() {
    for text in ["", "a", "a\n", "\n\nb\nc", "one\ntwo\nthree"] {
        let expected: Vec<String> = text.split('\n').map(|s| s.to_string()).collect();
        assert_eq!(lines_of(text), expected);
    }
}

#[test]
fn scan_log_waits_for_output() {
    match scan_log("a\nb\nc", "-") {
        Scan::Waiting => {}
        _ => panic!("expected Waiting"),
    }
    match scan_log("1\n2\n3\n4\n5\n6\n7", "-") {
        Scan::TooShort => {}
        _ => panic!("expected TooShort"),
    }
}

#[test]
fn scan_log_picks_lines_after_the_last_handled() {
    let lines: Vec<String> = (0..15).map(|i| format!("line {}", i)).collect();
    let text = log_of(&lines);
    // Not in the window: every line of the window but the first.
    match scan_log(&text, "-") {
        Scan::Lines(v) => assert_eq!(v, lines[4..].to_vec()),
        _ => panic!("expected Lines"),
    }
    // In the window: the lines after it.
    match scan_log(&text, "line 10") {
        Scan::Lines(v) => assert_eq!(v, lines[11..].to_vec()),
        _ => panic!("expected Lines"),
    }
    // The very last line: nothing.
    match scan_log(&text, "line 14") {
        Scan::Lines(v) => assert!(v.is_empty()),
        _ => panic!("expected Lines"),
    }
}

#[test]
fn string_map_reads_what_was_written() {
    let mut m: StringMap<u64> = StringMap::new();
    assert_eq!(m.get("a"), None);
    m.insert("a".to_string(), 1);
    m.insert("b".to_string(), 2);
    m.insert("a".to_string(), 3);
    assert_eq!(m.get("a"), Some(&3));
    assert_eq!(m.get("b"), Some(&2));
    m.remove("a");
    assert_eq!(m.get("a"), None);
    assert_eq!(m.get("b"), Some(&2));
    m.remove("zzz");
    assert_eq!(m.get("b"), Some(&2));
}

fn settings(taunt: bool, spin: bool, msgs: &[&str], extra: &str) -> UsernameVictimConfig {
    UsernameVictimConfig {
        use_taunt: taunt,
        use_spinbot: spin,
        message_to_send: msgs.iter().map(|s| s.to_string()).collect(),
        message_to_send_when_dominated: vec!["dominated {victim}".to_string()],
        extra_commands: extra.to_string(),
    }
}

#[test]
fn victim_settings_prefer_the_pair() {
    let mut table = StringMap::new();
    table.insert("when_killed_Bob".to_string(), Ok(settings(true, false, &["any"], "")));
    table.insert("when_killed_Bob_by_me".to_string(), Ok(settings(false, true, &["pair"], "")));
    table.insert("when_killed_Eve".to_string(), Err("not a settings object".to_string()));
    let pair = victim_settings(&table, "Bob", "me").unwrap().as_ref().ok().unwrap();
    assert_eq!(pair.message_to_send, vec!["pair".to_string()]);
    let any = victim_settings(&table, "Bob", "you").unwrap().as_ref().ok().unwrap();
    assert_eq!(any.message_to_send, vec!["any".to_string()]);
    assert!(victim_settings(&table, "Alice", "me").is_none());
    assert!(victim_settings(&table, "Eve", "me").unwrap().is_err());
}

#[test]
fn tracker_counts_and_dominates_on_the_fifth_kill() {
    let mut t = KillTracker::new().ok().unwrap();
    assert_eq!(t.count(), 0);
    assert_eq!(t.last_line(), "-");
    let us = vec!["me".to_string()];
    let line = kill("me", "Bob");
    for n in 1..=6u32 {
        let e = t.observe_line(&line, &us).unwrap();
        assert_eq!(e.username, "me");
        assert_eq!(e.victim, "Bob");
        let rec = t.record_kill(&line, &e).ok().unwrap();
        assert_eq!(rec.count, n);
        assert_eq!(rec.streak, (n - 1) as u64);
        assert_eq!(rec.dominating, n == 5);
        assert_eq!(t.last_line(), line);
    }
}

#[test]
fn tracker_revenge_resets_the_streak() {
    let mut t = KillTracker::new().ok().unwrap();
    let us = vec!["me".to_string()];
    let mine = kill("me", "Bob");
    for _ in 0..3 {
        let e = t.observe_line(&mine, &us).unwrap();
        t.record_kill(&mine, &e).ok().unwrap();
    }
    // Bob kills me: my streak over Bob ends.
    let revenge = kill("Bob", "me");
    let e = t.observe_line(&revenge, &us).unwrap();
    assert_eq!(e.username, "Bob");
    let e = t.observe_line(&mine, &us).unwrap();
    let rec = t.record_kill(&mine, &e).ok().unwrap();
    assert_eq!(rec.streak, 0);
    assert!(!rec.dominating);
}

#[test]
fn tracker_ignores_other_lines() {
    let mut t = KillTracker::new().ok().unwrap();
    assert!(t.observe_line("Connected to server", &[]).is_none());
    assert!(t.observe_line("01/02/2024 - 10:11:12:  killed  with c", &[]).is_none());
    t.restart();
    assert_eq!(t.last_line(), "-");
}

#[test]
fn tracker_scan_skips_handled_kill() {
    let mut t = KillTracker::new().ok().unwrap();
    let mut lines: Vec<String> = (0..10).map(|i| format!("noise {}", i)).collect();
    let k1 = kill("me", "Bob");
    lines.push(k1.clone());
    lines.push("noise after".to_string());
    let text = log_of(&lines);
    let e = t.observe_line(&k1, &[]).unwrap();
    t.record_kill(&k1, &e).ok().unwrap();
    match t.scan(&text) {
        Scan::Lines(v) => assert_eq!(v, vec!["noise after".to_string()]),
        _ => panic!("expected Lines"),
    }
}

fn config() -> Config {
    let mut c = Config::default();
    c.words = vec!["gg {victim} #{count}".to_string(), "second".to_string()];
    c.special_words = vec!["owned {victim}".to_string()];
    c.extra_commands = "voicemenu 0 0".to_string();
    c
}

#[test]
fn respond_general_reaction() {
    let mut c = config();
    c.use_taunt = true;
    c.use_discord_rpc = true;
    let r = respond_with_choice(&c, None, "Bob", 10, false, 0);
    assert_eq!(
        commands(&r),
        vec![
            "cmd:say gg Bob #10".to_string(),
            "cmd:taunt 1".to_string(),
            "cmd:voicemenu 0 0".to_string(),
            "status:Kills: 10".to_string(),
        ]
    );
    let r = respond_with_choice(&c, None, "Bob", 11, true, 0);
    assert_eq!(
        commands(&r),
        vec!["cmd:say owned Bob".to_string(), "cmd:taunt 1".to_string(), "cmd:voicemenu 0 0".to_string()]
    );
}

#[test]
fn respond_spin_overrides_taunt() {
    let mut c = config();
    c.use_taunt = true;
    c.use_spinbot = true;
    c.extra_commands = String::new();
    let r = respond_with_choice(&c, None, "Bob", 3, false, 1);
    assert_eq!(
        commands(&r),
        vec![
            "cmd:say second".to_string(),
            "cmd:+left".to_string(),
            "wait:1000".to_string(),
            "cmd:-left".to_string(),
        ]
    );
}

#[test]
fn respond_with_victim_settings() {
    let c = config();
    let s = settings(true, true, &["bye {victim}"], "kill");
    let r = respond_with_choice(&c, Some(&s), "Bob", 5, false, 0);
    assert_eq!(
        commands(&r),
        vec!["cmd:taunt 1".to_string(), "cmd:say bye Bob".to_string(), "cmd:kill".to_string()]
    );
    let s = settings(false, false, &[], "");
    let r = respond_with_choice(&c, Some(&s), "Bob", 5, false, 0);
    assert!(r.is_empty());
    assert!(pick_pool(&c, Some(&s), false).is_none());
}

#[test]
fn respond_picks_one_of_the_templates() {
    let c = config();
    for _ in 0..20 {
        let r = commands(&respond(&c, None, "Bob", 2, false));
        assert!(r[0] == "cmd:say gg Bob #2" || r[0] == "cmd:say second");
        assert_eq!(r.len(), 2);
    }
}

#[test]
fn tracker_error_names_pattern_refusal() {
    match KillTracker::new() {
        Ok(_) => {}
        Err(TrackerError::PatternRefused(_)) => panic!("the kill-line pattern is valid"),
        Err(_) => panic!("unexpected error"),
    }
}

#[test]
fn respond_says_the_configured_message() {
    let mut c = config();
    c.message = "ez; gg".to_string();
    c.extra_commands = String::new();
    let r = respond_with_choice(&c, None, "Bob", 1, false, 1);
    assert_eq!(commands(&r), vec!["cmd:say second".to_string(), "cmd:say ez gg".to_string()]);
    // Victims with settings of their own do not get it.
    let s = settings(false, false, &[], "");
    assert!(respond_with_choice(&c, Some(&s), "Bob", 1, false, 0).is_empty());
}

#[test]
fn react_records_only_counted_kills() {
    let mut t = KillTracker::new().ok().unwrap();
    let table: VictimSettings = StringMap::new();
    let mut c = config();
    c.words = vec!["gg {victim}".to_string()];
    c.extra_commands = String::new();
    let line = kill("me", "Bob");
    let e = t.observe_line(&line, &[]).unwrap();
    let r = t.react(&line, &e, false, &c, &table).ok().unwrap();
    assert!(r.is_empty());
    assert_eq!(t.count(), 0);
    assert_eq!(t.last_line(), "-");
    let r = t.react(&line, &e, true, &c, &table).ok().unwrap();
    assert_eq!(commands(&r), vec!["cmd:say gg Bob".to_string()]);
    assert_eq!(t.count(), 1);
    assert_eq!(t.last_line(), line);
}

#[test]
fn react_uses_victim_settings_and_reports_unreadable_ones() {
    let mut t = KillTracker::new().ok().unwrap();
    let mut table: VictimSettings = StringMap::new();
    table.insert("when_killed_Bob".to_string(), Ok(settings(true, false, &["bye"], "")));
    table.insert("when_killed_Eve_by_me".to_string(), Err("bad entry".to_string()));
    let c = config();
    let bob = kill("me", "Bob");
    let e = t.observe_line(&bob, &[]).unwrap();
    let r = t.react(&bob, &e, true, &c, &table).ok().unwrap();
    assert_eq!(commands(&r), vec!["cmd:taunt 1".to_string(), "cmd:say bye".to_string()]);
    let eve = kill("me", "Eve");
    let e = t.observe_line(&eve, &[]).unwrap();
    match t.react(&eve, &e, true, &c, &table) {
        Err(TrackerError::SettingsUnreadable(why)) => assert_eq!(why, "bad entry"),
        _ => panic!("expected SettingsUnreadable"),
    }
    // The kill was recorded before the entry was looked up.
    assert_eq!(t.count(), 2);
    assert_eq!(t.last_line(), eve);
}
