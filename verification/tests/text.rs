use taunter::commands::{count_status, kill_status, say_command, taunt_command};
use taunter::response::fill_message;
use taunter::text::{chars_of, decimal_string, remove_char, replace_chars, string_of};
use taunter::{default_port, use_taunt, Config, UsernameVictimConfig};

#[test]
fn decimal_string_writes_numbers() {
    assert_eq!(decimal_string(0), "0");
    assert_eq!(decimal_string(7), "7");
    assert_eq!(decimal_string(10), "10");
    assert_eq!(decimal_string(1234567890), "1234567890");
    assert_eq!(decimal_string(u64::MAX), u64::MAX.to_string());
}

#[test]
fn chars_round_trip() {
    let cs = chars_of("héllo wörld");
    assert_eq!(cs.len(), 11);
    assert_eq!(string_of(&cs), "héllo wörld");
}

#[test]
fn remove_char_takes_every_one_out() {
    let cs = remove_char(&chars_of(";a;;b;"), ';');
    assert_eq!(string_of(&cs), "ab");
}

#[test]
fn replace_chars_matches_str_replace() {
    let cases = [
        ("aaa", "aa", "b"),
        ("{victim}{victim}", "{victim}", "X"),
        ("no placeholder", "{count}", "3"),
        ("", "x", "y"),
        ("xyx", "x", ""),
    ];
    for (s, pat, by) in cases {
        let r = replace_chars(&chars_of(s), &chars_of(pat), &chars_of(by));
        assert_eq!(string_of(&r), s.replace(pat, by));
    }
}

#[test]
fn fill_message_replaces_placeholders() {
    assert_eq!(
        fill_message("gg {victim}, that's {count}!", "Mentlegen", 12),
        "gg Mentlegen, that's 12!"
    );
    assert_eq!(fill_message("plain", "Mentlegen", 12), "plain");
    // The victim is put in first, so a name holding "{count}" gets the count.
    assert_eq!(fill_message("{victim}", "a{count}b", 3), "a3b");
}

#[test]
fn say_command_drops_semicolons() {
    assert_eq!(say_command("hello"), "say hello");
    assert_eq!(say_command("hi; quit"), "say hi quit");
    assert!(!say_command(";;;").contains(';'));
}

#[test]
fn taunt_command_names_the_slot() {
    assert_eq!(taunt_command(1), "taunt 1");
    assert_eq!(taunt_command(42), "taunt 42");
}

#[test]
fn status_texts() {
    assert_eq!(
        kill_status(3, "Mentlegen", "./albarozzz"),
        "Kills: 3 - Mentlegen killed by ./albarozzz"
    );
    assert_eq!(count_status(10), "Kills: 10");
}

#[test]
fn defaults() {
    assert_eq!(default_port(), "27015");
    assert!(use_taunt());
    let c = Config::default();
    assert_eq!(c.port, "");
    assert!(!c.use_taunt);
    assert!(c.usernames.is_empty());
    let v = UsernameVictimConfig::default();
    assert!(!v.use_taunt && !v.use_spinbot);
    assert!(v.message_to_send.is_empty());
    assert_eq!(v.extra_commands, "");
}
