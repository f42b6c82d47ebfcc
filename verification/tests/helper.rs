use taunter::helper::{check, get_usernames, usernames_from_captures};

const LINE: &str =
    r#"03/11/2023 - 01:55:04: ./albarozzz killed Grim Bloody Fable with force_a_nature."#;

fn usernames() -> Vec<String> {
    vec!["./albarozzz".to_string()]
}

fn username_victim() -> Vec<String> {
    vec!["Grim Bloody Fable".to_string()]
}

#[test]
fn check_test() {
    let (username, victim) = get_usernames(LINE);
    let result = check(&usernames(), &username_victim(), &username, &victim);

    assert!(result);
    assert_eq!(&username, "./albarozzz");
    assert_eq!(&victim, "Grim Bloody Fable");
}

#[test]
fn check_test_should_return_false() {
    let username_victim_wrong = vec!["Mentlegen".to_string()];

    let (username, victim) = get_usernames(LINE);
    let result = check(&usernames(), &username_victim_wrong, &username, &victim);

    assert!(!result);
    assert_eq!(&username, "./albarozzz");
    assert_ne!(&victim, "Mentlegen");
}

#[test]
fn get_usernames_should_return_empty_strings() {
    let (username, victim) = get_usernames("annoyingbug: madagascar killed albaro");
    let result = check(&usernames(), &username_victim(), &username, &victim);

    assert!(!result);
    assert_eq!(&username, "");
    assert_eq!(&victim, "");
    assert_ne!(&username, "madagascar");
    assert_ne!(&victim, "albaro");
}

#[test]
fn get_usernames_reads_the_documented_example() {
    let (username, victim) =
        get_usernames("03/11/2023 - 01:55:04: ./albarozzz killed Mentlegen with force_a_nature.");
    assert_eq!(username, "./albarozzz");
    assert_eq!(victim, "Mentlegen");
}

#[test]
fn get_usernames_takes_the_last_killed_and_with() {
    // The groups are greedy: the killer runs to the last " killed ", the
    // victim to the last " with ".
    let (username, victim) =
        get_usernames("01/02/2024 - 10:11:12: a killed b killed c with d with e");
    assert_eq!(username, "a killed b");
    assert_eq!(victim, "c with d");
}

#[test]
fn get_usernames_needs_the_timestamp() {
    let (username, victim) = get_usernames("1/02/2024 - 10:11:12: a killed b with c");
    assert_eq!((username.as_str(), victim.as_str()), ("", ""));
    let (username, victim) = get_usernames("x01/02/2024 - 10:11:12: a killed b with c");
    assert_eq!((username.as_str(), victim.as_str()), ("", ""));
}

#[test]
fn get_usernames_rejects_a_line_feed_inside() {
    let (username, victim) = get_usernames("01/02/2024 - 10:11:12: a\nz killed b with c");
    assert_eq!((username.as_str(), victim.as_str()), ("", ""));
}

#[test]
fn get_usernames_may_give_empty_names() {
    let (username, victim) = get_usernames("01/02/2024 - 10:11:12:  killed  with c");
    assert_eq!((username.as_str(), victim.as_str()), ("", ""));
}

#[test]
fn usernames_from_captures_fills_in_missing_groups() {
    assert_eq!(usernames_from_captures(None), (String::new(), String::new()));
    assert_eq!(
        usernames_from_captures(Some((Some("a".to_string()), None))),
        ("a".to_string(), String::new())
    );
    assert_eq!(
        usernames_from_captures(Some((None, Some("b".to_string())))),
        (String::new(), "b".to_string())
    );
    assert_eq!(
        usernames_from_captures(Some((Some("a".to_string()), Some("b".to_string())))),
        ("a".to_string(), "b".to_string())
    );
}

#[test]
fn check_with_open_lists_counts_every_kill() {
    assert!(check(&[], &[], "anyone", "anybody"));
    assert!(check(&usernames(), &[], "./albarozzz", "anybody"));
    assert!(!check(&usernames(), &[], "someone else", "anybody"));
    assert!(check(&[], &username_victim(), "anyone", "Grim Bloody Fable"));
    assert!(!check(&[], &username_victim(), "anyone", "Grim"));
}

#[test]
fn check_needs_both_lists_to_agree() {
    let killers = vec!["a".to_string(), "b".to_string()];
    let victims = vec!["x".to_string(), "y".to_string()];
    assert!(check(&killers, &victims, "b", "x"));
    assert!(!check(&killers, &victims, "c", "x"));
    assert!(!check(&killers, &victims, "a", "z"));
}
