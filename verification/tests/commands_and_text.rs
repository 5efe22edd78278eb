use sora::commands::{
    blocklist_reply, broadcast_text, demote_targets, expiration_field, parse_set_args, plan_send,
    superuser_line, view_once_target, MediaKind,
};
use sora::config::{AppConfig, AutoreadMode, BotMode, PairingMethod, WarmupMode};
use sora::logger::truncate;
use sora::state::{AppState, ConfigKey, ConfigValue};
use sora::text::{decimal_string, join_strings, split_str, trim_str, words_of, Delim};

fn strings(v: &[&str]) -> Vec<String> {
    v.iter().map(|s| s.to_string()).collect()
}

fn state() -> AppState {
    AppState::new(AppConfig {
        prefixes: strings(&["!"]),
        session_path: "s.db".to_string(),
        custom_code: "CODE1234".to_string(),
        mode: BotMode::Public,
        warmup: WarmupMode::Off,
        autoread: AutoreadMode::Off,
        pairing: PairingMethod::Qr,
        show_online: false,
        debug_dump: false,
        phone_number: "628".to_string(),
        superuser: vec![],
    })
}

#[test]
fn set_needs_two_arguments() {
    assert!(parse_set_args(&strings(&["mode"])).is_none());
    assert!(parse_set_args(&strings(&[])).is_none());
    assert!(parse_set_args(&strings(&["colour", "red"])).is_none());
}

#[test]
fn set_reads_each_setting() {
    match parse_set_args(&strings(&["MODE", "self"])) {
        Some((ConfigKey::Mode, ConfigValue::Text(t))) => assert_eq!(t, "self"),
        _ => panic!("mode"),
    }
    match parse_set_args(&strings(&["prefix", "!,", " . ", ",#"])) {
        Some((ConfigKey::Prefixes, ConfigValue::List(l))) => assert_eq!(l, vec!["!", ".", "#"]),
        _ => panic!("prefixes"),
    }
    match parse_set_args(&strings(&["warmup", "normal", "please"])) {
        Some((ConfigKey::Warmup, ConfigValue::Text(t))) => assert_eq!(t, "normal please"),
        _ => panic!("warmup"),
    }
    match parse_set_args(&strings(&["autoread", "groups"])) {
        Some((ConfigKey::Autoread, ConfigValue::Text(t))) => assert_eq!(t, "groups"),
        _ => panic!("autoread"),
    }
    match parse_set_args(&strings(&["show_online", "Enabled"])) {
        Some((ConfigKey::ShowOnline, ConfigValue::Bool(b))) => assert!(b),
        _ => panic!("show_online"),
    }
    match parse_set_args(&strings(&["show_online", "nope"])) {
        Some((ConfigKey::ShowOnline, ConfigValue::Bool(b))) => assert!(!b),
        _ => panic!("show_online off"),
    }
}

#[test]
fn set_command_changes_state() {
    let mut s = state();
    assert_eq!(s.apply_set_command(&strings(&["mode", "SELF"])), Some(ConfigKey::Mode));
    assert_eq!(s.get_mode(), BotMode::SelfMode);
    assert_eq!(s.apply_set_command(&strings(&["prefixes", "#, $"])), Some(ConfigKey::Prefixes));
    assert_eq!(s.get_prefixes(), vec!["#", "$"]);
    assert_eq!(s.apply_set_command(&strings(&["autoread", "dm"])), Some(ConfigKey::Autoread));
    assert_eq!(s.get_autoread(), AutoreadMode::Dm);
    assert_eq!(s.apply_set_command(&strings(&["warmup", "NORMAL"])), Some(ConfigKey::Warmup));
    assert_eq!(s.get_warmup(), WarmupMode::Normal);
    assert_eq!(s.apply_set_command(&strings(&["show_online", "yes"])), Some(ConfigKey::ShowOnline));
    assert!(s.get_show_online());
    assert_eq!(s.apply_set_command(&strings(&["volume", "11"])), None);
    assert_eq!(s.snapshot_config().prefixes, vec!["#", "$"]);
}

#[test]
fn hidetag_text_defaults_to_loudspeaker() {
    assert_eq!(broadcast_text(""), "\u{1F4E2}");
    assert_eq!(broadcast_text("meeting at 5"), "meeting at 5");
}

#[test]
fn expiration_only_when_set() {
    assert_eq!(expiration_field(0), None);
    assert_eq!(expiration_field(86400), Some(86400));
}

#[test]
fn send_plan_frames_replies() {
    let p = plan_send(false, 0);
    assert!(!p.extended && !p.quote && p.expiration.is_none());
    let p = plan_send(true, 0);
    assert!(p.extended && p.quote && p.expiration.is_none());
    let p = plan_send(false, 604800);
    assert!(p.extended && !p.quote && p.expiration == Some(604800));
}

#[test]
fn rvo_prefers_image_part() {
    assert_eq!(view_once_target(Some(true), Some(true)), Some(MediaKind::Image));
    assert_eq!(view_once_target(Some(false), Some(true)), None);
    assert_eq!(view_once_target(None, Some(true)), Some(MediaKind::Video));
    assert_eq!(view_once_target(None, Some(false)), None);
    assert_eq!(view_once_target(None, None), None);
}

#[test]
fn listblock_replies() {
    assert_eq!(blocklist_reply(&vec![]), "*Tidak ada kontak yang diblokir*");
    assert_eq!(
        blocklist_reply(&strings(&["1@s.whatsapp.net", "2@s.whatsapp.net"])),
        "*Daftar Blokir (2)*\n\n\u{2022} 1@s.whatsapp.net\n\u{2022} 2@s.whatsapp.net"
    );
}

#[test]
fn demote_targets_parse_candidates() {
    let mentions = strings(&["123@s.whatsapp.net", "456@lid"]);
    assert_eq!(
        demote_targets(false, Some("9@s.whatsapp.net".to_string()), &mentions),
        mentions
    );
    assert_eq!(
        demote_targets(true, Some("9@s.whatsapp.net".to_string()), &mentions),
        vec!["9@s.whatsapp.net"]
    );
    assert!(demote_targets(true, None, &mentions).is_empty());
    let mixed = strings(&["nonsense", "123@s.whatsapp.net"]);
    assert_eq!(demote_targets(false, None, &mixed), vec!["123@s.whatsapp.net"]);
}

#[test]
fn superusers_shown() {
    assert_eq!(superuser_line(&vec![]), "None");
    assert_eq!(superuser_line(&strings(&["1", "2"])), "1, 2");
}

#[test]
fn truncate_marks_and_cuts() {
    assert_eq!(truncate("a\nb", 10), "a \u{21B5} b");
    assert_eq!(truncate("abcdef", 3), "abc \u{2026}");
    assert_eq!(truncate("abc", 3), "abc");
    assert_eq!(truncate("\u{e9}t\u{e9}", 2), "\u{e9}t \u{2026}");
}

#[test]
fn text_helpers_match_std() {
    let samples = ["", " a ", "a,b,,c", "\t x\u{3000}y  ", ",", "one"];
    for s in samples {
        assert_eq!(trim_str(s), s.trim());
        assert_eq!(words_of(s), s.split_whitespace().collect::<Vec<_>>());
        assert_eq!(split_str(s, Delim::Char(',')), s.split(',').collect::<Vec<_>>());
        assert_eq!(split_str(s, Delim::Whitespace), s.split(char::is_whitespace).collect::<Vec<_>>());
    }
    assert_eq!(join_strings(&strings(&["a", "b", "c"]), ", "), "a, b, c");
    assert_eq!(join_strings(&strings(&[]), ", "), "");
    for s in ["x  y z", " ", "\u{a0}a\u{85}b\u{2003}"] {
        for w in words_of(s) {
            assert!(!w.is_empty() && !w.chars().any(char::is_whitespace));
        }
        let t = trim_str(s);
        assert!(!t.starts_with(char::is_whitespace) && !t.ends_with(char::is_whitespace));
    }
    for n in [0usize, 7, 10, 99, 100, 12345] {
        assert_eq!(decimal_string(n), n.to_string());
    }
}
