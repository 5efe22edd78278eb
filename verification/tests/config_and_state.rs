use sora::config::{AppConfig, AutoreadMode, BotMode, PairingMethod, WarmupMode, parse_superusers};
use sora::state::{AppState, ConfigKey, ConfigValue, MAX_TRACKED_ENTRIES};

fn sample_config() -> AppConfig {
    AppConfig {
        prefixes: vec!["!".to_string(), ".".to_string()],
        session_path: "data/session.db".to_string(),
        custom_code: "SORABOT1".to_string(),
        mode: BotMode::Public,
        warmup: WarmupMode::Off,
        autoread: AutoreadMode::Off,
        pairing: PairingMethod::Code,
        show_online: false,
        debug_dump: false,
        phone_number: String::new(),
        superuser: vec![],
    }
}

#[test]
fn warmup_mode_from_text() {
    assert_eq!(WarmupMode::from("normal"), WarmupMode::Normal);
    assert_eq!(WarmupMode::from("NoRmAl"), WarmupMode::Normal);
    assert_eq!(WarmupMode::from("off"), WarmupMode::Off);
    assert_eq!(WarmupMode::from(" normal"), WarmupMode::Off);
    assert_eq!(WarmupMode::from(""), WarmupMode::Off);
}

#[test]
fn autoread_mode_from_text() {
    assert_eq!(AutoreadMode::from("ALL"), AutoreadMode::All);
    assert_eq!(AutoreadMode::from("group"), AutoreadMode::Group);
    assert_eq!(AutoreadMode::from("Groups"), AutoreadMode::Group);
    assert_eq!(AutoreadMode::from("dm"), AutoreadMode::Dm);
    assert_eq!(AutoreadMode::from("chat"), AutoreadMode::Dm);
    assert_eq!(AutoreadMode::from("chats"), AutoreadMode::Dm);
    assert_eq!(AutoreadMode::from("PRIVATE"), AutoreadMode::Dm);
    assert_eq!(AutoreadMode::from("everything"), AutoreadMode::Off);
    assert_eq!(AutoreadMode::default(), AutoreadMode::Off);
}

#[test]
fn superusers_are_split_and_trimmed() {
    assert_eq!(parse_superusers(Some(" 6281 , 6282,")), vec!["6281", "6282", ""]);
    assert_eq!(parse_superusers(Some("6281")), vec!["6281"]);
    assert_eq!(parse_superusers(Some("")), vec![""]);
    assert!(parse_superusers(None).is_empty());
}

#[test]
fn environment_completes_config() {
    let c = sample_config().with_environment("628123".to_string(), Some("1,2"));
    assert_eq!(c.phone_number, "628123");
    assert_eq!(c.superuser, vec!["1", "2"]);
    assert_eq!(c.prefixes, vec!["!", "."]);
    assert_eq!(c.custom_code, "SORABOT1");
}

#[test]
fn new_state_takes_config_settings() {
    let mut c = sample_config();
    c.mode = BotMode::SelfMode;
    c.warmup = WarmupMode::Normal;
    c.autoread = AutoreadMode::Group;
    c.show_online = true;
    let s = AppState::new(c);
    assert_eq!(s.get_mode(), BotMode::SelfMode);
    assert_eq!(s.get_warmup(), WarmupMode::Normal);
    assert_eq!(s.get_autoread(), AutoreadMode::Group);
    assert!(s.get_show_online());
    assert_eq!(s.get_prefixes(), vec!["!", "."]);
    assert!(s.cache_is_empty());
}

#[test]
fn expiration_reads_back_what_was_written() {
    let mut s = AppState::new(sample_config());
    assert_eq!(s.get_expiration("123@g.us"), 0);
    s.set_expiration("123@g.us".to_string(), 86400);
    s.set_expiration("456@g.us".to_string(), 604800);
    assert_eq!(s.get_expiration("123@g.us"), 86400);
    assert_eq!(s.get_expiration("456@g.us"), 604800);
    s.set_expiration("123@g.us".to_string(), 0);
    assert_eq!(s.get_expiration("123@g.us"), 0);
    assert_eq!(s.get_expiration("789@s.whatsapp.net"), 0);
}

#[test]
fn touching_makes_a_chat_newest() {
    let mut s = AppState::new(sample_config());
    let n = MAX_TRACKED_ENTRIES + 2;
    for i in 0..n {
        s.set_expiration(format!("chat{i}"), 5);
    }
    // A read of an unknown chat still moves the clock but records nothing.
    assert_eq!(s.get_expiration("unknown"), 0);
    assert_eq!(s.get_expiration("chat1"), 5);
    s.evict_stale_expirations();
    assert_eq!(s.get_expiration("chat0"), 0);
    assert_eq!(s.get_expiration("chat2"), 0);
    assert_eq!(s.get_expiration("chat1"), 5);
    assert_eq!(s.get_expiration("chat3"), 5);
    assert_eq!(s.get_expiration("unknown"), 0);
}

#[test]
fn sweep_keeps_small_maps() {
    let mut s = AppState::new(sample_config());
    for i in 1..=10 {
        s.set_expiration(format!("chat{i}"), i);
    }
    s.evict_stale_expirations();
    for i in 1..=10u32 {
        assert_eq!(s.get_expiration(&format!("chat{i}")), i);
    }
}

#[test]
fn sweep_drops_least_recently_touched() {
    let mut s = AppState::new(sample_config());
    let n = MAX_TRACKED_ENTRIES + 5;
    for i in 0..n {
        s.set_expiration(format!("chat{i}"), 7);
    }
    // Reading the oldest chat makes it the most recently touched.
    assert_eq!(s.get_expiration("chat0"), 7);
    s.evict_stale_expirations();
    let kept = (0..n).filter(|i| s.get_expiration(&format!("chat{i}")) == 7).count();
    assert_eq!(kept, MAX_TRACKED_ENTRIES);
    assert_eq!(s.get_expiration("chat0"), 7);
    for i in 1..6 {
        assert_eq!(s.get_expiration(&format!("chat{i}")), 0);
    }
    assert_eq!(s.get_expiration("chat6"), 7);
    assert_eq!(s.get_expiration(&format!("chat{}", n - 1)), 7);
}

#[test]
fn last_written_timer_survives_sweep() {
    let mut s = AppState::new(sample_config());
    for i in 0..(MAX_TRACKED_ENTRIES + 1) {
        s.set_expiration(format!("chat{i}"), 1);
    }
    s.set_expiration("newest".to_string(), 99);
    s.evict_stale_expirations();
    assert_eq!(s.get_expiration("newest"), 99);
}

#[test]
fn set_config_changes_each_setting() {
    let mut s = AppState::new(sample_config());
    assert_eq!(s.set_config(ConfigKey::Mode, ConfigValue::Text("SELF".to_string())), Ok(()));
    assert_eq!(s.get_mode(), BotMode::SelfMode);
    assert_eq!(s.set_config(ConfigKey::Mode, ConfigValue::Text("public".to_string())), Ok(()));
    assert_eq!(s.get_mode(), BotMode::Public);
    assert_eq!(
        s.set_config(ConfigKey::Prefixes, ConfigValue::List(vec!["#".to_string()])),
        Ok(())
    );
    assert_eq!(s.get_prefixes(), vec!["#"]);
    assert_eq!(s.set_config(ConfigKey::Warmup, ConfigValue::Text("Normal".to_string())), Ok(()));
    assert_eq!(s.get_warmup(), WarmupMode::Normal);
    assert_eq!(s.set_config(ConfigKey::Autoread, ConfigValue::Text("dm".to_string())), Ok(()));
    assert_eq!(s.get_autoread(), AutoreadMode::Dm);
    assert_eq!(s.set_config(ConfigKey::ShowOnline, ConfigValue::Bool(true)), Ok(()));
    assert!(s.get_show_online());
}

#[test]
fn set_config_refuses_wrong_type() {
    let mut s = AppState::new(sample_config());
    assert_eq!(
        s.set_config(ConfigKey::Mode, ConfigValue::Bool(true)),
        Err("invalid datatype for this field")
    );
    assert_eq!(
        s.set_config(ConfigKey::ShowOnline, ConfigValue::Text("on".to_string())),
        Err("invalid datatype for this field")
    );
    assert_eq!(
        s.set_config(ConfigKey::Prefixes, ConfigValue::Text("!".to_string())),
        Err("invalid datatype for this field")
    );
    assert_eq!(s.get_mode(), BotMode::Public);
    assert!(!s.get_show_online());
    assert_eq!(s.get_prefixes(), vec!["!", "."]);
}

#[test]
fn cache_remembers_and_forgets() {
    let mut s = AppState::new(sample_config());
    assert!(!s.has_cache("k"));
    s.set_cache("k", "v");
    assert!(s.has_cache("k"));
    assert!(!s.cache_is_empty());
    s.del_cache("k");
    assert!(!s.has_cache("k"));
    assert!(s.cache_is_empty());
}

#[test]
fn snapshot_carries_current_settings() {
    let mut c = sample_config();
    c.phone_number = "628".to_string();
    c.superuser = vec!["1".to_string()];
    let mut s = AppState::new(c);
    s.set_config(ConfigKey::Autoread, ConfigValue::Text("all".to_string())).unwrap();
    let snap = s.snapshot_config();
    assert_eq!(snap.autoread, AutoreadMode::All);
    assert_eq!(snap.phone_number, "628");
    assert_eq!(snap.superuser, vec!["1"]);
    assert_eq!(snap.prefixes, vec!["!", "."]);
    assert_eq!(snap.pairing, PairingMethod::Code);
}

#[test]
fn writing_one_timer_leaves_others() {
    let mut s = AppState::new(sample_config());
    s.set_expiration("a".to_string(), 10);
    s.set_expiration("b".to_string(), 20);
    s.set_expiration("a".to_string(), 30);
    assert_eq!(s.get_expiration("b"), 20);
    assert_eq!(s.get_expiration("a"), 30);
}

#[test]
fn reading_keeps_timers() {
    let mut s = AppState::new(sample_config());
    s.set_expiration("a".to_string(), 10);
    s.set_expiration("b".to_string(), 20);
    for _ in 0..3 {
        assert_eq!(s.get_expiration("a"), 10);
        assert_eq!(s.get_expiration("zzz"), 0);
    }
    assert_eq!(s.get_expiration("b"), 20);
}

#[test]
fn sweep_keeps_values_of_survivors() {
    let mut s = AppState::new(sample_config());
    let n = MAX_TRACKED_ENTRIES + 3;
    for i in 0..n {
        s.set_expiration(format!("chat{i}"), i as u32 + 1);
    }
    s.evict_stale_expirations();
    for i in 3..n {
        assert_eq!(s.get_expiration(&format!("chat{i}")), i as u32 + 1);
    }
    for i in 0..3 {
        assert_eq!(s.get_expiration(&format!("chat{i}")), 0);
    }
}
