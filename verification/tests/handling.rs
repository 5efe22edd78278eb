use sora::config::{AutoreadMode, BotMode, PairingMethod, WarmupMode};
use sora::handler::{
    collect_found, gate_admin, gate_command, is_group_admin, is_privileged, parse_message,
    predates_start, push_name_to_set, should_autoread, shows_pairing, Access, Denial, Gate,
};

fn prefixes() -> Vec<String> {
    vec!["!".to_string(), ".".to_string()]
}

const OPEN: Access = Access { owner_only: false, group_only: false, dm_only: false, admin_only: false };

#[test]
fn command_is_split_into_name_args_and_body() {
    let inv = parse_message("!Demote  @a  @b ", &prefixes(), WarmupMode::Off, false, true).unwrap();
    assert!(inv.is_command);
    assert!(!inv.needs_warmup);
    assert!(!inv.needs_interceptors);
    assert_eq!(inv.cmd_name, "demote");
    assert_eq!(inv.args, vec!["@a", "@b"]);
    // The text after the prefix begins with "Demote", not the lower-case name.
    assert_eq!(inv.body, "");
}

#[test]
fn body_is_text_after_lowercase_name() {
    let inv = parse_message(".hidetag  hello\tall  ", &prefixes(), WarmupMode::Off, false, true).unwrap();
    assert_eq!(inv.cmd_name, "hidetag");
    assert_eq!(inv.args, vec!["hello", "all"]);
    assert_eq!(inv.body, "hello\tall");
}

#[test]
fn space_after_prefix_empties_body() {
    let inv = parse_message("! set mode self", &prefixes(), WarmupMode::Off, false, true).unwrap();
    assert_eq!(inv.cmd_name, "set");
    assert_eq!(inv.args, vec!["mode", "self"]);
    assert_eq!(inv.body, "");
}

#[test]
fn first_listed_prefix_wins() {
    let ps = vec!["!".to_string(), "!!".to_string()];
    let inv = parse_message("!!ping", &ps, WarmupMode::Off, false, true).unwrap();
    assert_eq!(inv.cmd_name, "!ping");
}

#[test]
fn plain_message_is_left_alone_without_warmup() {
    assert!(parse_message("hello there", &prefixes(), WarmupMode::Off, false, true).is_none());
    assert!(parse_message("hello there", &prefixes(), WarmupMode::Off, true, true).is_none());
}

#[test]
fn plain_message_is_warmed_up() {
    let inv = parse_message("hello there", &prefixes(), WarmupMode::Normal, false, true).unwrap();
    assert!(!inv.is_command);
    assert!(inv.needs_warmup);
    assert_eq!(inv.cmd_name, "hello");
    assert_eq!(inv.args, vec!["there"]);
}

#[test]
fn plain_message_may_be_intercepted() {
    let inv = parse_message("hi", &prefixes(), WarmupMode::Off, true, false).unwrap();
    assert!(inv.needs_interceptors);
    assert!(!inv.needs_warmup);
}

#[test]
fn bare_prefix_gives_empty_name() {
    let inv = parse_message("!", &prefixes(), WarmupMode::Off, false, true).unwrap();
    assert!(inv.is_command);
    assert_eq!(inv.cmd_name, "");
    assert!(inv.args.is_empty());
    assert_eq!(inv.body, "");
}

#[test]
fn autoread_follows_mode() {
    assert!(!should_autoread(AutoreadMode::All, true, false));
    assert!(should_autoread(AutoreadMode::All, false, false));
    assert!(!should_autoread(AutoreadMode::Off, false, true));
    assert!(should_autoread(AutoreadMode::Group, false, true));
    assert!(!should_autoread(AutoreadMode::Group, false, false));
    assert!(should_autoread(AutoreadMode::Dm, false, false));
    assert!(!should_autoread(AutoreadMode::Dm, false, true));
}

#[test]
fn old_messages_are_ignored() {
    assert!(predates_start(Some(10), 5));
    assert!(!predates_start(Some(5), 5));
    assert!(!predates_start(None, 0));
}

#[test]
fn pairing_shown_by_method() {
    assert!(shows_pairing(PairingMethod::Qr, true));
    assert!(!shows_pairing(PairingMethod::Qr, false));
    assert!(shows_pairing(PairingMethod::Code, false));
    assert!(!shows_pairing(PairingMethod::Code, true));
}

#[test]
fn push_name_given_when_missing() {
    assert_eq!(push_name_to_set(""), Some("sora-on-rust".to_string()));
    assert_eq!(push_name_to_set("Sora"), None);
}

#[test]
fn found_lids_kept_in_order() {
    let found = vec![Some("1@lid".to_string()), None, Some("3@lid".to_string())];
    assert_eq!(collect_found(found), vec!["1@lid", "3@lid"]);
}

#[test]
fn privilege_by_address_kind() {
    let lids = vec!["111".to_string()];
    let sus = vec!["628".to_string()];
    assert!(is_privileged("111", false, true, &lids, &sus));
    assert!(!is_privileged("628", false, true, &lids, &sus));
    assert!(is_privileged("628", false, false, &lids, &sus));
    assert!(!is_privileged("111", false, false, &lids, &sus));
    assert!(is_privileged("999", true, false, &lids, &sus));
}

#[test]
fn group_admin_lookup() {
    assert!(is_group_admin(&vec![(false, false), (true, true), (true, false)]));
    assert!(!is_group_admin(&vec![(false, true), (true, false), (true, true)]));
    assert!(!is_group_admin(&vec![(false, true), (false, true)]));
    assert!(!is_group_admin(&vec![]));
}

#[test]
fn gate_self_mode_ignores_others() {
    assert_eq!(gate_command(BotMode::SelfMode, false, true, OPEN), Gate::Ignore);
    assert_eq!(gate_command(BotMode::SelfMode, true, true, OPEN), Gate::Run);
    assert_eq!(gate_command(BotMode::Public, false, true, OPEN), Gate::Run);
}

#[test]
fn gate_applies_access_rules_in_order() {
    let owner = Access { owner_only: true, ..OPEN };
    assert_eq!(gate_command(BotMode::Public, false, true, owner), Gate::Deny(Denial::OwnerOnly));
    let group = Access { group_only: true, ..OPEN };
    assert_eq!(gate_command(BotMode::Public, false, false, group), Gate::Deny(Denial::GroupOnly));
    let dm = Access { dm_only: true, ..OPEN };
    assert_eq!(gate_command(BotMode::Public, false, true, dm), Gate::Deny(Denial::DmOnly));
    let admin = Access { admin_only: true, ..OPEN };
    assert_eq!(gate_command(BotMode::Public, false, false, admin), Gate::Deny(Denial::GroupOnly));
    assert_eq!(gate_command(BotMode::Public, false, true, admin), Gate::CheckAdmin);
    assert_eq!(gate_command(BotMode::Public, true, true, admin), Gate::Run);
    assert_eq!(gate_admin(true), Gate::Run);
    assert_eq!(gate_admin(false), Gate::Deny(Denial::AdminOnly));
}

#[test]
fn denial_replies() {
    assert_eq!(Denial::OwnerOnly.reply(), "Owner only command.");
    assert_eq!(Denial::GroupOnly.reply(), "This command only works in groups.");
    assert_eq!(Denial::DmOnly.reply(), "This command only works in DM.");
    assert_eq!(Denial::AdminOnly.reply(), "Admin only command.");
}

#[test]
fn privileged_users_always_answered() {
    for mode in [BotMode::SelfMode, BotMode::Public] {
        for is_group in [true, false] {
            let owner = Access { owner_only: true, ..OPEN };
            let g = gate_command(mode, true, is_group, owner);
            assert_ne!(g, Gate::Ignore);
            assert_ne!(g, Gate::Deny(Denial::OwnerOnly));
        }
    }
}
