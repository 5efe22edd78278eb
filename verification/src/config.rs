//! The bot's configuration and the modes it can run in.
use vstd::prelude::*;
use crate::text::{lowercase, split, text_is, to_lowercase, trim, split_str, views, Delim, trim_each};

verus! {

/// Who the bot answers: only privileged users, or everyone.
#[derive(Clone, Copy, Debug, PartialEq, Eq, Structural)]
pub enum BotMode {
    SelfMode,
    Public,
}

/// Whether the bot warms up ordinary (non-command) messages.
#[derive(Clone, Copy, Debug, PartialEq, Eq, Structural)]
pub enum WarmupMode {
    Normal,
    Off,
}

/// How the bot pairs with an account: by QR code or by pairing code.
#[derive(Clone, Copy, Debug, PartialEq, Eq, Structural)]
pub enum PairingMethod {
    Qr,
    Code,
}

/// Which incoming messages the bot marks as read.
#[derive(Clone, Copy, Debug, PartialEq, Eq, Structural)]
pub enum AutoreadMode {
    Off,
    All,
    Group,
    Dm,
}

/// The warm-up mode a setting text names: `normal` in any case, otherwise off.
pub open spec fn warmup_from_text(t: Seq<char>) -> WarmupMode {
    if lowercase(t) == "normal"@ {
        WarmupMode::Normal
    } else {
        WarmupMode::Off
    }
}

/// The autoread mode a setting text names, read in lower case: `all`; `group` or `groups`;
/// `dm`, `chat`, `chats` or `private`; anything else is off.
pub open spec fn autoread_from_text(t: Seq<char>) -> AutoreadMode {
    let l = lowercase(t);
    if l == "all"@ {
        AutoreadMode::All
    } else if l == "group"@ || l == "groups"@ {
        AutoreadMode::Group
    } else if l == "dm"@ || l == "chat"@ || l == "chats"@ || l == "private"@ {
        AutoreadMode::Dm
    } else {
        AutoreadMode::Off
    }
}

impl<'a> From<&'a str> for WarmupMode {
    fn from(s: &'a str) -> (r: WarmupMode) {
        let l = to_lowercase(s);
        if text_is(&l, "normal") {
            WarmupMode::Normal
        } else {
            WarmupMode::Off
        }
    }
}

impl<'a> vstd::std_specs::convert::FromSpecImpl<&'a str> for WarmupMode {
    open spec fn obeys_from_spec() -> bool {
        true
    }

    open spec fn from_spec(s: &'a str) -> WarmupMode {
        warmup_from_text(s@)
    }
}

impl<'a> From<&'a str> for AutoreadMode {
    fn from(s: &'a str) -> (r: AutoreadMode) {
        let l = to_lowercase(s);
        if text_is(&l, "all") {
            AutoreadMode::All
        } else if text_is(&l, "group") || text_is(&l, "groups") {
            AutoreadMode::Group
        } else if text_is(&l, "dm") || text_is(&l, "chat") || text_is(&l, "chats") || text_is(
            &l,
            "private",
        ) {
            AutoreadMode::Dm
        } else {
            AutoreadMode::Off
        }
    }
}

impl<'a> vstd::std_specs::convert::FromSpecImpl<&'a str> for AutoreadMode {
    open spec fn obeys_from_spec() -> bool {
        true
    }

    open spec fn from_spec(s: &'a str) -> AutoreadMode {
        autoread_from_text(s@)
    }
}

impl Default for AutoreadMode {
    fn default() -> (r: AutoreadMode)
        ensures
            r == AutoreadMode::Off,
    {
        AutoreadMode::Off
    }
}


/// Everything the bot is configured with: the settings file's values, the account's
/// phone number and the superusers named in the environment.
pub struct AppConfig {
    /// The texts a command may begin with.
    pub prefixes: Vec<String>,
    pub session_path: String,
    pub custom_code: String,
    pub mode: BotMode,
    pub warmup: WarmupMode,
    pub autoread: AutoreadMode,
    pub pairing: PairingMethod,
    /// Whether the account shows itself as online.
    pub show_online: bool,
    /// Whether each incoming message is written to the log.
    pub debug_dump: bool,
    pub phone_number: String,
    /// Phone numbers of the users who may run every command.
    pub superuser: Vec<String>,
}

/// The superusers named by the `SUPERUSER` setting: its comma-separated pieces, each
/// trimmed; none where the setting is absent.
pub open spec fn superusers_from(raw: Option<Seq<char>>) -> Seq<Seq<char>> {
    match raw {
        Some(t) => split(t, Delim::Char(',')).map_values(|p: Seq<char>| trim(p)),
        None => Seq::empty(),
    }
}

/// Reads the `SUPERUSER` setting: splits it at commas and trims each piece.
pub fn parse_superusers(raw: Option<&str>) -> (r: Vec<String>)
    ensures
        views(r@) == superusers_from(
            match raw {
                Some(t) => Some(t@),
                None => None,
            },
        ),
{
    match raw {
        None => Vec::new(),
        Some(t) => {
            let pieces = split_str(t, Delim::Char(','));
            trim_each(&pieces)
        },
    }
}

impl AppConfig {
    /// Completes a configuration read from the settings file with the account's phone
    /// number and the `SUPERUSER` setting.
    pub fn with_environment(self, phone_number: String, superuser_var: Option<&str>) -> (r:
        AppConfig)
        ensures
            r.prefixes == self.prefixes,
            r.session_path == self.session_path,
            r.custom_code == self.custom_code,
            r.mode == self.mode,
            r.warmup == self.warmup,
            r.autoread == self.autoread,
            r.pairing == self.pairing,
            r.show_online == self.show_online,
            r.debug_dump == self.debug_dump,
            r.phone_number == phone_number,
            views(r.superuser@) == superusers_from(
                match superuser_var {
                    Some(t) => Some(t@),
                    None => None,
                },
            ),
    {
        let superuser = parse_superusers(superuser_var);
        AppConfig { superuser, phone_number, ..self }
    }
}

} // verus!
