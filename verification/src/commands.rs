//! What the bot's commands decide, apart from sending: how `set` reads its arguments,
//! what `hidetag` sends, which message `rvo` reopens, what `listblock` answers, whom
//! `demote` targets and how a reply is framed.
use vstd::prelude::*;
use crate::config::{autoread_from_text, warmup_from_text};
use crate::state::{AppState, ConfigKey, ConfigValue, mode_from_text};
use crate::text::{
    drop_empty, drop_empty_strings, join, join_strings, lowercase, split, split_str,
    text_is, to_lowercase, trim, views, Delim, decimal, decimal_string, chars_of,
    trim_chars, string_of, clone_strings, opt_view, tail_strings, trim_each,
};

verus! {

/// The setting a `set` command names by its first argument, in any case; none where it
/// has fewer than two arguments or names no setting.
pub open spec fn set_key(args: Seq<Seq<char>>) -> Option<ConfigKey> {
    if args.len() < 2 {
        None
    } else {
        let key = lowercase(args[0]);
        if key == "mode"@ {
            Some(ConfigKey::Mode)
        } else if key == "prefixes"@ || key == "prefix"@ {
            Some(ConfigKey::Prefixes)
        } else if key == "warmup"@ {
            Some(ConfigKey::Warmup)
        } else if key == "autoread"@ {
            Some(ConfigKey::Autoread)
        } else if key == "show_online"@ {
            Some(ConfigKey::ShowOnline)
        } else {
            None
        }
    }
}

/// The value a `set` command gives: its arguments after the first, joined by spaces.
pub open spec fn set_text(args: Seq<Seq<char>>) -> Seq<char> {
    join(args.skip(1), " "@)
}

/// The prefixes a value lists: its comma-separated pieces, trimmed, without empty ones.
pub open spec fn prefix_list(val: Seq<char>) -> Seq<Seq<char>> {
    drop_empty(split(val, Delim::Char(',')).map_values(|p: Seq<char>| trim(p)))
}

/// Whether a value switches something on: `on`, `true`, `yes`, `enable` or `enabled`, in
/// any case.
pub open spec fn switch_on(val: Seq<char>) -> bool {
    let l = lowercase(val);
    l == "on"@ || l == "true"@ || l == "yes"@ || l == "enable"@ || l == "enabled"@
}

/// Reads the arguments of a `set` command as a setting and its new value.
pub fn parse_set_args(args: &Vec<String>) -> (req: Option<(ConfigKey, ConfigValue)>)
    ensures
        match req {
            None => set_key(views(args@)) is None,
            Some((key, value)) => {
                let val = set_text(views(args@));
                &&& set_key(views(args@)) == Some(key)
                &&& match key {
                    ConfigKey::Prefixes => value matches ConfigValue::List(list) && views(list@)
                        == prefix_list(val),
                    ConfigKey::ShowOnline => value matches ConfigValue::Bool(b) && b == switch_on(
                        val,
                    ),
                    _ => value matches ConfigValue::Text(t) && t@ == val,
                }
            },
        },
{
    if args.len() < 2 {
        return None;
    }
    let key = to_lowercase(args[0].as_str());
    let rest = tail_strings(args);
    assert(views(args@).drop_first() =~= views(args@).skip(1));
    let val = join_strings(&rest, " ");
    if text_is(&key, "mode") {
        Some((ConfigKey::Mode, ConfigValue::Text(val)))
    } else if text_is(&key, "prefixes") || text_is(&key, "prefix") {
        let pieces = split_str(val.as_str(), Delim::Char(','));
        let trimmed = trim_each(&pieces);
        let list = drop_empty_strings(trimmed);
        Some((ConfigKey::Prefixes, ConfigValue::List(list)))
    } else if text_is(&key, "warmup") {
        Some((ConfigKey::Warmup, ConfigValue::Text(val)))
    } else if text_is(&key, "autoread") {
        Some((ConfigKey::Autoread, ConfigValue::Text(val)))
    } else if text_is(&key, "show_online") {
        let l = to_lowercase(val.as_str());
        let enabled = text_is(&l, "on") || text_is(&l, "true") || text_is(&l, "yes") || text_is(
            &l,
            "enable",
        ) || text_is(&l, "enabled");
        Some((ConfigKey::ShowOnline, ConfigValue::Bool(enabled)))
    } else {
        None
    }
}

impl AppState {
    /// Carries out a `set` command: changes the setting its arguments name and returns
    /// which; changes nothing where they name none.
    pub fn apply_set_command(&mut self, args: &Vec<String>) -> (applied: Option<ConfigKey>)
        requires
            old(self).wf(),
        ensures
            final(self).wf(),
            applied == set_key(views(args@)),
            final(self).expirations_view() == old(self).expirations_view(),
            final(self).clock() == old(self).clock(),
            final(self).cache_view() == old(self).cache_view(),
            final(self).start_config() == old(self).start_config(),
            final(self).mode_view() == if applied == Some(ConfigKey::Mode) {
                mode_from_text(set_text(views(args@)))
            } else {
                old(self).mode_view()
            },
            views(final(self).prefixes_view()) == if applied == Some(
                ConfigKey::Prefixes,
            ) {
                prefix_list(set_text(views(args@)))
            } else {
                views(old(self).prefixes_view())
            },
            final(self).warmup_view() == if applied == Some(ConfigKey::Warmup) {
                warmup_from_text(set_text(views(args@)))
            } else {
                old(self).warmup_view()
            },
            final(self).autoread_view() == if applied == Some(ConfigKey::Autoread) {
                autoread_from_text(set_text(views(args@)))
            } else {
                old(self).autoread_view()
            },
            final(self).show_online_view() == if applied == Some(ConfigKey::ShowOnline) {
                switch_on(set_text(views(args@)))
            } else {
                old(self).show_online_view()
            },
    {
        match parse_set_args(args) {
            None => None,
            Some((key, value)) => {
                let _ = self.set_config(key, value);
                Some(key)
            },
        }
    }
}

/// The text `hidetag` sends: the body, or a loudspeaker where the body is empty.
pub fn broadcast_text(body: &str) -> (text: String)
    ensures
        text@ == if body@.len() == 0 {
            "\u{1F4E2}"@
        } else {
            body@
        },
{
    if body.is_empty() {
        "\u{1F4E2}".to_owned()
    } else {
        body.to_owned()
    }
}

/// The disappearing timer a sent message carries: the chat's, where it has one.
pub fn expiration_field(expiration: u32) -> (field: Option<u32>)
    ensures
        field == if expiration > 0 {
            Some(expiration)
        } else {
            None
        },
{
    if expiration > 0 {
        Some(expiration)
    } else {
        None
    }
}

/// How a text message is framed.
#[derive(Clone, Copy, Debug, PartialEq, Eq, Structural)]
pub struct SendPlan {
    /// Sent as an extended text message (with context) rather than a plain one.
    pub extended: bool,
    /// Quotes the message it answers and mentions its sender.
    pub quote: bool,
    /// The disappearing timer it carries.
    pub expiration: Option<u32>,
}

/// Frames a text message: extended where it replies or the chat has a timer.
pub fn plan_send(is_reply: bool, expiration: u32) -> (plan: SendPlan)
    ensures
        plan.extended == (is_reply || expiration > 0),
        plan.quote == is_reply,
        plan.expiration == if expiration > 0 {
            Some(expiration)
        } else {
            None
        },
{
    SendPlan {
        extended: is_reply || expiration > 0,
        quote: is_reply,
        expiration: expiration_field(expiration),
    }
}

/// A kind of media message.
#[derive(Clone, Copy, Debug, PartialEq, Eq, Structural)]
pub enum MediaKind {
    Image,
    Video,
}

/// Which part of a quoted message `rvo` reopens. Each argument is `None` where the
/// message has no such part, and otherwise whether that part is view-once. An image part
/// is looked at first; where there is one, a video part is not looked at.
pub fn view_once_target(image: Option<bool>, video: Option<bool>) -> (target: Option<MediaKind>)
    ensures
        target == match image {
            Some(once) => if once {
                Some(MediaKind::Image)
            } else {
                None
            },
            None => if video == Some(true) {
                Some(MediaKind::Video)
            } else {
                None
            },
        },
{
    match image {
        Some(once) => if once {
            Some(MediaKind::Image)
        } else {
            None
        },
        None => match video {
            Some(true) => Some(MediaKind::Video),
            _ => None,
        },
    }
}

/// Whether `wacore`'s `Jid` parser accepts a text.
pub uninterp spec fn parses_as_jid(s: Seq<char>) -> bool;

/// Calls `<Jid as FromStr>::from_str` and tells whether it succeeded. What the parser
/// accepts (user, agent, device and server parts, known servers) is left to the name
/// `parses_as_jid`.
#[verifier::external_body]
fn jid_parses(s: &str) -> (ok: bool)
    ensures
        ok == parses_as_jid(s@),
{
    s.parse::<whatsapp_rust::Jid>().is_ok()
}

/// The texts among `c` that parse as user ids, in order.
pub open spec fn valid_jids(c: Seq<Seq<char>>) -> Seq<Seq<char>>
    decreases c.len(),
{
    if c.len() == 0 {
        c
    } else if parses_as_jid(c.last()) {
        valid_jids(c.drop_last()).push(c.last())
    } else {
        valid_jids(c.drop_last())
    }
}

/// The ids `demote` tries before parsing: where it has no arguments, the sender of the
/// quoted message; otherwise the users mentioned.
pub open spec fn demote_candidates(
    args_empty: bool,
    participant: Option<Seq<char>>,
    mentions: Seq<Seq<char>>,
) -> Seq<Seq<char>> {
    if args_empty {
        match participant {
            Some(p) => seq![p],
            None => Seq::empty(),
        }
    } else {
        mentions
    }
}

/// The users `demote` targets: its candidates that parse as user ids.
pub fn demote_targets(args_empty: bool, participant: Option<String>, mentions: &Vec<String>) -> (ids: Vec<String>)
    ensures
        views(ids@) == valid_jids(
            demote_candidates(
                args_empty,
                opt_view(&participant),
                views(mentions@),
            ),
        ),
{
    let ghost want = demote_candidates(
        args_empty,
        opt_view(&participant),
        views(mentions@),
    );
    let mut candidates: Vec<String> = Vec::new();
    if args_empty {
        match participant {
            Some(p) => candidates.push(p),
            None => {},
        }
    } else {
        candidates = clone_strings(mentions);
    }
    assert(views(candidates@) =~= want);
    let mut ids: Vec<String> = Vec::new();
    for i in 0..candidates.len()
        invariant
            views(candidates@) == want,
            views(ids@) == valid_jids(want.take(i as int)),
    {
        assert(want.take(i + 1).drop_last() =~= want.take(i as int));
        assert(want.take(i + 1).last() == candidates@[i as int]@);
        if jid_parses(candidates[i].as_str()) {
            let ghost old_ids = ids@;
            ids.push(candidates[i].clone());
            assert(views(ids@) =~= views(old_ids).push(candidates@[i as int]@));
        }
    }
    assert(want.take(candidates@.len() as int) =~= want);
    ids
}

/// The superusers as shown at start-up: joined by commas, or `None`.
pub fn superuser_line(superusers: &Vec<String>) -> (line: String)
    ensures
        line@ == if superusers@.len() == 0 {
            "None"@
        } else {
            join(views(superusers@), ", "@)
        },
{
    if superusers.len() == 0 {
        "None".to_owned()
    } else {
        join_strings(superusers, ", ")
    }
}


/// One line per blocked contact, each a bullet and its id.
pub open spec fn block_lines(jids: Seq<Seq<char>>) -> Seq<char>
    decreases jids.len(),
{
    if jids.len() == 0 {
        Seq::empty()
    } else {
        block_lines(jids.drop_last()) + "\u{2022} "@ + jids.last() + "\n"@
    }
}

/// What `listblock` answers: that nobody is blocked, or a heading with the count and a
/// line per contact, trimmed.
pub open spec fn blocklist_text(jids: Seq<Seq<char>>) -> Seq<char> {
    if jids.len() == 0 {
        "*Tidak ada kontak yang diblokir*"@
    } else {
        trim("*Daftar Blokir ("@ + decimal(jids.len()) + ")*\n\n"@ + block_lines(jids))
    }
}

/// The answer to `listblock`, given the blocked contacts' ids.
pub fn blocklist_reply(jids: &Vec<String>) -> (reply: String)
    ensures
        reply@ == blocklist_text(views(jids@)),
{
    if jids.len() == 0 {
        return "*Tidak ada kontak yang diblokir*".to_owned();
    }
    let mut response = "*Daftar Blokir (".to_owned();
    let count = decimal_string(jids.len());
    response.append(count.as_str());
    response.append(")*\n\n");
    let ghost head = response@;
    for i in 0..jids.len()
        invariant
            head == "*Daftar Blokir ("@ + decimal(jids@.len() as nat) + ")*\n\n"@,
            response@ == head + block_lines(views(jids@.take(i as int))),
    {
        assert(views(jids@.take(i + 1)).drop_last() =~= views(jids@.take(i as int)));
        assert(views(jids@.take(i + 1)).last() == jids@[i as int]@);
        response.append("\u{2022} ");
        response.append(jids[i].as_str());
        response.append("\n");
        assert(response@ =~= head + block_lines(views(jids@.take(i + 1))));
    }
    assert(jids@.take(jids@.len() as int) =~= jids@);
    let chars = chars_of(response.as_str());
    let trimmed = trim_chars(&chars);
    string_of(&trimmed)
}

} // verus!
