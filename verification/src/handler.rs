//! The decisions the bot takes on each event: which messages are commands, who may run
//! them, and which messages are marked as read.
use vstd::prelude::*;
use crate::config::{AutoreadMode, BotMode, PairingMethod, WarmupMode};
use crate::text::{
    chars_of, drop_empty_strings, lowercase, split_chars, tail_strings,
    starts_with, starts_with_chars, string_of, text_is, to_lowercase, trim, trim_chars, views,
    words, Delim,
};

verus! {

/// Whether an incoming message is marked as read: never the bot's own; otherwise as the
/// autoread mode says for a group or a direct chat.
pub open spec fn autoread_spec(mode: AutoreadMode, is_from_me: bool, is_group: bool) -> bool {
    !is_from_me && match mode {
        AutoreadMode::Off => false,
        AutoreadMode::All => true,
        AutoreadMode::Group => is_group,
        AutoreadMode::Dm => !is_group,
    }
}

/// Whether an incoming message is marked as read.
pub fn should_autoread(mode: AutoreadMode, is_from_me: bool, is_group: bool) -> (read: bool)
    ensures
        read == autoread_spec(mode, is_from_me, is_group),
{
    if is_from_me {
        return false;
    }
    match mode {
        AutoreadMode::Off => false,
        AutoreadMode::All => true,
        AutoreadMode::Group => is_group,
        AutoreadMode::Dm => !is_group,
    }
}

/// Whether a message sent `age_nanos` ago (`None` where it claims to come from the
/// future) was sent before the bot started `uptime_nanos` ago; such messages are ignored.
pub fn predates_start(age_nanos: Option<u128>, uptime_nanos: u128) -> (stale: bool)
    ensures
        stale == match age_nanos {
            Some(a) => a > uptime_nanos,
            None => false,
        },
{
    match age_nanos {
        Some(a) => a > uptime_nanos,
        None => false,
    }
}

/// Whether a pairing event is shown: a QR code under QR pairing, a pairing code under
/// code pairing.
pub fn shows_pairing(pairing: PairingMethod, is_qr_event: bool) -> (show: bool)
    ensures
        show == (pairing == if is_qr_event {
            PairingMethod::Qr
        } else {
            PairingMethod::Code
        }),
{
    match pairing {
        PairingMethod::Qr => is_qr_event,
        PairingMethod::Code => !is_qr_event,
    }
}

/// The name the account is given on connecting when it has none.
pub open spec fn default_push_name() -> Seq<char> {
    "sora-on-rust"@
}

/// The name to give the account on connecting: the default where it has none.
pub fn push_name_to_set(current: &str) -> (name: Option<String>)
    ensures
        match name {
            Some(n) => current@.len() == 0 && n@ == default_push_name(),
            None => current@.len() != 0,
        },
{
    if current.is_empty() {
        Some("sora-on-rust".to_owned())
    } else {
        None
    }
}

/// The ids that were found, in order.
pub open spec fn found_ids(found: Seq<Option<String>>) -> Seq<Seq<char>>
    decreases found.len(),
{
    if found.len() == 0 {
        Seq::empty()
    } else {
        let rest = found_ids(found.drop_last());
        match found.last() {
            Some(id) => rest.push(id@),
            None => rest,
        }
    }
}

/// Keeps the superusers' ids that could be looked up, in order.
pub fn collect_found(found: Vec<Option<String>>) -> (ids: Vec<String>)
    ensures
        views(ids@) == found_ids(found@),
{
    let mut ids: Vec<String> = Vec::new();
    let n = found.len();
    for i in 0..n
        invariant
            n == found@.len(),
            views(ids@) == found_ids(found@.take(i as int)),
    {
        assert(found@.take(i + 1).drop_last() =~= found@.take(i as int));
        match &found[i] {
            Some(id) => {
                let ghost old_ids = ids@;
                ids.push(id.clone());
                assert(views(ids@) =~= views(old_ids).push(id@));
            },
            None => {},
        }
    }
    assert(found@.take(n as int) =~= found@);
    ids
}

/// Whether `list` holds a string reading `s`.
pub fn contains_text(list: &Vec<String>, s: &str) -> (found: bool)
    ensures
        found == views(list@).contains(s@),
{
    for i in 0..list.len()
        invariant
            forall|j: int| 0 <= j < i ==> list@[j]@ != s@,
    {
        if text_is(&list[i], s) {
            assert(views(list@)[i as int] == s@);
            return true;
        }
    }
    assert forall|j: int| 0 <= j < views(list@).len() implies views(list@)[j] != s@ by {
        assert(list@[j]@ != s@);
    }
    false
}

/// Whether the sender may run every command: the bot itself, or a superuser, known by
/// the id the sender is addressed with.
pub open spec fn privileged_spec(
    sender: Seq<char>,
    is_from_me: bool,
    sender_is_lid: bool,
    superuser_lids: Seq<Seq<char>>,
    superusers: Seq<Seq<char>>,
) -> bool {
    is_from_me || if sender_is_lid {
        superuser_lids.contains(sender)
    } else {
        superusers.contains(sender)
    }
}

/// Whether the sender may run every command.
pub fn is_privileged(
    sender: &str,
    is_from_me: bool,
    sender_is_lid: bool,
    superuser_lids: &Vec<String>,
    superusers: &Vec<String>,
) -> (privileged: bool)
    ensures
        privileged == privileged_spec(
            sender@,
            is_from_me,
            sender_is_lid,
            views(superuser_lids@),
            views(superusers@),
        ),
{
    let su = if sender_is_lid {
        contains_text(superuser_lids, sender)
    } else {
        contains_text(superusers, sender)
    };
    is_from_me || su
}

/// Whether the sender is an admin: the admin flag of the first participant that is the
/// sender; false where none is. Each participant is given as whether it is the sender and
/// whether it is an admin.
pub open spec fn admin_spec(participants: Seq<(bool, bool)>) -> bool
    decreases participants.len(),
{
    if participants.len() == 0 {
        false
    } else if participants[0].0 {
        participants[0].1
    } else {
        admin_spec(participants.drop_first())
    }
}

/// Whether the sender is an admin among a group's participants, each given as whether it
/// is the sender and whether it is an admin.
pub fn is_group_admin(participants: &Vec<(bool, bool)>) -> (admin: bool)
    ensures
        admin == admin_spec(participants@),
{
    let n = participants.len();
    assert(participants@.skip(0) =~= participants@);
    for i in 0..n
        invariant
            n == participants@.len(),
            admin_spec(participants@) == admin_spec(participants@.skip(i as int)),
    {
        let ghost rest = participants@.skip(i as int);
        assert(rest.drop_first() =~= participants@.skip(i + 1));
        assert(rest[0] == participants@[i as int]);
        if participants[i].0 {
            return participants[i].1;
        }
    }
    assert(participants@.skip(n as int).len() == 0);
    false
}

/// Who a command is meant for.
#[derive(Clone, Copy, Debug, PartialEq, Eq, Structural)]
pub struct Access {
    /// Only privileged users may run it.
    pub owner_only: bool,
    /// It runs only in groups.
    pub group_only: bool,
    /// It runs only in direct chats.
    pub dm_only: bool,
    /// Only group admins (or privileged users) may run it, and only in groups.
    pub admin_only: bool,
}

/// Why a command was refused.
#[derive(Clone, Copy, Debug, PartialEq, Eq, Structural)]
pub enum Denial {
    OwnerOnly,
    GroupOnly,
    DmOnly,
    AdminOnly,
}

/// What to do with a known command.
#[derive(Clone, Copy, Debug, PartialEq, Eq, Structural)]
pub enum Gate {
    /// Drop it without a word.
    Ignore,
    /// Refuse it with a reply.
    Deny(Denial),
    /// Ask the group whether the sender is an admin, then decide with `gate_admin`.
    CheckAdmin,
    /// Run it.
    Run,
}

/// The decision on a known command: in self mode only privileged users are answered;
/// then each access rule in turn may refuse it.
pub open spec fn gate_spec(mode: BotMode, privileged: bool, is_group: bool, access: Access) -> Gate {
    if mode == BotMode::SelfMode && !privileged {
        Gate::Ignore
    } else if access.owner_only && !privileged {
        Gate::Deny(Denial::OwnerOnly)
    } else if access.group_only && !is_group {
        Gate::Deny(Denial::GroupOnly)
    } else if access.dm_only && is_group {
        Gate::Deny(Denial::DmOnly)
    } else if access.admin_only && !is_group {
        Gate::Deny(Denial::GroupOnly)
    } else if access.admin_only && !privileged {
        Gate::CheckAdmin
    } else {
        Gate::Run
    }
}

/// Decides what to do with a known command.
pub fn gate_command(mode: BotMode, privileged: bool, is_group: bool, access: Access) -> (gate: Gate)
    ensures
        gate == gate_spec(mode, privileged, is_group, access),
{
    if mode == BotMode::SelfMode && !privileged {
        Gate::Ignore
    } else if access.owner_only && !privileged {
        Gate::Deny(Denial::OwnerOnly)
    } else if access.group_only && !is_group {
        Gate::Deny(Denial::GroupOnly)
    } else if access.dm_only && is_group {
        Gate::Deny(Denial::DmOnly)
    } else if access.admin_only && !is_group {
        Gate::Deny(Denial::GroupOnly)
    } else if access.admin_only && !privileged {
        Gate::CheckAdmin
    } else {
        Gate::Run
    }
}

/// Decides an admin-only command once the group has said whether the sender is an admin.
pub fn gate_admin(is_admin: bool) -> (gate: Gate)
    ensures
        gate == if is_admin {
            Gate::Run
        } else {
            Gate::Deny(Denial::AdminOnly)
        },
{
    if is_admin {
        Gate::Run
    } else {
        Gate::Deny(Denial::AdminOnly)
    }
}

/// The reply a refusal is answered with.
pub open spec fn denial_text(d: Denial) -> Seq<char> {
    match d {
        Denial::OwnerOnly => "Owner only command."@,
        Denial::GroupOnly => "This command only works in groups."@,
        Denial::DmOnly => "This command only works in DM."@,
        Denial::AdminOnly => "Admin only command."@,
    }
}

impl Denial {
    /// The reply this refusal is answered with.
    pub fn reply(&self) -> (text: String)
        ensures
            text@ == denial_text(*self),
    {
        match self {
            Denial::OwnerOnly => "Owner only command.".to_owned(),
            Denial::GroupOnly => "This command only works in groups.".to_owned(),
            Denial::DmOnly => "This command only works in DM.".to_owned(),
            Denial::AdminOnly => "Admin only command.".to_owned(),
        }
    }
}

/// The first of `prefixes` that `text` begins with.
pub open spec fn first_prefix(text: Seq<char>, prefixes: Seq<Seq<char>>) -> Option<Seq<char>>
    decreases prefixes.len(),
{
    if prefixes.len() == 0 {
        None
    } else if starts_with(text, prefixes[0]) {
        Some(prefixes[0])
    } else {
        first_prefix(text, prefixes.drop_first())
    }
}

/// A message read as a possible command.
pub struct Invocation {
    /// The message begins with a command prefix.
    pub is_command: bool,
    /// The message is no command and warm-up is on.
    pub needs_warmup: bool,
    /// Interceptors are registered and the cache holds something.
    pub needs_interceptors: bool,
    /// The first word after the prefix, in lower case.
    pub cmd_name: String,
    /// The words after the command's name.
    pub args: Vec<String>,
    /// What follows the command's name, trimmed; empty where the text after the prefix
    /// does not begin with the lower-case name.
    pub body: String,
}

/// The text after the prefix a message begins with, or the whole text.
pub open spec fn after_prefix(text: Seq<char>, prefixes: Seq<Seq<char>>) -> Seq<char> {
    match first_prefix(text, prefixes) {
        Some(p) => text.skip(p.len() as int),
        None => text,
    }
}

/// The command name in a text after its prefix.
pub open spec fn name_of(base: Seq<char>) -> Seq<char> {
    lowercase(if words(base).len() > 0 { words(base)[0] } else { Seq::empty() })
}

/// The arguments in a text after its prefix.
pub open spec fn args_of(base: Seq<char>) -> Seq<Seq<char>> {
    if words(base).len() > 0 { words(base).drop_first() } else { Seq::empty() }
}

/// The body in a text after its prefix.
pub open spec fn body_of(base: Seq<char>) -> Seq<char> {
    if starts_with(base, name_of(base)) {
        trim(base.skip(name_of(base).len() as int))
    } else {
        Seq::empty()
    }
}

/// Whether a message is handed on: it is a command, it may be intercepted, or it is
/// warmed up.
pub open spec fn handled(
    text: Seq<char>,
    prefixes: Seq<Seq<char>>,
    warmup: WarmupMode,
    has_interceptors: bool,
    cache_empty: bool,
) -> bool {
    first_prefix(text, prefixes) is Some || (has_interceptors && !cache_empty) || warmup
        != WarmupMode::Off
}

/// A prefix found is one the text begins with.
pub proof fn lemma_first_prefix_starts(text: Seq<char>, prefixes: Seq<Seq<char>>)
    ensures
        first_prefix(text, prefixes) matches Some(p) ==> starts_with(text, p),
    decreases prefixes.len(),
{
    if prefixes.len() > 0 && !starts_with(text, prefixes[0]) {
        lemma_first_prefix_starts(text, prefixes.drop_first());
    }
}

/// The prefix `text` begins with, found in the order the prefixes are listed.
pub fn find_prefix(text: &Vec<char>, prefixes: &Vec<String>) -> (found: Option<usize>)
    ensures
        match found {
            Some(i) => i < prefixes@.len() && first_prefix(text@, views(prefixes@)) == Some(
                prefixes@[i as int]@,
            ),
            None => first_prefix(text@, views(prefixes@)) is None,
        },
{
    let n = prefixes.len();
    assert(views(prefixes@).skip(0) =~= views(prefixes@));
    for i in 0..n
        invariant
            n == prefixes@.len(),
            first_prefix(text@, views(prefixes@)) == first_prefix(
                text@,
                views(prefixes@).skip(i as int),
            ),
    {
        let ghost rest = views(prefixes@).skip(i as int);
        assert(rest.drop_first() =~= views(prefixes@).skip(i + 1));
        assert(rest[0] == prefixes@[i as int]@);
        let p = chars_of(prefixes[i].as_str());
        if starts_with_chars(text, &p) {
            return Some(i);
        }
    }
    assert(views(prefixes@).skip(n as int).len() == 0);
    None
}

/// Reads a message as a possible command. `None` where it is no command, nothing may
/// intercept it and warm-up is off: then it is left alone.
pub fn parse_message(
    text: &str,
    prefixes: &Vec<String>,
    warmup: WarmupMode,
    has_interceptors: bool,
    cache_empty: bool,
) -> (inv: Option<Invocation>)
    ensures
        inv is Some <==> handled(text@, views(prefixes@), warmup, has_interceptors, cache_empty),
        inv matches Some(i) ==> {
            let base = after_prefix(text@, views(prefixes@));
            &&& i.is_command == first_prefix(text@, views(prefixes@)) is Some
            &&& i.needs_warmup == (!i.is_command && warmup != WarmupMode::Off)
            &&& i.needs_interceptors == (has_interceptors && !cache_empty)
            &&& i.cmd_name@ == name_of(base)
            &&& views(i.args@) == args_of(base)
            &&& i.body@ == body_of(base)
        },
{
    let chars = chars_of(text);
    let found = find_prefix(&chars, prefixes);
    let is_command = found.is_some();
    let prefix_len: usize = match found {
        Some(i) => chars_of(prefixes[i].as_str()).len(),
        None => 0,
    };
    let needs_warmup = !is_command && warmup != WarmupMode::Off;
    let needs_interceptors = has_interceptors && !cache_empty;
    if !is_command && !needs_interceptors && !needs_warmup {
        return None;
    }
    let mut base: Vec<char> = Vec::new();
    let mut k: usize = prefix_len;
    proof {
        lemma_first_prefix_starts(text@, views(prefixes@));
    }
    while k < chars.len()
        invariant
            prefix_len <= k <= chars@.len(),
            base@ == chars@.subrange(prefix_len as int, k as int),
        decreases chars@.len() - k,
    {
        base.push(chars[k]);
        assert(chars@.subrange(prefix_len as int, k + 1) =~= chars@.subrange(
            prefix_len as int,
            k as int,
        ).push(chars@[k as int]));
        k = k + 1;
    }
    assert(base@ =~= after_prefix(text@, views(prefixes@)));
    let words_v = drop_empty_strings(split_chars(&base, Delim::Whitespace));
    let first = if words_v.len() > 0 {
        words_v[0].clone()
    } else {
        String::new()
    };
    let cmd_name = to_lowercase(first.as_str());
    let args = tail_strings(&words_v);
    let name_chars = chars_of(cmd_name.as_str());
    let body = if starts_with_chars(&base, &name_chars) {
        let mut rest: Vec<char> = Vec::new();
        let mut k: usize = name_chars.len();
        while k < base.len()
            invariant
                name_chars@.len() <= k <= base@.len(),
                rest@ == base@.subrange(name_chars@.len() as int, k as int),
            decreases base@.len() - k,
        {
            rest.push(base[k]);
            assert(base@.subrange(name_chars@.len() as int, k + 1) =~= base@.subrange(
                name_chars@.len() as int,
                k as int,
            ).push(base@[k as int]));
            k = k + 1;
        }
        assert(rest@ =~= base@.skip(name_chars@.len() as int));
        let t = trim_chars(&rest);
        string_of(&t)
    } else {
        String::new()
    };
    Some(Invocation { is_command, needs_warmup, needs_interceptors, cmd_name, args, body })
}

} // verus!
