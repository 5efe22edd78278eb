//! What holds of the library as a whole, across its operations.
use vstd::prelude::*;
use crate::config::{AutoreadMode, BotMode, WarmupMode, autoread_from_text, warmup_from_text};
use crate::handler::{
    autoread_spec, gate_spec, handled, first_prefix, privileged_spec, Access, Denial, Gate,
};
use crate::commands::{block_lines, blocklist_text, prefix_list, set_key, set_text, switch_on};
use crate::state::ConfigKey;
use crate::state::{
    MAX_TRACKED_ENTRIES, next_tick, swept, timer_of, touched, touched_before,
};
use crate::text::{drop_empty, is_ws, lowercase, split, trim, trim_end, trim_start, words, Delim};

verus! {

/// A chat's timer reads back as it was last recorded.
pub proof fn law_timer_read_after_write(
    m: Map<Seq<char>, (u32, u64)>,
    jid: Seq<char>,
    seconds: u32,
    tick: u64,
)
    ensures
        timer_of(m.insert(jid, (seconds, tick)), jid) == seconds,
{
}

/// Recording one chat's timer leaves every other chat's timer as it was.
pub proof fn law_timer_write_is_local(
    m: Map<Seq<char>, (u32, u64)>,
    jid: Seq<char>,
    seconds: u32,
    tick: u64,
    other: Seq<char>,
)
    requires
        other != jid,
    ensures
        timer_of(m.insert(jid, (seconds, tick)), other) == timer_of(m, other),
{
}

/// A chat whose timer was never recorded reads 0.
pub proof fn law_unknown_chat_reads_zero(m: Map<Seq<char>, (u32, u64)>, jid: Seq<char>)
    requires
        !m.contains_key(jid),
    ensures
        timer_of(m, jid) == 0,
{
}

/// Reading a chat's timer changes no chat's timer.
pub proof fn law_read_keeps_timers(
    m: Map<Seq<char>, (u32, u64)>,
    jid: Seq<char>,
    tick: u64,
    any: Seq<char>,
)
    ensures
        timer_of(touched(m, jid, tick), any) == timer_of(m, any),
{
}

/// A sweep never leaves more than `MAX_TRACKED_ENTRIES` chats.
pub proof fn law_sweep_is_bounded(
    before: Map<Seq<char>, (u32, u64)>,
    after: Map<Seq<char>, (u32, u64)>,
)
    requires
        swept(before, after),
    ensures
        after.len() <= MAX_TRACKED_ENTRIES,
        before.len() <= MAX_TRACKED_ENTRIES ==> after == before,
{
}

/// A sweep changes no timer of a chat it keeps.
pub proof fn law_sweep_keeps_timers(
    before: Map<Seq<char>, (u32, u64)>,
    after: Map<Seq<char>, (u32, u64)>,
    kept: Seq<char>,
)
    requires
        swept(before, after),
        after.contains_key(kept),
    ensures
        timer_of(after, kept) == timer_of(before, kept),
{
}

/// Recording a timer at the current tick keeps every touch older than the clock, as long
/// as the clock has not reached its last tick.
pub proof fn law_touches_stay_older_on_write(
    m: Map<Seq<char>, (u32, u64)>,
    clock: u64,
    jid: Seq<char>,
    seconds: u32,
)
    requires
        touched_before(m, clock),
        clock < u64::MAX,
    ensures
        touched_before(m.insert(jid, (seconds, clock)), next_tick(clock)),
{
}

/// Reading a timer at the current tick keeps every touch older than the clock, as long as
/// the clock has not reached its last tick.
pub proof fn law_touches_stay_older_on_read(
    m: Map<Seq<char>, (u32, u64)>,
    clock: u64,
    jid: Seq<char>,
)
    requires
        touched_before(m, clock),
        clock < u64::MAX,
    ensures
        touched_before(touched(m, jid, clock), next_tick(clock)),
{
}

/// A chat whose touch is newer than every other chat's is never the one a sweep drops:
/// it stays, with its timer.
pub proof fn law_newest_survives_sweep(
    before: Map<Seq<char>, (u32, u64)>,
    jid: Seq<char>,
    after: Map<Seq<char>, (u32, u64)>,
)
    requires
        before.dom().finite(),
        before.contains_key(jid),
        forall|k: Seq<char>| #[trigger] before.contains_key(k) && k != jid ==> before[k].1 < before[jid].1,
        swept(before, after),
    ensures
        after.contains_key(jid),
        after[jid] == before[jid],
{
    if before.len() > MAX_TRACKED_ENTRIES {
        if !after.contains_key(jid) {
            assert(after.dom().finite()) by {
                vstd::set_lib::lemma_len_subset(after.dom(), before.dom());
            }
            assert(after.len() > 0);
            let kept = after.dom().choose();
            assert(after.dom().contains(kept)) by {
                if !after.dom().contains(kept) {
                    after.dom().lemma_len0_is_empty();
                }
            }
            assert(before[jid].1 <= before[kept].1);
            assert(kept != jid);
        }
    }
}

/// The chat touched last is never the one a sweep drops: the timer just recorded is still
/// there after the next sweep.
pub proof fn law_last_written_survives_sweep(
    m: Map<Seq<char>, (u32, u64)>,
    clock: u64,
    jid: Seq<char>,
    seconds: u32,
    after: Map<Seq<char>, (u32, u64)>,
)
    requires
        m.dom().finite(),
        touched_before(m, clock),
        swept(m.insert(jid, (seconds, clock)), after),
    ensures
        timer_of(after, jid) == seconds,
{
    let before = m.insert(jid, (seconds, clock));
    assert forall|k: Seq<char>| #[trigger] before.contains_key(k) && k != jid implies before[k].1
        < before[jid].1 by {
        assert(m.contains_key(k));
    }
    law_newest_survives_sweep(before, jid, after);
}

/// A command runs only when its access rule lets the sender run it there.
pub proof fn law_run_respects_access(mode: BotMode, privileged: bool, is_group: bool, access: Access)
    requires
        gate_spec(mode, privileged, is_group, access) == Gate::Run,
    ensures
        mode == BotMode::SelfMode ==> privileged,
        access.owner_only ==> privileged,
        access.group_only ==> is_group,
        access.dm_only ==> !is_group,
        access.admin_only ==> is_group && privileged,
{
}

/// The group is asked about the sender only for an admin-only command sent in a group by
/// a user who is not privileged.
pub proof fn law_admin_check_only_when_needed(
    mode: BotMode,
    privileged: bool,
    is_group: bool,
    access: Access,
)
    requires
        gate_spec(mode, privileged, is_group, access) == Gate::CheckAdmin,
    ensures
        access.admin_only,
        is_group,
        !privileged,
{
}

/// Privileged users are never ignored, nor refused an owner-only command.
pub proof fn law_privileged_always_answered(
    mode: BotMode,
    is_group: bool,
    access: Access,
)
    ensures
        gate_spec(mode, true, is_group, access) != Gate::Ignore,
        gate_spec(mode, true, is_group, access) != Gate::Deny(Denial::OwnerOnly),
{
}

/// In self mode the bot ignores every command of a user who is not privileged.
pub proof fn law_self_mode_ignores_others(is_group: bool, access: Access)
    ensures
        gate_spec(BotMode::SelfMode, false, is_group, access) == Gate::Ignore,
{
}

/// The bot never marks its own messages as read.
pub proof fn law_own_messages_not_read(mode: AutoreadMode, is_group: bool)
    ensures
        !autoread_spec(mode, true, is_group),
{
}

/// A message without a prefix is left alone while warm-up is off and nothing may
/// intercept it.
pub proof fn law_plain_messages_left_alone(
    text: Seq<char>,
    prefixes: Seq<Seq<char>>,
    cache_empty: bool,
)
    requires
        first_prefix(text, prefixes) is None,
    ensures
        !handled(text, prefixes, WarmupMode::Off, false, cache_empty),
{
}

/// Setting texts are read without regard to case.
pub proof fn law_modes_ignore_case(a: Seq<char>, b: Seq<char>)
    requires
        lowercase(a) == lowercase(b),
    ensures
        warmup_from_text(a) == warmup_from_text(b),
        autoread_from_text(a) == autoread_from_text(b),
{
}


/// Every piece of a text split at whitespace is free of whitespace.
proof fn lemma_split_ws_pieces(s: Seq<char>)
    ensures
        forall|i: int, j: int|
            0 <= i < split(s, Delim::Whitespace).len() && 0 <= j < split(s, Delim::Whitespace)[i].len()
                ==> !is_ws(#[trigger] split(s, Delim::Whitespace)[i][j]),
    decreases s.len(),
{
    if s.len() > 0 {
        lemma_split_ws_pieces(s.drop_last());
        crate::text::lemma_split_nonempty(s.drop_last(), Delim::Whitespace);
    }
}

/// What `drop_empty` keeps are non-empty pieces of what it was given.
proof fn lemma_drop_empty_keeps(p: Seq<Seq<char>>)
    ensures
        forall|i: int|
            0 <= i < drop_empty(p).len() ==> (#[trigger] drop_empty(p)[i]).len() > 0 && exists|j: int|
                0 <= j < p.len() && p[j] == drop_empty(p)[i],
    decreases p.len(),
{
    if p.len() > 0 {
        lemma_drop_empty_keeps(p.drop_last());
        let q = drop_empty(p.drop_last());
        assert forall|i: int| 0 <= i < drop_empty(p).len() implies (#[trigger] drop_empty(p)[i]).len()
            > 0 && exists|j: int| 0 <= j < p.len() && p[j] == drop_empty(p)[i] by {
            if i < q.len() {
                let j = choose|j: int| 0 <= j < p.drop_last().len() && p.drop_last()[j] == q[i];
                assert(p[j] == q[i]);
            } else {
                assert(p[p.len() - 1] == drop_empty(p)[i]);
            }
        }
    }
}

/// The words of a text are non-empty and hold no whitespace; so are a command's
/// arguments.
pub proof fn law_words_hold_no_whitespace(s: Seq<char>)
    ensures
        forall|i: int| 0 <= i < words(s).len() ==> (#[trigger] words(s)[i]).len() > 0,
        forall|i: int, j: int|
            0 <= i < words(s).len() && 0 <= j < words(s)[i].len() ==> !is_ws(#[trigger] words(s)[i][j]),
{
    lemma_split_ws_pieces(s);
    lemma_drop_empty_keeps(split(s, Delim::Whitespace));
    assert forall|i: int, j: int|
        0 <= i < words(s).len() && 0 <= j < words(s)[i].len() implies !is_ws(#[trigger] words(s)[i][j]) by {
        let p = split(s, Delim::Whitespace);
        let k = choose|k: int| 0 <= k < p.len() && p[k] == drop_empty(p)[i];
        assert(p[k][j] == words(s)[i][j]);
    }
}

proof fn lemma_trim_start_shape(s: Seq<char>)
    ensures
        trim_start(s).len() > 0 ==> !is_ws(trim_start(s)[0]),
    decreases s.len(),
{
    if s.len() > 0 && is_ws(s[0]) {
        lemma_trim_start_shape(s.drop_first());
    }
}

proof fn lemma_trim_end_shape(s: Seq<char>)
    ensures
        trim_end(s).len() <= s.len(),
        trim_end(s) == s.take(trim_end(s).len() as int),
        trim_end(s).len() > 0 ==> !is_ws(trim_end(s).last()),
    decreases s.len(),
{
    if s.len() > 0 && is_ws(s.last()) {
        lemma_trim_end_shape(s.drop_last());
        assert(s.drop_last().take(trim_end(s).len() as int) =~= s.take(trim_end(s).len() as int));
    } else {
        assert(s.take(s.len() as int) =~= s);
    }
}

/// A trimmed text neither begins nor ends with whitespace; so is a command's body.
pub proof fn law_trimmed_edges(s: Seq<char>)
    ensures
        trim(s).len() > 0 ==> !is_ws(trim(s)[0]) && !is_ws(trim(s).last()),
{
    lemma_trim_start_shape(s);
    lemma_trim_end_shape(trim_start(s));
    if trim(s).len() > 0 {
        assert(trim(s)[0] == trim_start(s)[0]);
    }
}

/// Reading a chat's timer makes it the one a sweep drops last: it is still there after
/// the next sweep.
pub proof fn law_last_read_survives_sweep(
    m: Map<Seq<char>, (u32, u64)>,
    clock: u64,
    jid: Seq<char>,
    after: Map<Seq<char>, (u32, u64)>,
)
    requires
        m.dom().finite(),
        touched_before(m, clock),
        m.contains_key(jid),
        swept(touched(m, jid, clock), after),
    ensures
        timer_of(after, jid) == timer_of(m, jid),
{
    law_last_written_survives_sweep(m, clock, jid, m[jid].0, after);
}


/// What is remembered under a key can be found there until it is forgotten.
pub proof fn law_cache_remembers(
    m: Map<Seq<char>, Seq<char>>,
    key: Seq<char>,
    value: Seq<char>,
)
    ensures
        m.insert(key, value).contains_key(key),
        m.insert(key, value)[key] == value,
        !m.insert(key, value).remove(key).contains_key(key),
{
}


/// Whether the sender may run a command in that chat by its access rule alone, admins
/// aside: owner-only needs privilege, group-only a group, DM-only a direct chat, and
/// admin-only a group.
pub open spec fn access_allows(privileged: bool, is_group: bool, access: Access) -> bool {
    &&& (access.owner_only ==> privileged)
    &&& (access.group_only ==> is_group)
    &&& (access.dm_only ==> !is_group)
    &&& (access.admin_only ==> is_group)
}

/// A command is dropped without a word only in self mode and only for a user who is not
/// privileged; outside that, a command whose rules the sender meets runs (or, for an
/// admin-only command of a non-privileged user, waits on the admin check), and a refused
/// command breaks one of its rules.
pub proof fn law_gate_decides_by_rules(mode: BotMode, privileged: bool, is_group: bool, access: Access)
    ensures
        (gate_spec(mode, privileged, is_group, access) == Gate::Ignore) <==> (mode
            == BotMode::SelfMode && !privileged),
        (mode == BotMode::Public || privileged) && access_allows(privileged, is_group, access) ==> {
            ||| gate_spec(mode, privileged, is_group, access) == Gate::Run
            ||| access.admin_only && !privileged && gate_spec(mode, privileged, is_group, access)
                == Gate::CheckAdmin
        },
        (mode == BotMode::Public || privileged) && !access_allows(privileged, is_group, access)
            ==> gate_spec(mode, privileged, is_group, access) is Deny,
        gate_spec(mode, privileged, is_group, access) == Gate::Deny(Denial::OwnerOnly) ==> access.owner_only
            && !privileged,
        gate_spec(mode, privileged, is_group, access) == Gate::Deny(Denial::GroupOnly) ==> (
        access.group_only || access.admin_only) && !is_group,
        gate_spec(mode, privileged, is_group, access) == Gate::Deny(Denial::DmOnly) ==> access.dm_only
            && is_group,
        gate_spec(mode, privileged, is_group, access) != Gate::Deny(Denial::AdminOnly),
{
}

/// Outside self mode a command with no access rule always runs, for everyone and in every
/// chat.
pub proof fn law_open_commands_run(privileged: bool, is_group: bool)
    ensures
        gate_spec(
            BotMode::Public,
            privileged,
            is_group,
            Access { owner_only: false, group_only: false, dm_only: false, admin_only: false },
        ) == Gate::Run,
{
}

/// What each autoread mode marks as read, the bot's own messages never: `all` every
/// message, `group` exactly the group messages, `dm` exactly the direct ones, `off` none.
pub proof fn law_autoread_modes(is_from_me: bool, is_group: bool)
    ensures
        autoread_spec(AutoreadMode::All, is_from_me, is_group) == !is_from_me,
        autoread_spec(AutoreadMode::Group, is_from_me, is_group) == (!is_from_me && is_group),
        autoread_spec(AutoreadMode::Dm, is_from_me, is_group) == (!is_from_me && !is_group),
        !autoread_spec(AutoreadMode::Off, is_from_me, is_group),
{
}

/// The bot itself is always privileged, however it is addressed; anyone else is privileged
/// exactly when listed among the superusers of the kind of address it is known by.
pub proof fn law_privilege(
    sender: Seq<char>,
    is_from_me: bool,
    sender_is_lid: bool,
    superuser_lids: Seq<Seq<char>>,
    superusers: Seq<Seq<char>>,
)
    ensures
        is_from_me ==> privileged_spec(sender, is_from_me, sender_is_lid, superuser_lids, superusers),
        !is_from_me && sender_is_lid ==> (privileged_spec(
            sender,
            is_from_me,
            sender_is_lid,
            superuser_lids,
            superusers,
        ) <==> exists|i: int| 0 <= i < superuser_lids.len() && superuser_lids[i] == sender),
        !is_from_me && !sender_is_lid ==> (privileged_spec(
            sender,
            is_from_me,
            sender_is_lid,
            superuser_lids,
            superusers,
        ) <==> exists|i: int| 0 <= i < superusers.len() && superusers[i] == sender),
{
}

/// A value switches a setting on exactly when, in lower case, it is one of the five words
/// `on`, `true`, `yes`, `enable`, `enabled`.
pub proof fn law_switch_words(val: Seq<char>)
    ensures
        switch_on(val) <==> set!["on"@, "true"@, "yes"@, "enable"@, "enabled"@].contains(
            lowercase(val),
        ),
{
}


/// Trimming the end keeps a prefix and drops only whitespace.
proof fn lemma_trim_end_drops_whitespace(s: Seq<char>)
    ensures
        trim_end(s).len() <= s.len(),
        trim_end(s) == s.take(trim_end(s).len() as int),
        forall|k: int| trim_end(s).len() <= k < s.len() ==> is_ws(#[trigger] s[k]),
    decreases s.len(),
{
    if s.len() > 0 && is_ws(s.last()) {
        lemma_trim_end_drops_whitespace(s.drop_last());
        assert(s.drop_last().take(trim_end(s).len() as int) =~= s.take(trim_end(s).len() as int));
        assert forall|k: int| trim_end(s).len() <= k < s.len() implies is_ws(#[trigger] s[k]) by {
            if k < s.len() - 1 {
                assert(s[k] == s.drop_last()[k]);
            }
        }
    } else {
        assert(s.take(s.len() as int) =~= s);
    }
}

/// Trimming a text that begins with a non-space keeps it up to its last non-space.
proof fn lemma_trim_keeps(s: Seq<char>, p: int)
    requires
        s.len() > 0,
        !is_ws(s[0]),
        0 <= p < s.len(),
        !is_ws(s[p]),
    ensures
        trim(s).len() > p,
        trim(s).len() <= s.len(),
        trim(s) == s.take(trim(s).len() as int),
{
    assert(trim_start(s) == s);
    lemma_trim_end_drops_whitespace(s);
}

/// The lines of two lists of contacts, one after the other, are the lines of the joined
/// list.
proof fn lemma_block_lines_append(a: Seq<Seq<char>>, b: Seq<Seq<char>>)
    ensures
        block_lines(a + b) == block_lines(a) + block_lines(b),
    decreases b.len(),
{
    if b.len() == 0 {
        assert(a + b =~= a);
        assert(block_lines(a) + block_lines(b) =~= block_lines(a));
    } else {
        lemma_block_lines_append(a, b.drop_last());
        assert((a + b).drop_last() =~= a + b.drop_last());
        assert((a + b).last() == b.last());
        assert(block_lines(a + b) =~= block_lines(a) + block_lines(b));
    }
}

/// The heading of a non-empty block list, before trimming.
spec fn blocklist_untrimmed(jids: Seq<Seq<char>>) -> Seq<char> {
    "*Daftar Blokir ("@ + crate::text::decimal(jids.len()) + ")*\n\n"@ + block_lines(jids)
}

/// `listblock` says that nobody is blocked exactly when nobody is.
pub proof fn law_blocklist_empty_answer(jids: Seq<Seq<char>>)
    ensures
        (blocklist_text(jids) == "*Tidak ada kontak yang diblokir*"@) <==> jids.len() == 0,
{
    reveal_strlit("*Tidak ada kontak yang diblokir*");
    reveal_strlit("*Daftar Blokir (");
    if jids.len() > 0 {
        let s = blocklist_untrimmed(jids);
        assert(s[0] == '*');
        assert(s[1] == 'D');
        lemma_trim_keeps(s, 1);
        assert(blocklist_text(jids) == trim(s));
        assert(trim(s).len() > 1);
        assert(s.take(trim(s).len() as int)[1] == s[1]);
        assert(trim(s)[1] == s.take(trim(s).len() as int)[1]);
        assert(trim(s)[1] == 'D');
        assert(blocklist_text(jids)[1] == 'D');
        assert("*Tidak ada kontak yang diblokir*"@[1] == 'T');
    }
}

/// Every blocked contact's id appears in the `listblock` answer; the last one whole as long
/// as it does not end in whitespace, which the answer's trimming would cut.
pub proof fn law_blocklist_names_everyone(jids: Seq<Seq<char>>, i: int)
    requires
        0 <= i < jids.len(),
        i == jids.len() - 1 ==> jids[i].len() == 0 || !is_ws(jids[i].last()),
    ensures
        exists|k: int|
            0 <= k && k + jids[i].len() <= blocklist_text(jids).len() && #[trigger] blocklist_text(
                jids,
            ).subrange(k, k + jids[i].len()) == jids[i],
{
    reveal_strlit("*Daftar Blokir (");
    reveal_strlit("\u{2022} ");
    reveal_strlit("\n");
    let x = jids[i];
    let t = blocklist_text(jids);
    if x.len() == 0 {
        assert(t.subrange(0, 0 + x.len() as int) =~= x);
        return;
    }
    let head = "*Daftar Blokir ("@ + crate::text::decimal(jids.len()) + ")*\n\n"@;
    let b1 = block_lines(jids.take(i));
    let b2 = block_lines(jids.skip(i + 1));
    assert(jids =~= jids.take(i) + (seq![x] + jids.skip(i + 1)));
    lemma_block_lines_append(jids.take(i), seq![x] + jids.skip(i + 1));
    lemma_block_lines_append(seq![x], jids.skip(i + 1));
    assert(seq![x].drop_last() =~= Seq::<Seq<char>>::empty());
    assert(block_lines(Seq::<Seq<char>>::empty()) =~= Seq::<char>::empty());
    assert(seq![x].last() == x);
    assert(block_lines(seq![x]) =~= "\u{2022} "@ + x + "\n"@);
    let s = blocklist_untrimmed(jids);
    assert(s =~= head + b1 + ("\u{2022} "@ + x + "\n"@) + b2);
    let k: int = (head.len() + b1.len() + 2) as int;
    assert(s.subrange(k, k + x.len()) =~= x);
    assert(s[0] == '*');
    if i < jids.len() - 1 {
        let y = jids[i + 1];
        assert(jids.skip(i + 1) =~= seq![y] + jids.skip(i + 2));
        lemma_block_lines_append(seq![y], jids.skip(i + 2));
        assert(seq![y].drop_last() =~= Seq::<Seq<char>>::empty());
        assert(seq![y].last() == y);
        assert(block_lines(seq![y]) =~= "\u{2022} "@ + y + "\n"@);
        assert(b2 =~= "\u{2022} "@ + y + "\n"@ + block_lines(jids.skip(i + 2)));
        assert(s[k + x.len() + 1] == '\u{2022}');
        lemma_trim_keeps(s, k + x.len() + 1);
    } else {
        assert(s[k + x.len() - 1] == x.last());
        lemma_trim_keeps(s, k + x.len() - 1);
    }
    assert(t == trim(s));
    assert(k + x.len() <= trim(s).len());
    assert(t =~= s.take(trim(s).len() as int));
    assert(t.subrange(k, k + x.len()) =~= s.subrange(k, k + x.len()));
}


/// A non-empty `listblock` answer opens with its heading, which counts the blocked
/// contacts.
pub proof fn law_blocklist_counts(jids: Seq<Seq<char>>)
    requires
        jids.len() > 0,
    ensures
        ({
            let heading = "*Daftar Blokir ("@ + crate::text::decimal(jids.len()) + ")*"@;
            heading.len() <= blocklist_text(jids).len() && blocklist_text(jids).take(
                heading.len() as int,
            ) == heading
        }),
{
    reveal_strlit("*Daftar Blokir (");
    reveal_strlit(")*");
    reveal_strlit(")*\n\n");
    let heading = "*Daftar Blokir ("@ + crate::text::decimal(jids.len()) + ")*"@;
    let s = blocklist_untrimmed(jids);
    assert(s =~= heading + "\n\n"@ + block_lines(jids)) by {
        reveal_strlit("\n\n");
    }
    assert(s[0] == '*');
    assert(s[heading.len() - 1] == '*');
    lemma_trim_keeps(s, heading.len() - 1);
    assert(blocklist_text(jids) == trim(s));
    assert(blocklist_text(jids).take(heading.len() as int) =~= heading);
}

/// The `set` command names its setting by its first argument, in any case, and needs a
/// value after it: `mode`; `prefixes` or `prefix`; `warmup`; `autoread`; `show_online`.
pub proof fn law_set_keys(args: Seq<Seq<char>>)
    ensures
        args.len() < 2 ==> set_key(args) is None,
        args.len() >= 2 ==> {
            let key = lowercase(args[0]);
            &&& (set_key(args) == Some(ConfigKey::Mode) <==> key == "mode"@)
            &&& (set_key(args) == Some(ConfigKey::Prefixes) <==> (key == "prefixes"@ || key
                == "prefix"@))
            &&& (set_key(args) == Some(ConfigKey::Warmup) <==> key == "warmup"@)
            &&& (set_key(args) == Some(ConfigKey::Autoread) <==> key == "autoread"@)
            &&& (set_key(args) == Some(ConfigKey::ShowOnline) <==> key == "show_online"@)
        },
{
    reveal_strlit("mode");
    reveal_strlit("prefixes");
    reveal_strlit("prefix");
    reveal_strlit("warmup");
    reveal_strlit("autoread");
    reveal_strlit("show_online");
    if args.len() >= 2 {
        let key = lowercase(args[0]);
        assert("mode"@ != "prefixes"@ && "mode"@ != "prefix"@ && "mode"@ != "warmup"@
            && "mode"@ != "autoread"@ && "mode"@ != "show_online"@) by {
            assert("mode"@.len() != "prefixes"@.len());
            assert("mode"@.len() != "prefix"@.len());
            assert("mode"@.len() != "warmup"@.len());
            assert("mode"@.len() != "autoread"@.len());
            assert("mode"@.len() != "show_online"@.len());
        }
        assert("prefixes"@ != "warmup"@ && "prefixes"@ != "autoread"@ && "prefixes"@
            != "show_online"@ && "prefix"@ != "warmup"@ && "prefix"@ != "autoread"@ && "prefix"@
            != "show_online"@ && "warmup"@ != "autoread"@ && "warmup"@ != "show_online"@
            && "autoread"@ != "show_online"@) by {
            assert("prefixes"@[0] != "warmup"@[0]);
            assert("prefixes"@[0] != "autoread"@[0]);
            assert("prefixes"@[0] != "show_online"@[0]);
            assert("prefix"@[0] != "warmup"@[0]);
            assert("prefix"@[0] != "autoread"@[0]);
            assert("prefix"@[0] != "show_online"@[0]);
            assert("warmup"@[0] != "autoread"@[0]);
            assert("warmup"@[0] != "show_online"@[0]);
            assert("autoread"@[0] != "show_online"@[0]);
        }
    }
}

/// The value a `set` command gives is its arguments after the setting's name, joined by
/// single spaces; the prefixes it lists are each non-empty.
pub proof fn law_set_value(args: Seq<Seq<char>>)
    requires
        args.len() >= 2,
    ensures
        args.len() == 2 ==> set_text(args) == args[1],
        forall|i: int| 0 <= i < prefix_list(set_text(args)).len() ==> (#[trigger] prefix_list(
            set_text(args),
        )[i]).len() > 0,
{
    if args.len() == 2 {
        assert(args.skip(1) =~= seq![args[1]]);
    }
    lemma_drop_empty_keeps(
        split(set_text(args), Delim::Char(',')).map_values(|p: Seq<char>| trim(p)),
    );
}

} // verus!
