//! The bot's live state: its settings, a small cache, and each chat's disappearing
//! message timer.
use vstd::prelude::*;
use dashmap::DashMap;
use crate::config::{
    AppConfig, AutoreadMode, BotMode, WarmupMode, autoread_from_text, warmup_from_text,
};
use crate::store::{
    TrackedEntry, cache_contains, cache_contents, cache_insert, cache_is_empty, cache_new,
    cache_remove, expiration_contents, expirations_get, expirations_insert, expirations_len,
    expirations_new, expirations_remove, expirations_touches, sort_by_touch,
};
use crate::text::{clone_strings, lowercase, text_is, to_lowercase};

verus! {

/// The most chats whose timers are kept; a sweep forgets the least recently touched ones
/// beyond this.
pub const MAX_TRACKED_ENTRIES: usize = 20000;

/// A setting that can be changed while the bot runs.
#[derive(Clone, Copy, Debug, PartialEq, Eq, Structural)]
pub enum ConfigKey {
    Mode,
    Prefixes,
    Warmup,
    Autoread,
    ShowOnline,
}

/// A new value for a setting.
pub enum ConfigValue {
    Text(String),
    List(Vec<String>),
    Bool(bool),
}

/// The bot's live state.
pub struct AppState {
    /// Texts the bot remembers between messages.
    cache: DashMap<String, String>,
    /// Each chat's disappearing-message timer, with the tick of its last touch.
    expirations: DashMap<String, TrackedEntry<u32>>,
    /// The tick the next touch gets.
    touch_counter: u64,
    /// The configuration the bot started with.
    config: AppConfig,
    mode: BotMode,
    prefixes: Vec<String>,
    warmup: WarmupMode,
    autoread: AutoreadMode,
    show_online: bool,
}

/// The timer a chat has in an expiration map, 0 where it has none.
pub open spec fn timer_of(m: Map<Seq<char>, (u32, u64)>, jid: Seq<char>) -> u32 {
    if m.contains_key(jid) {
        m[jid].0
    } else {
        0
    }
}

/// `m` after chat `jid` is read at tick `tick`: a known chat keeps its timer and takes
/// the tick; an unknown one stays unknown.
pub open spec fn touched(m: Map<Seq<char>, (u32, u64)>, jid: Seq<char>, tick: u64) -> Map<
    Seq<char>,
    (u32, u64),
> {
    if m.contains_key(jid) {
        m.insert(jid, (m[jid].0, tick))
    } else {
        m
    }
}

/// Every touch in `m` is older than `clock`.
pub open spec fn touched_before(m: Map<Seq<char>, (u32, u64)>, clock: u64) -> bool {
    forall|k: Seq<char>| #[trigger] m.contains_key(k) ==> m[k].1 < clock
}

/// The tick after `clock`; it wraps round to 0 after the largest one.
pub open spec fn next_tick(clock: u64) -> u64 {
    if clock == u64::MAX {
        0
    } else {
        (clock + 1) as u64
    }
}

/// What a sweep leaves of `before`: all of it while it holds at most
/// `MAX_TRACKED_ENTRIES` chats; otherwise exactly that many of its chats, unchanged,
/// none of which was touched before a chat that was dropped.
pub open spec fn swept(before: Map<Seq<char>, (u32, u64)>, after: Map<Seq<char>, (u32, u64)>) -> bool {
    if before.len() <= MAX_TRACKED_ENTRIES {
        after == before
    } else {
        &&& after.len() == MAX_TRACKED_ENTRIES
        &&& after.dom().subset_of(before.dom())
        &&& forall|k: Seq<char>| #[trigger] after.contains_key(k) ==> after[k] == before[k]
        &&& forall|gone: Seq<char>, kept: Seq<char>|
            before.contains_key(gone) && !after.contains_key(gone) && #[trigger] after.contains_key(kept)
                ==> #[trigger] before[gone].1 <= before[kept].1
    }
}

/// Facts about the touches of `m` once sorted: each pair is a chat of `m` with its own
/// touch, each chat comes once, and every chat comes.
proof fn lemma_sorted_touches(
    m: Map<Seq<char>, (u32, u64)>,
    listed: Seq<(String, u64)>,
    sorted: Seq<(String, u64)>,
)
    requires
        listed.len() == m.len(),
        forall|i: int|
            0 <= i < listed.len() ==> m.contains_key((#[trigger] listed[i]).0@) && m[listed[i].0@].1
                == listed[i].1,
        forall|i: int, j: int|
            0 <= i < j < listed.len() ==> (#[trigger] listed[i]).0@ != (#[trigger] listed[j]).0@,
        forall|k: Seq<char>|
            m.contains_key(k) ==> exists|i: int| 0 <= i < listed.len() && (#[trigger] listed[i]).0@ == k,
        sorted.to_multiset() == listed.to_multiset(),
    ensures
        sorted.len() == m.len(),
        forall|i: int|
            0 <= i < sorted.len() ==> m.contains_key((#[trigger] sorted[i]).0@) && m[sorted[i].0@].1
                == sorted[i].1,
        forall|i: int, j: int|
            0 <= i < sorted.len() && 0 <= j < sorted.len() && i != j ==> (#[trigger] sorted[i]).0@
                != (#[trigger] sorted[j]).0@,
        forall|k: Seq<char>|
            m.contains_key(k) ==> exists|i: int| 0 <= i < sorted.len() && (#[trigger] sorted[i]).0@ == k,
{
    broadcast use vstd::seq_lib::group_to_multiset_ensures;

    vstd::seq_lib::to_multiset_len(sorted);
    vstd::seq_lib::to_multiset_len(listed);
    assert forall|i: int| 0 <= i < sorted.len() implies exists|j: int|
        0 <= j < listed.len() && listed[j] == #[trigger] sorted[i] by {
        assert(sorted.contains(sorted[i]));
        assert(sorted.to_multiset().count(sorted[i]) > 0);
        assert(listed.contains(sorted[i]));
    }
    assert forall|i: int|
        0 <= i < sorted.len() implies m.contains_key((#[trigger] sorted[i]).0@) && m[sorted[i].0@].1
        == sorted[i].1 by {
        let j = choose|j: int| 0 <= j < listed.len() && listed[j] == sorted[i];
        assert(listed[j] == sorted[i]);
    }
    assert(listed.no_duplicates()) by {
        assert forall|i: int, j: int|
            0 <= i < listed.len() && 0 <= j < listed.len() && i != j implies listed[i] != listed[j] by {
            if i < j {
                assert(listed[i].0@ != listed[j].0@);
            } else {
                assert(listed[j].0@ != listed[i].0@);
            }
        }
    }
    listed.lemma_multiset_has_no_duplicates();
    sorted.lemma_multiset_has_no_duplicates_conv();
    assert forall|i: int, j: int|
        0 <= i < sorted.len() && 0 <= j < sorted.len() && i != j implies (#[trigger] sorted[i]).0@
        != (#[trigger] sorted[j]).0@ by {
        let a = choose|a: int| 0 <= a < listed.len() && listed[a] == sorted[i];
        let b = choose|b: int| 0 <= b < listed.len() && listed[b] == sorted[j];
        if sorted[i].0@ == sorted[j].0@ {
            if a < b {
                assert(listed[a].0@ != listed[b].0@);
            } else if b < a {
                assert(listed[b].0@ != listed[a].0@);
            }
            assert(sorted[i] == sorted[j]);
        }
    }
    assert forall|k: Seq<char>| m.contains_key(k) implies exists|i: int|
        0 <= i < sorted.len() && (#[trigger] sorted[i]).0@ == k by {
        let j = choose|j: int| 0 <= j < listed.len() && (#[trigger] listed[j]).0@ == k;
        assert(listed.contains(listed[j]));
        assert(listed.to_multiset().count(listed[j]) > 0);
        assert(sorted.contains(listed[j]));
        let i = choose|i: int| 0 <= i < sorted.len() && sorted[i] == listed[j];
        assert(sorted[i].0@ == k);
    }
}

/// Whether chat `k` is among the first `i` of `sorted`.
spec fn among_first(sorted: Seq<(String, u64)>, i: int, k: Seq<char>) -> bool {
    exists|j: int| 0 <= j < i && (#[trigger] sorted[j]).0@ == k
}

impl AppState {
    /// The configuration the state started with.
    pub closed spec fn start_config(&self) -> AppConfig {
        self.config
    }

    /// Who the bot answers.
    pub closed spec fn mode_view(&self) -> BotMode {
        self.mode
    }

    /// The texts a command may begin with.
    pub closed spec fn prefixes_view(&self) -> Seq<String> {
        self.prefixes@
    }

    /// Whether ordinary messages are warmed up.
    pub closed spec fn warmup_view(&self) -> WarmupMode {
        self.warmup
    }

    /// Which messages are marked as read.
    pub closed spec fn autoread_view(&self) -> AutoreadMode {
        self.autoread
    }

    /// Whether the account shows itself online.
    pub closed spec fn show_online_view(&self) -> bool {
        self.show_online
    }

    /// Every chat was touched before the clock's current tick, so the chat touched last
    /// holds the largest touch.
    pub open spec fn ordered(&self) -> bool {
        touched_before(self.expirations_view(), self.clock())
    }

    /// The chats' timers, each with the tick at which it was last touched.
    pub closed spec fn expirations_view(&self) -> Map<Seq<char>, (u32, u64)> {
        expiration_contents(self.expirations)
    }

    /// What the cache holds.
    pub closed spec fn cache_view(&self) -> Map<Seq<char>, Seq<char>> {
        cache_contents(self.cache)
    }

    /// The tick the next touch will get.
    pub closed spec fn clock(&self) -> u64 {
        self.touch_counter
    }

    /// Both maps hold finitely many keys.
    pub open spec fn wf(&self) -> bool {
        &&& self.expirations_view().dom().finite()
        &&& self.cache_view().dom().finite()
    }

    /// `other` has the same configuration, settings and cache as `self`.
    pub open spec fn same_settings(&self, other: &AppState) -> bool {
        &&& other.start_config() == self.start_config()
        &&& other.mode_view() == self.mode_view()
        &&& other.prefixes_view() == self.prefixes_view()
        &&& other.warmup_view() == self.warmup_view()
        &&& other.autoread_view() == self.autoread_view()
        &&& other.show_online_view() == self.show_online_view()
        &&& other.cache_view() == self.cache_view()
    }

    /// A fresh state whose settings are those of `config`.
    pub fn new(config: AppConfig) -> (state: AppState)
        ensures
            state.wf(),
            state.expirations_view() =~= Map::empty(),
            state.cache_view() =~= Map::empty(),
            state.clock() == 0,
            state.ordered(),
            state.start_config() == config,
            state.mode_view() == config.mode,
            state.prefixes_view() == config.prefixes@,
            state.warmup_view() == config.warmup,
            state.autoread_view() == config.autoread,
            state.show_online_view() == config.show_online,
    {
        let prefixes = clone_strings(&config.prefixes);
        AppState {
            cache: cache_new(),
            expirations: expirations_new(),
            touch_counter: 0,
            mode: config.mode,
            prefixes,
            warmup: config.warmup,
            autoread: config.autoread,
            show_online: config.show_online,
            config,
        }
    }

    /// Hands out the current tick and moves the clock on.
    fn next_touch(&mut self) -> (tick: u64)
        ensures
            tick == old(self).clock(),
            final(self).clock() == next_tick(old(self).clock()),
            final(self).expirations == old(self).expirations,
            final(self).cache == old(self).cache,
            final(self).config == old(self).config,
            final(self).mode == old(self).mode,
            final(self).prefixes == old(self).prefixes,
            final(self).warmup == old(self).warmup,
            final(self).autoread == old(self).autoread,
            final(self).show_online == old(self).show_online,
    {
        let tick = self.touch_counter;
        self.touch_counter = self.touch_counter.wrapping_add(1);
        tick
    }

    /// Records the disappearing-message timer of chat `jid`, touching it.
    pub fn set_expiration(&mut self, jid: String, seconds: u32)
        requires
            old(self).wf(),
        ensures
            final(self).wf(),
            final(self).expirations_view() == old(self).expirations_view().insert(
                jid@,
                (seconds, old(self).clock()),
            ),
            final(self).clock() == next_tick(old(self).clock()),
            old(self).same_settings(&*final(self)),
            old(self).ordered() ==> forall|k: Seq<char>|
                #[trigger] final(self).expirations_view().contains_key(k) && k != jid@
                    ==> final(self).expirations_view()[k].1 < final(self).expirations_view()[jid@].1,
            old(self).ordered() && old(self).clock() < u64::MAX ==> final(self).ordered(),
    {
        let tick = self.next_touch();
        expirations_insert(&mut self.expirations, jid, TrackedEntry { value: seconds, last_touch: tick });
    }

    /// The disappearing-message timer of chat `jid`, 0 where none is known; a known chat
    /// is touched.
    pub fn get_expiration(&mut self, jid: &str) -> (seconds: u32)
        requires
            old(self).wf(),
        ensures
            final(self).wf(),
            seconds == timer_of(old(self).expirations_view(), jid@),
            final(self).expirations_view() == touched(
                old(self).expirations_view(),
                jid@,
                old(self).clock(),
            ),
            final(self).clock() == next_tick(old(self).clock()),
            old(self).same_settings(&*final(self)),
            old(self).ordered() && old(self).expirations_view().contains_key(jid@) ==> forall|
                k: Seq<char>,
            |
                #[trigger] final(self).expirations_view().contains_key(k) && k != jid@
                    ==> final(self).expirations_view()[k].1 < final(self).expirations_view()[jid@].1,
            old(self).ordered() && old(self).clock() < u64::MAX ==> final(self).ordered(),
    {
        let tick = self.next_touch();
        match expirations_get(&self.expirations, jid) {
            Some(entry) => {
                let value = entry.value;
                expirations_insert(
                    &mut self.expirations,
                    jid.to_owned(),
                    TrackedEntry { value, last_touch: tick },
                );
                value
            },
            None => 0,
        }
    }
}


impl AppState {
    /// Forgets the least recently touched chats beyond `MAX_TRACKED_ENTRIES`.
    pub fn evict_stale_expirations(&mut self)
        requires
            old(self).wf(),
        ensures
            final(self).wf(),
            swept(old(self).expirations_view(), final(self).expirations_view()),
            final(self).clock() == old(self).clock(),
            old(self).ordered() ==> final(self).ordered(),
            old(self).same_settings(&*final(self)),
    {
        let len = expirations_len(&self.expirations);
        if len <= MAX_TRACKED_ENTRIES {
            return;
        }
        let overflow = len - MAX_TRACKED_ENTRIES;
        let ghost m = self.expirations_view();
        let mut touches = expirations_touches(&self.expirations);
        let ghost listed = touches@;
        sort_by_touch(&mut touches);
        let ghost sorted = touches@;
        proof {
            lemma_sorted_touches(m, listed, sorted);
        }
        let mut i: usize = 0;
        while i < overflow
            invariant
                0 <= i <= overflow,
                overflow == m.len() - MAX_TRACKED_ENTRIES,
                touches@ == sorted,
                sorted.len() == m.len(),
                m.dom().finite(),
                forall|a: int|
                    0 <= a < sorted.len() ==> m.contains_key((#[trigger] sorted[a]).0@)
                        && m[sorted[a].0@].1 == sorted[a].1,
                forall|a: int, b: int|
                    0 <= a < sorted.len() && 0 <= b < sorted.len() && a != b
                        ==> (#[trigger] sorted[a]).0@ != (#[trigger] sorted[b]).0@,
                self.expirations_view().dom().finite(),
                self.expirations_view().len() == m.len() - i,
                forall|k: Seq<char>|
                    #[trigger] self.expirations_view().contains_key(k) <==> (m.contains_key(k)
                        && !among_first(sorted, i as int, k)),
                forall|k: Seq<char>|
                    #[trigger] self.expirations_view().contains_key(k) ==> self.expirations_view()[k]
                        == m[k],
                self.clock() == old(self).clock(),
                old(self).same_settings(&*self),
            decreases overflow - i,
        {
            let ghost before = self.expirations_view();
            let ghost key = sorted[i as int].0@;
            assert(!among_first(sorted, i as int, key)) by {
                if among_first(sorted, i as int, key) {
                    let j = choose|j: int| 0 <= j < i && (#[trigger] sorted[j]).0@ == key;
                    assert(sorted[j].0@ != sorted[i as int].0@);
                }
            }
            assert(before.contains_key(key));
            expirations_remove(&mut self.expirations, touches[i].0.as_str());
            assert(self.expirations_view().dom() =~= before.dom().remove(key));
            assert forall|k: Seq<char>|
                #[trigger] self.expirations_view().contains_key(k) <==> (m.contains_key(k)
                    && !among_first(sorted, i + 1, k)) by {
                if among_first(sorted, i + 1, k) && k != key {
                    let j = choose|j: int| 0 <= j < i + 1 && (#[trigger] sorted[j]).0@ == k;
                    assert(among_first(sorted, i as int, k));
                }
                if k == key {
                    assert(sorted[i as int].0@ == k);
                    assert(among_first(sorted, i + 1, k));
                }
                if among_first(sorted, i as int, k) {
                    let j = choose|j: int| 0 <= j < i && (#[trigger] sorted[j]).0@ == k;
                    assert(among_first(sorted, i + 1, k));
                }
            }
            i = i + 1;
        }
        proof {
            let after = self.expirations_view();
            assert(after.dom().subset_of(m.dom()));
            assert forall|gone: Seq<char>, kept: Seq<char>|
                m.contains_key(gone) && !after.contains_key(gone) && #[trigger] after.contains_key(kept)
                    implies #[trigger] m[gone].1 <= m[kept].1 by {
                let j = choose|j: int| 0 <= j < overflow && (#[trigger] sorted[j]).0@ == gone;
                let l = choose|l: int| 0 <= l < sorted.len() && (#[trigger] sorted[l]).0@ == kept;
                if l < overflow {
                    assert(among_first(sorted, overflow as int, kept));
                }
                assert(sorted[j].1 <= sorted[l].1);
            }
        }
    }
}


/// The mode a setting text names: `self` in any case, otherwise public.
pub open spec fn mode_from_text(t: Seq<char>) -> BotMode {
    if lowercase(t) == "self"@ {
        BotMode::SelfMode
    } else {
        BotMode::Public
    }
}

/// Whether a value has the type its setting takes.
pub open spec fn value_fits(key: ConfigKey, value: ConfigValue) -> bool {
    match (key, value) {
        (ConfigKey::Mode, ConfigValue::Text(_)) => true,
        (ConfigKey::Prefixes, ConfigValue::List(_)) => true,
        (ConfigKey::Warmup, ConfigValue::Text(_)) => true,
        (ConfigKey::Autoread, ConfigValue::Text(_)) => true,
        (ConfigKey::ShowOnline, ConfigValue::Bool(_)) => true,
        _ => false,
    }
}

/// The message a setting is refused with when its value has the wrong type.
pub open spec fn wrong_type_message() -> Seq<char> {
    "invalid datatype for this field"@
}

impl AppState {
    /// Who the bot answers.
    pub fn get_mode(&self) -> (mode: BotMode)
        ensures
            mode == self.mode_view(),
    {
        self.mode
    }

    /// The texts a command may begin with.
    pub fn get_prefixes(&self) -> (prefixes: Vec<String>)
        ensures
            prefixes@ == self.prefixes_view(),
    {
        clone_strings(&self.prefixes)
    }

    /// Whether ordinary messages are warmed up.
    pub fn get_warmup(&self) -> (warmup: WarmupMode)
        ensures
            warmup == self.warmup_view(),
    {
        self.warmup
    }

    /// Which messages are marked as read.
    pub fn get_autoread(&self) -> (autoread: AutoreadMode)
        ensures
            autoread == self.autoread_view(),
    {
        self.autoread
    }

    /// Whether the account shows itself online.
    pub fn get_show_online(&self) -> (show: bool)
        ensures
            show == self.show_online_view(),
    {
        self.show_online
    }

    /// Remembers `value` under `key`.
    pub fn set_cache(&mut self, key: &str, value: &str)
        requires
            old(self).wf(),
        ensures
            final(self).wf(),
            final(self).cache_view() == old(self).cache_view().insert(key@, value@),
            final(self).expirations_view() == old(self).expirations_view(),
            final(self).clock() == old(self).clock(),
            final(self).start_config() == old(self).start_config(),
            final(self).mode_view() == old(self).mode_view(),
            final(self).prefixes_view() == old(self).prefixes_view(),
            final(self).warmup_view() == old(self).warmup_view(),
            final(self).autoread_view() == old(self).autoread_view(),
            final(self).show_online_view() == old(self).show_online_view(),
    {
        cache_insert(&mut self.cache, key.to_owned(), value.to_owned());
    }

    /// Whether something is remembered under `key`.
    pub fn has_cache(&self, key: &str) -> (found: bool)
        ensures
            found == self.cache_view().contains_key(key@),
    {
        cache_contains(&self.cache, key)
    }

    /// Forgets what is remembered under `key`.
    pub fn del_cache(&mut self, key: &str)
        requires
            old(self).wf(),
        ensures
            final(self).wf(),
            final(self).cache_view() == old(self).cache_view().remove(key@),
            final(self).expirations_view() == old(self).expirations_view(),
            final(self).clock() == old(self).clock(),
            final(self).start_config() == old(self).start_config(),
            final(self).mode_view() == old(self).mode_view(),
            final(self).prefixes_view() == old(self).prefixes_view(),
            final(self).warmup_view() == old(self).warmup_view(),
            final(self).autoread_view() == old(self).autoread_view(),
            final(self).show_online_view() == old(self).show_online_view(),
    {
        cache_remove(&mut self.cache, key);
    }

    /// Whether nothing at all is remembered.
    pub fn cache_is_empty(&self) -> (empty: bool)
        ensures
            empty == (self.cache_view().dom() =~= Set::empty()),
    {
        cache_is_empty(&self.cache)
    }

    /// Changes one setting. A value of the wrong type for its setting is refused, and
    /// nothing changes.
    pub fn set_config(&mut self, key: ConfigKey, value: ConfigValue) -> (r: Result<(), &'static str>)
        requires
            old(self).wf(),
        ensures
            final(self).wf(),
            r is Ok <==> value_fits(key, value),
            r matches Err(msg) ==> msg@ == wrong_type_message(),
            final(self).expirations_view() == old(self).expirations_view(),
            final(self).clock() == old(self).clock(),
            final(self).cache_view() == old(self).cache_view(),
            final(self).start_config() == old(self).start_config(),
            final(self).mode_view() == match (key, value) {
                (ConfigKey::Mode, ConfigValue::Text(t)) => mode_from_text(t@),
                _ => old(self).mode_view(),
            },
            final(self).prefixes_view() == match (key, value) {
                (ConfigKey::Prefixes, ConfigValue::List(v)) => v@,
                _ => old(self).prefixes_view(),
            },
            final(self).warmup_view() == match (key, value) {
                (ConfigKey::Warmup, ConfigValue::Text(t)) => warmup_from_text(t@),
                _ => old(self).warmup_view(),
            },
            final(self).autoread_view() == match (key, value) {
                (ConfigKey::Autoread, ConfigValue::Text(t)) => autoread_from_text(t@),
                _ => old(self).autoread_view(),
            },
            final(self).show_online_view() == match (key, value) {
                (ConfigKey::ShowOnline, ConfigValue::Bool(b)) => b,
                _ => old(self).show_online_view(),
            },
    {
        match (key, value) {
            (ConfigKey::Mode, ConfigValue::Text(val)) => {
                let l = to_lowercase(val.as_str());
                self.mode = if text_is(&l, "self") {
                    BotMode::SelfMode
                } else {
                    BotMode::Public
                };
                Ok(())
            },
            (ConfigKey::Prefixes, ConfigValue::List(val)) => {
                self.prefixes = val;
                Ok(())
            },
            (ConfigKey::Warmup, ConfigValue::Text(val)) => {
                self.warmup = WarmupMode::from(val.as_str());
                Ok(())
            },
            (ConfigKey::Autoread, ConfigValue::Text(val)) => {
                self.autoread = AutoreadMode::from(val.as_str());
                Ok(())
            },
            (ConfigKey::ShowOnline, ConfigValue::Bool(val)) => {
                self.show_online = val;
                Ok(())
            },
            _ => Err("invalid datatype for this field"),
        }
    }

    /// The configuration as it stands now: the starting one with the current settings.
    pub fn snapshot_config(&self) -> (c: AppConfig)
        ensures
            c.phone_number == self.start_config().phone_number,
            c.superuser@ == self.start_config().superuser@,
            c.custom_code == self.start_config().custom_code,
            c.session_path == self.start_config().session_path,
            c.pairing == self.start_config().pairing,
            c.debug_dump == self.start_config().debug_dump,
            c.warmup == self.warmup_view(),
            c.autoread == self.autoread_view(),
            c.show_online == self.show_online_view(),
            c.mode == self.mode_view(),
            c.prefixes@ == self.prefixes_view(),
    {
        AppConfig {
            phone_number: self.config.phone_number.clone(),
            superuser: clone_strings(&self.config.superuser),
            custom_code: self.config.custom_code.clone(),
            session_path: self.config.session_path.clone(),
            pairing: self.config.pairing,
            warmup: self.warmup,
            autoread: self.autoread,
            show_online: self.show_online,
            debug_dump: self.config.debug_dump,
            mode: self.mode,
            prefixes: clone_strings(&self.prefixes),
        }
    }
}

} // verus!
