//! Routing records: the models a provider serves and its weighted channels.
use vstd::prelude::*;
use crate::text::{chars_of, string_of};
use crate::users::string_views;
use crate::transforms::TransformRuleConfig;

verus! {

/// One model a provider serves: an optional upstream redirect and the
/// provider's price multiplier in nano units (10^9 = 1.0).
#[derive(Clone, Debug)]
pub struct MonoizeModelEntry {
    pub redirect: Option<String>,
    pub multiplier_nano: i128,
}

/// One upstream endpoint of a provider.
#[derive(Debug)]
pub struct MonoizeChannel {
    pub id: String,
    pub name: String,
    pub base_url: String,
    pub api_key: String,
    pub weight: i32,
    pub enabled: bool,
    pub passive_failure_count_threshold_override: Option<u32>,
    pub passive_cooldown_seconds_override: Option<u64>,
    pub passive_window_seconds_override: Option<u64>,
    pub passive_rate_limit_cooldown_seconds_override: Option<u64>,
}

impl Clone for MonoizeChannel {
    fn clone(&self) -> (r: Self)
        ensures
            r == *self,
    {
        MonoizeChannel {
            id: self.id.clone(),
            name: self.name.clone(),
            base_url: self.base_url.clone(),
            api_key: self.api_key.clone(),
            weight: self.weight,
            enabled: self.enabled,
            passive_failure_count_threshold_override: self.passive_failure_count_threshold_override,
            passive_cooldown_seconds_override: self.passive_cooldown_seconds_override,
            passive_window_seconds_override: self.passive_window_seconds_override,
            passive_rate_limit_cooldown_seconds_override: self.passive_rate_limit_cooldown_seconds_override,
        }
    }
}

/// A provider as the router reads it: whether it is enabled, the models it
/// serves (each model name once), its channels, how many of them one request
/// may try (`-1`: all), and the transform rules it applies.
#[derive(Debug)]
pub struct MonoizeProvider {
    pub id: String,
    pub name: String,
    pub provider_type: MonoizeProviderType,
    pub models: Vec<(String, MonoizeModelEntry)>,
    pub channels: Vec<MonoizeChannel>,
    pub max_retries: i32,
    pub transforms: Vec<TransformRuleConfig>,
    pub enabled: bool,
}

/// The upstream API families a provider can be configured with.
#[derive(Clone, Copy, Debug, PartialEq, Eq, Structural)]
pub enum MonoizeProviderType {
    Responses,
    ChatCompletion,
    Messages,
    Gemini,
    Grok,
    Replicate,
}


/// The passive health record of one channel: whether it is healthy, how many
/// retryable failures came in a row, and until when an unhealthy channel
/// rests (Unix seconds).
#[derive(Clone, Copy, Debug, PartialEq, Eq, Structural)]
pub struct ChannelHealthState {
    pub healthy: bool,
    pub failure_count: u32,
    pub cooldown_until: Option<i64>,
    pub last_success_at: Option<i64>,
    pub probe_success_count: u32,
    pub last_probe_at: Option<i64>,
}

/// The record of a channel nothing is known of: healthy, no failures.
pub open spec fn fresh_health() -> ChannelHealthState {
    ChannelHealthState {
        healthy: true,
        failure_count: 0,
        cooldown_until: None,
        last_success_at: None,
        probe_success_count: 0,
        last_probe_at: None,
    }
}

/// The record after a successful call at `now`: healthy again, the failure
/// streak and any cooldown cleared.
pub open spec fn after_success(s: ChannelHealthState, now: i64) -> ChannelHealthState {
    ChannelHealthState {
        healthy: true,
        failure_count: 0,
        cooldown_until: None,
        last_success_at: Some(now),
        probe_success_count: 0,
        last_probe_at: None,
    }
}

/// `n + 1`, saturating at `u32::MAX`.
pub open spec fn saturating_inc(n: u32) -> u32 {
    if n == u32::MAX {
        n
    } else {
        (n + 1) as u32
    }
}

/// The record after a retryable failure at `now`: the streak grows by one,
/// and once it reaches `threshold` the channel turns unhealthy and rests for
/// `cooldown_seconds`.
pub open spec fn after_retryable_failure(
    s: ChannelHealthState,
    now: i64,
    threshold: u32,
    cooldown_seconds: u64,
) -> ChannelHealthState {
    let n = saturating_inc(s.failure_count);
    if n >= threshold {
        ChannelHealthState {
            healthy: false,
            failure_count: n,
            cooldown_until: Some((now + cooldown_seconds) as i64),
            last_success_at: s.last_success_at,
            probe_success_count: 0,
            last_probe_at: None,
        }
    } else {
        ChannelHealthState { failure_count: n, ..s }
    }
}

/// Whether a channel in state `s` may be tried at `now`: it is healthy, or
/// its cooldown has run out (or it has none).
pub open spec fn is_candidate(s: ChannelHealthState, now: i64) -> bool {
    s.healthy || match s.cooldown_until {
        Some(until) => now >= until,
        None => true,
    }
}

impl ChannelHealthState {
    /// A healthy record with no failures.
    pub fn new() -> (r: Self)
        ensures
            r == fresh_health(),
    {
        ChannelHealthState {
            healthy: true,
            failure_count: 0,
            cooldown_until: None,
            last_success_at: None,
            probe_success_count: 0,
            last_probe_at: None,
        }
    }

    /// Records a successful call at `now`; tells whether the channel was
    /// unhealthy before.
    pub fn mark_success(&mut self, now: i64) -> (was_unhealthy: bool)
        ensures
            *final(self) == after_success(*old(self), now),
            was_unhealthy == !old(self).healthy,
    {
        let was_unhealthy = !self.healthy;
        self.healthy = true;
        self.failure_count = 0;
        self.cooldown_until = None;
        self.last_success_at = Some(now);
        self.probe_success_count = 0;
        self.last_probe_at = None;
        was_unhealthy
    }

    /// Records a retryable failure at `now`; tells whether the streak reached
    /// `threshold`, so that the channel now rests.
    pub fn mark_retryable_failure(&mut self, now: i64, threshold: u32, cooldown_seconds: u64) -> (tripped: bool)
        requires
            cooldown_seconds <= i64::MAX,
            now + cooldown_seconds <= i64::MAX,
        ensures
            *final(self) == after_retryable_failure(*old(self), now, threshold, cooldown_seconds),
            tripped == (saturating_inc(old(self).failure_count) >= threshold),
    {
        self.failure_count = self.failure_count.saturating_add(1);
        if self.failure_count >= threshold {
            self.healthy = false;
            self.cooldown_until = Some(now + cooldown_seconds as i64);
            self.probe_success_count = 0;
            self.last_probe_at = None;
            true
        } else {
            false
        }
    }

    /// Whether the channel may be tried at `now`.
    pub fn is_candidate_at(&self, now: i64) -> (r: bool)
        ensures
            r == is_candidate(*self, now),
    {
        if self.healthy {
            true
        } else {
            match self.cooldown_until {
                Some(until) => now >= until,
                None => true,
            }
        }
    }
}


/// Whether an active probe of a channel in state `s` is due at `now`: only
/// unhealthy channels whose cooldown has run out (or that have none) are
/// probed, and then once `interval_seconds` have passed since the last probe.
pub open spec fn probe_due(s: ChannelHealthState, now: i64, interval_seconds: u64) -> bool {
    let cooldown_elapsed = if s.healthy {
        false
    } else {
        match s.cooldown_until {
            Some(until) => now >= until,
            None => true,
        }
    };
    if !cooldown_elapsed {
        false
    } else {
        match s.last_probe_at {
            Some(t) => saturating_diff(now, t) >= (interval_seconds as i64),
            None => true,
        }
    }
}

/// `a - b`, saturating at the bounds of `i64`.
pub open spec fn saturating_diff(a: i64, b: i64) -> int {
    if a - b > i64::MAX {
        i64::MAX as int
    } else if a - b < i64::MIN {
        i64::MIN as int
    } else {
        a - b
    }
}

/// The record after an active probe at `now`: a success counts towards
/// `success_threshold` successes, at which the channel is healthy again; a
/// failure keeps it unhealthy and rests it for `cooldown_seconds`.
pub open spec fn after_probe(
    s: ChannelHealthState,
    now: i64,
    ok: bool,
    success_threshold: u32,
    cooldown_seconds: u64,
) -> ChannelHealthState {
    if ok {
        let n = saturating_inc(s.probe_success_count);
        if n >= success_threshold {
            ChannelHealthState {
                healthy: true,
                failure_count: 0,
                cooldown_until: None,
                last_success_at: Some(now),
                probe_success_count: 0,
                last_probe_at: Some(now),
            }
        } else {
            ChannelHealthState { probe_success_count: n, last_probe_at: Some(now), ..s }
        }
    } else {
        ChannelHealthState {
            healthy: false,
            probe_success_count: 0,
            cooldown_until: Some((now + cooldown_seconds) as i64),
            last_probe_at: Some(now),
            ..s
        }
    }
}

impl ChannelHealthState {
    /// Whether an active probe is due at `now`.
    pub fn is_probe_due(&self, now: i64, interval_seconds: u64) -> (r: bool)
        ensures
            r == probe_due(*self, now, interval_seconds),
    {
        let cooldown_elapsed = if self.healthy {
            false
        } else {
            match self.cooldown_until {
                Some(until) => now >= until,
                None => true,
            }
        };
        if !cooldown_elapsed {
            false
        } else {
            match self.last_probe_at {
                Some(t) => {
                    let elapsed = match now.checked_sub(t) {
                        Some(d) => d,
                        None => if t < 0 {
                            i64::MAX
                        } else {
                            i64::MIN
                        },
                    };
                    elapsed >= interval_seconds as i64
                },
                None => true,
            }
        }
    }

    /// Records the result of an active probe at `now`.
    pub fn record_probe(&mut self, now: i64, ok: bool, success_threshold: u32, cooldown_seconds: u64)
        requires
            cooldown_seconds <= i64::MAX,
            now + cooldown_seconds <= i64::MAX,
        ensures
            *final(self) == after_probe(*old(self), now, ok, success_threshold, cooldown_seconds),
    {
        self.last_probe_at = Some(now);
        if ok {
            self.probe_success_count = self.probe_success_count.saturating_add(1);
            if self.probe_success_count >= success_threshold {
                self.healthy = true;
                self.failure_count = 0;
                self.cooldown_until = None;
                self.last_success_at = Some(now);
                self.probe_success_count = 0;
            }
        } else {
            self.healthy = false;
            self.probe_success_count = 0;
            self.cooldown_until = Some(now + cooldown_seconds as i64);
        }
    }
}

/// The health record a table holds for `id`, or a fresh one if it holds none.
pub open spec fn health_of(m: Map<Seq<char>, ChannelHealthState>, id: Seq<char>) -> ChannelHealthState {
    if m.contains_key(id) {
        m[id]
    } else {
        fresh_health()
    }
}

/// Health records by channel id.
pub struct ChannelHealthTable {
    entries: Vec<(String, ChannelHealthState)>,
}

impl ChannelHealthTable {
    /// No channel id occurs twice.
    #[verifier::type_invariant]
    closed spec fn keys_unique(self) -> bool {
        forall|i: int, j: int|
            0 <= i < j < self.entries@.len() ==> #[trigger] self.entries@[i].0@
                != #[trigger] self.entries@[j].0@
    }

    /// Whether some entry is keyed `k`.
    pub closed spec fn has_key(self, k: Seq<char>) -> bool {
        exists|i: int| 0 <= i < self.entries@.len() && #[trigger] self.entries@[i].0@ == k
    }

    /// The records, by channel id.
    pub closed spec fn as_map(self) -> Map<Seq<char>, ChannelHealthState> {
        Map::new(
            |k: Seq<char>| self.has_key(k),
            |k: Seq<char>|
                self.entries@[choose|i: int|
                    0 <= i < self.entries@.len() && #[trigger] self.entries@[i].0@ == k].1,
        )
    }
}

impl View for ChannelHealthTable {
    type V = Map<Seq<char>, ChannelHealthState>;

    open spec fn view(&self) -> Map<Seq<char>, ChannelHealthState> {
        self.as_map()
    }
}

impl ChannelHealthTable {
    /// A table holding no record.
    pub fn new() -> (r: Self)
        ensures
            r@ == Map::<Seq<char>, ChannelHealthState>::empty(),
    {
        let r = ChannelHealthTable { entries: Vec::new() };
        assert(r@ =~= Map::<Seq<char>, ChannelHealthState>::empty());
        r
    }

    fn find(&self, id: &String) -> (r: Option<usize>)
        ensures
            match r {
                Some(i) => i < self.entries@.len() && self.entries@[i as int].0@ == id@,
                None => !self.has_key(id@),
            },
    {
        let mut i: usize = 0;
        while i < self.entries.len()
            invariant
                i <= self.entries@.len(),
                forall|t: int| 0 <= t < i ==> #[trigger] self.entries@[t].0@ != id@,
            decreases self.entries@.len() - i,
        {
            if self.entries[i].0 == *id {
                return Some(i);
            }
            i += 1;
        }
        None
    }

    proof fn lemma_lookup(&self, i: int)
        requires
            self.keys_unique(),
            0 <= i < self.entries@.len(),
        ensures
            self@.contains_key(self.entries@[i].0@),
            self@[self.entries@[i].0@] == self.entries@[i].1,
    {
        let k = self.entries@[i].0@;
        assert(self.has_key(k));
        let j = choose|j: int| 0 <= j < self.entries@.len() && #[trigger] self.entries@[j].0@ == k;
        if j != i {
            if j < i {
                assert(self.entries@[j].0@ != self.entries@[i].0@);
            } else {
                assert(self.entries@[i].0@ != self.entries@[j].0@);
            }
        }
    }

    /// The record held for `id`, or a fresh one.
    pub fn get(&self, id: &str) -> (r: ChannelHealthState)
        ensures
            r == health_of(self@, id@),
    {
        let key = string_of(id);
        match self.find(&key) {
            Some(i) => {
                proof {
                    use_type_invariant(self);
                    self.lemma_lookup(i as int);
                }
                self.entries[i].1
            },
            None => ChannelHealthState::new(),
        }
    }

    /// Stores `state` as the record of `id`.
    pub fn set(&mut self, id: &str, state: ChannelHealthState)
        ensures
            final(self)@ == old(self)@.insert(id@, state),
    {
        proof {
            use_type_invariant(&*self);
        }
        let key = string_of(id);
        let ghost old_t = *self;
        match self.find(&key) {
            Some(i) => {
                let mut entries = Vec::new();
                std::mem::swap(&mut entries, &mut self.entries);
                entries.set(i, (key, state));
                proof {
                    assert forall|a: int, b: int|
                        0 <= a < b < entries@.len() implies #[trigger] entries@[a].0@
                        != #[trigger] entries@[b].0@ by {
                        assert(old_t.entries@[a].0@ != old_t.entries@[b].0@);
                    }
                }
                self.entries = entries;
                proof {
                    use_type_invariant(&*self);
                    assert forall|k: Seq<char>| self@.contains_key(k) <==> old_t@.insert(id@, state).contains_key(k) by {
                        if self.has_key(k) {
                            let j = choose|j: int| 0 <= j < self.entries@.len() && #[trigger] self.entries@[j].0@ == k;
                            if j != i {
                                assert(old_t.entries@[j].0@ == k);
                                assert(old_t.has_key(k));
                            }
                        }
                        if old_t.has_key(k) {
                            let j = choose|j: int| 0 <= j < old_t.entries@.len() && #[trigger] old_t.entries@[j].0@ == k;
                            assert(self.entries@[j].0@ == k);
                        }
                        if k == id@ {
                            assert(self.entries@[i as int].0@ == k);
                        }
                    }
                    assert forall|k: Seq<char>| #[trigger] self@.contains_key(k) implies self@[k] == old_t@.insert(id@, state)[k] by {
                        let j = choose|j: int| 0 <= j < self.entries@.len() && #[trigger] self.entries@[j].0@ == k;
                        self.lemma_lookup(j);
                        if j != i {
                            old_t.lemma_lookup(j);
                        }
                    }
                    assert(self@ =~= old_t@.insert(id@, state));
                }
            },
            None => {
                let mut entries = Vec::new();
                std::mem::swap(&mut entries, &mut self.entries);
                entries.push((key, state));
                proof {
                    let n = old_t.entries@.len() as int;
                    assert forall|a: int, b: int|
                        0 <= a < b < entries@.len() implies #[trigger] entries@[a].0@
                        != #[trigger] entries@[b].0@ by {
                        if b == n {
                            assert(old_t.entries@[a].0@ != id@);
                        } else {
                            assert(old_t.entries@[a].0@ != old_t.entries@[b].0@);
                        }
                    }
                }
                self.entries = entries;
                proof {
                    use_type_invariant(&*self);
                    let n = old_t.entries@.len() as int;
                    assert forall|k: Seq<char>| self@.contains_key(k) <==> old_t@.insert(id@, state).contains_key(k) by {
                        if self.has_key(k) {
                            let j = choose|j: int| 0 <= j < self.entries@.len() && #[trigger] self.entries@[j].0@ == k;
                            if j < n {
                                assert(old_t.entries@[j].0@ == k);
                                assert(old_t.has_key(k));
                            }
                        }
                        if old_t.has_key(k) {
                            let j = choose|j: int| 0 <= j < old_t.entries@.len() && #[trigger] old_t.entries@[j].0@ == k;
                            assert(self.entries@[j].0@ == k);
                        }
                        if k == id@ {
                            assert(self.entries@[n].0@ == k);
                        }
                    }
                    assert forall|k: Seq<char>| #[trigger] self@.contains_key(k) implies self@[k] == old_t@.insert(id@, state)[k] by {
                        let j = choose|j: int| 0 <= j < self.entries@.len() && #[trigger] self.entries@[j].0@ == k;
                        self.lemma_lookup(j);
                        if j < n {
                            old_t.lemma_lookup(j);
                        }
                    }
                    assert(self@ =~= old_t@.insert(id@, state));
                }
            },
        }
    }
}

/// Whether health key `key` belongs to channel `id`: it is the id itself,
/// or the id followed by `::` (and a model).
pub open spec fn belongs_to_channel(key: Seq<char>, id: Seq<char>) -> bool {
    key == id || (key.len() >= id.len() + 2 && key.take(id.len() + 2int) == id + seq![':', ':'])
}

/// Whether health key `key` belongs to one of `ids`.
pub open spec fn belongs_to_any(key: Seq<char>, ids: Seq<Seq<char>>) -> bool {
    exists|i: int| 0 <= i < ids.len() && #[trigger] belongs_to_channel(key, ids[i])
}

fn key_belongs_to(key: &Vec<char>, id: &Vec<char>) -> (r: bool)
    ensures
        r == belongs_to_channel(key@, id@),
{
    let n = id.len();
    if key.len() == n {
        let mut i: usize = 0;
        while i < n
            invariant
                i <= n,
                n == id@.len(),
                key@.len() == n,
                forall|t: int| 0 <= t < i ==> key@[t] == id@[t],
            decreases n - i,
        {
            if key[i] != id[i] {
                proof {
                    assert(key@[i as int] != id@[i as int]);
                }
                return false;
            }
            i += 1;
        }
        proof {
            assert(key@ =~= id@);
        }
        return true;
    }
    if key.len() < 2 || key.len() - 2 < n {
        return false;
    }
    let mut i: usize = 0;
    while i < n
        invariant
            i <= n,
            n == id@.len(),
            key@.len() >= n + 2,
            forall|t: int| 0 <= t < i ==> key@[t] == id@[t],
        decreases n - i,
    {
        if key[i] != id[i] {
            proof {
                assert(key@.take(n + 2)[i as int] != (id@ + seq![':', ':'])[i as int]);
            }
            return false;
        }
        i += 1;
    }
    if key[n] == ':' && key[n + 1] == ':' {
        proof {
            assert(key@.take(n + 2) =~= id@ + seq![':', ':']);
        }
        true
    } else {
        proof {
            if key@.take(n + 2) == id@ + seq![':', ':'] {
                assert(key@.take(n + 2)[n as int] == ':');
                assert(key@.take(n + 2)[n + 1] == ':');
            }
        }
        false
    }
}

fn key_belongs_to_any(key: &String, ids: &Vec<String>) -> (r: bool)
    ensures
        r == belongs_to_any(key@, string_views(ids@)),
{
    let k = chars_of(key.as_str());
    let ghost views = string_views(ids@);
    let mut i: usize = 0;
    while i < ids.len()
        invariant
            i <= ids@.len(),
            k@ == key@,
            views == string_views(ids@),
            forall|t: int| 0 <= t < i ==> !#[trigger] belongs_to_channel(key@, views[t]),
        decreases ids@.len() - i,
    {
        if key_belongs_to(&k, &chars_of(ids[i].as_str())) {
            proof {
                assert(belongs_to_channel(key@, views[i as int]));
            }
            return true;
        }
        i += 1;
    }
    false
}

impl ChannelHealthTable {
    /// Drops the health records of the given channels: those keyed by a
    /// channel id, or by a channel id, `::` and a model. The rest stay as
    /// they are.
    pub fn prune_channels(&mut self, channel_ids: &Vec<String>)
        ensures
            forall|k: Seq<char>|
                #[trigger] final(self)@.contains_key(k) <==> (old(self)@.contains_key(k) && !belongs_to_any(
                    k,
                    string_views(channel_ids@),
                )),
            forall|k: Seq<char>| #[trigger] final(self)@.contains_key(k) ==> final(self)@[k] == old(self)@[k],
    {
        proof {
            use_type_invariant(&*self);
        }
        let ghost old_t = *self;
        let ghost ids = string_views(channel_ids@);
        let mut kept: Vec<(String, ChannelHealthState)> = Vec::new();
        let ghost mut src: Seq<int> = Seq::empty();
        let mut i: usize = 0;
        while i < self.entries.len()
            invariant
                i <= self.entries@.len(),
                *self == old_t,
                ids == string_views(channel_ids@),
                kept@.len() == src.len(),
                forall|j: int| 0 <= j < src.len() ==> 0 <= #[trigger] src[j] < i,
                forall|a: int, b: int| 0 <= a < b < src.len() ==> #[trigger] src[a] < #[trigger] src[b],
                forall|j: int|
                    0 <= j < src.len() ==> (#[trigger] kept@[j]).0@ == old_t.entries@[src[j]].0@ && kept@[j].1
                        == old_t.entries@[src[j]].1,
                forall|j: int| 0 <= j < src.len() ==> !belongs_to_any((#[trigger] kept@[j]).0@, ids),
                forall|t: int|
                    0 <= t < i && !belongs_to_any(#[trigger] old_t.entries@[t].0@, ids) ==> exists|j: int|
                        0 <= j < src.len() && src[j] == t,
            decreases self.entries@.len() - i,
        {
            if !key_belongs_to_any(&self.entries[i].0, channel_ids) {
                let key = self.entries[i].0.clone();
                let state = self.entries[i].1;
                let ghost old_src = src;
                proof {
                    src = src.push(i as int);
                }
                kept.push((key, state));
                proof {
                    assert(src[src.len() - 1] == i);
                    assert forall|t: int|
                        0 <= t < i + 1 && !belongs_to_any(#[trigger] old_t.entries@[t].0@, ids) implies exists|j: int|
                            0 <= j < src.len() && src[j] == t by {
                        if t == i {
                            assert(src[src.len() - 1] == t);
                        } else {
                            let j = choose|j: int| 0 <= j < old_src.len() && old_src[j] == t;
                            assert(src[j] == old_src[j]);
                        }
                    }
                }
            }
            i += 1;
        }
        proof {
            assert forall|a: int, b: int|
                0 <= a < b < kept@.len() implies #[trigger] kept@[a].0@ != #[trigger] kept@[b].0@ by {
                assert(src[a] < src[b]);
                assert(old_t.entries@[src[a]].0@ != old_t.entries@[src[b]].0@);
            }
        }
        self.entries = kept;
        proof {
            use_type_invariant(&*self);
            assert forall|k: Seq<char>|
                #[trigger] self@.contains_key(k) <==> (old_t@.contains_key(k) && !belongs_to_any(k, ids)) by {
                if self.has_key(k) {
                    let j = choose|j: int| 0 <= j < self.entries@.len() && #[trigger] self.entries@[j].0@ == k;
                    assert(old_t.entries@[src[j]].0@ == k);
                    assert(old_t.has_key(k));
                }
                if old_t.has_key(k) && !belongs_to_any(k, ids) {
                    let t = choose|t: int| 0 <= t < old_t.entries@.len() && #[trigger] old_t.entries@[t].0@ == k;
                    let j = choose|j: int| 0 <= j < src.len() && src[j] == t;
                    assert(self.entries@[j].0@ == k);
                }
            }
            assert forall|k: Seq<char>| #[trigger] self@.contains_key(k) implies self@[k] == old_t@[k] by {
                let j = choose|j: int| 0 <= j < self.entries@.len() && #[trigger] self.entries@[j].0@ == k;
                self.lemma_lookup(j);
                old_t.lemma_lookup(src[j]);
            }
        }
    }
}

} // verus!
