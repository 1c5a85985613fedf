//! Repeat/echo decision engine.
//!
//! A text observed twice in the same chat within the wait window is echoed
//! back once; after an echo the same text stays silent until the cooldown
//! window has strictly elapsed.  Texts longer than `max_text_length`
//! characters are never tracked or echoed.  All times are milliseconds on
//! the caller's clock, which is expected to be non-decreasing across calls.

use vstd::prelude::*;
use vstd::string::StrSliceExecFns;

verus! {

/// What the relay layer should do with an observed message: stay silent
/// (`Nothing`) or echo the text back once (`Repeat`).
#[derive(Clone, Copy, Debug, PartialEq, Eq, Structural)]
pub enum RepeaterNextAction {
    Nothing,
    Repeat,
}

/// Per-text record for one chat: when the text was last observed and when it
/// last triggered an echo.
#[derive(Clone, Copy, Debug)]
pub struct RepeatedTextState {
    /// Time the text was last observed, or `None` before any observation.
    pub last_msg_time: Option<i64>,
    /// Time the text last triggered an echo, or `None` if it never did.
    pub last_send_time: Option<i64>,
}

/// The record of a text that has never been observed.
pub open spec fn fresh_text_state() -> RepeatedTextState {
    RepeatedTextState { last_msg_time: None, last_send_time: None }
}

impl Default for RepeatedTextState {
    fn default() -> (r: Self)
        ensures
            r == fresh_text_state(),
    {
        RepeatedTextState { last_msg_time: None, last_send_time: None }
    }
}

/// A record is well formed when an echo time is only present together with an
/// observation time and never exceeds it.
pub open spec fn text_state_wf(st: RepeatedTextState) -> bool {
    st.last_send_time matches Some(s) ==> st.last_msg_time matches Some(m) && s <= m
}

/// The action one observation of a text at time `now` produces: `Repeat`
/// exactly when the text was last seen at most `wait` ago and its last echo,
/// if any, lies strictly more than `cooldown` ago.
pub open spec fn action_of(st: RepeatedTextState, now: i64, wait: i64, cooldown: i64) -> RepeaterNextAction {
    if st.last_msg_time matches Some(m) && now - m <= wait
        && !(st.last_send_time matches Some(s) && now - s <= cooldown) {
        RepeaterNextAction::Repeat
    } else {
        RepeaterNextAction::Nothing
    }
}

/// The record after one observation at time `now`: the observation time is
/// always refreshed, the echo time only when the observation echoes.
pub open spec fn next_state_of(st: RepeatedTextState, now: i64, wait: i64, cooldown: i64) -> RepeatedTextState {
    RepeatedTextState {
        last_msg_time: Some(now),
        last_send_time: if action_of(st, now, wait, cooldown) is Repeat {
            Some(now)
        } else {
            st.last_send_time
        },
    }
}

/// Decide what one observation of a tracked text does: the returned action is
/// `action_of` and the returned record is `next_state_of` the given one.
pub fn decide(st: &RepeatedTextState, now: i64, wait: i64, cooldown: i64) -> (r: (RepeaterNextAction, RepeatedTextState))
    ensures
        r.0 == action_of(*st, now, wait, cooldown),
        r.1 == next_state_of(*st, now, wait, cooldown),
{
    let mut res = RepeaterNextAction::Nothing;
    if let Some(last_msg) = st.last_msg_time {
        if (now as i128) - (last_msg as i128) <= wait as i128 {
            res = RepeaterNextAction::Repeat;
            if let Some(last_send) = st.last_send_time {
                if (now as i128) - (last_send as i128) <= cooldown as i128 {
                    res = RepeaterNextAction::Nothing;
                }
            }
        }
    }
    let is_repeat = matches!(res, RepeaterNextAction::Repeat);
    let new_state = RepeatedTextState {
        last_msg_time: Some(now),
        last_send_time: if is_repeat { Some(now) } else { st.last_send_time },
    };
    (res, new_state)
}

#[verifier::external_type_specification]
#[verifier::external_body]
#[verifier::reject_recursive_types(K)]
#[verifier::reject_recursive_types(V)]
#[verifier::reject_recursive_types(S)]
pub struct ExDashMap<K, V, S>(dashmap::DashMap<K, V, S>);

/// The per-text concurrent map of one chat.
pub type TextStateMap = dashmap::DashMap<String, RepeatedTextState>;

/// The per-chat concurrent map of the engine.
pub type ChatGroupMap = dashmap::DashMap<i64, RepeaterGroupState>;

/// Per-chat state: the record of every text observed in one chat, keyed by
/// the exact text.
#[derive(Debug)]
pub struct RepeaterGroupState {
    pub text_states: TextStateMap,
}

/// What a per-text map holds: the record stored under each text's characters.
pub uninterp spec fn text_map_of(m: TextStateMap) -> Map<Seq<char>, RepeatedTextState>;

/// What a per-chat map holds: the group stored under each chat identifier.
pub uninterp spec fn chat_map_of(m: ChatGroupMap) -> Map<i64, RepeaterGroupState>;

/// A chat with no records yet.
pub open spec fn empty_texts() -> Map<Seq<char>, RepeatedTextState> {
    Map::empty()
}

/// A per-chat map with no groups yet.
pub open spec fn empty_chats_map() -> Map<i64, RepeaterGroupState> {
    Map::empty()
}

/// An engine with no records yet.
pub open spec fn empty_chats() -> Map<i64, Map<Seq<char>, RepeatedTextState>> {
    Map::empty()
}

/// Relies on dashmap::DashMap::new: a newly created map holds no entries.
#[verifier::external_body]
fn text_map_new() -> (m: TextStateMap)
    ensures
        text_map_of(m) == empty_texts(),
{
    dashmap::DashMap::new()
}

/// Relies on dashmap::DashMap::new: a newly created map holds no entries.
#[verifier::external_body]
fn chat_map_new() -> (m: ChatGroupMap)
    ensures
        chat_map_of(m) == empty_chats_map(),
{
    dashmap::DashMap::new()
}

/// Relies on dashmap::DashMap::get: hands back a copy of the value stored
/// under the key, or `None` when the key is absent.
#[verifier::external_body]
fn text_map_get(m: &TextStateMap, text: &String) -> (r: Option<RepeatedTextState>)
    ensures
        r == if text_map_of(*m).dom().contains(text@) {
            Some(text_map_of(*m)[text@])
        } else {
            None::<RepeatedTextState>
        },
{
    m.get(text).map(|entry| *entry.value())
}

/// Relies on dashmap::DashMap::insert: stores the value under the key,
/// replacing any earlier one and leaving every other key unchanged.
#[verifier::external_body]
fn text_map_put(m: &mut TextStateMap, text: String, st: RepeatedTextState)
    ensures
        text_map_of(*final(m)) == text_map_of(*old(m)).insert(text@, st),
{
    m.insert(text, st);
}

/// Relies on dashmap::DashMap::remove: takes the entry under the key out of
/// the map, or returns `None` when the key is absent; every other key keeps
/// its value.
#[verifier::external_body]
fn chat_map_take(m: &mut ChatGroupMap, chat_id: i64) -> (r: Option<RepeaterGroupState>)
    ensures
        r == if chat_map_of(*old(m)).dom().contains(chat_id) {
            Some(chat_map_of(*old(m))[chat_id])
        } else {
            None::<RepeaterGroupState>
        },
        chat_map_of(*final(m)) == chat_map_of(*old(m)).remove(chat_id),
{
    m.remove(&chat_id).map(|kv| kv.1)
}

/// Relies on dashmap::DashMap::insert: stores the value under the key,
/// replacing any earlier one and leaving every other key unchanged.
#[verifier::external_body]
fn chat_map_put(m: &mut ChatGroupMap, chat_id: i64, g: RepeaterGroupState)
    ensures
        chat_map_of(*final(m)) == chat_map_of(*old(m)).insert(chat_id, g),
{
    m.insert(chat_id, g);
}

/// The record a map holds under `text`, or a fresh one when the text was
/// never observed.
pub open spec fn record_of(texts: Map<Seq<char>, RepeatedTextState>, text: Seq<char>) -> RepeatedTextState {
    if texts.dom().contains(text) {
        texts[text]
    } else {
        fresh_text_state()
    }
}

impl View for RepeaterGroupState {
    type V = Map<Seq<char>, RepeatedTextState>;

    /// The records of this chat, keyed by the text's characters.
    open spec fn view(&self) -> Map<Seq<char>, RepeatedTextState> {
        text_map_of(self.text_states)
    }
}

impl RepeaterGroupState {
    /// One observation of `text` in this chat at `now`: the action is decided
    /// from the text's own record alone, and only that record is replaced.
    pub fn get_next_action(&mut self, text: String, now: i64, max_wait_repeat_ms: i64, min_recent_repeat_ms: i64) -> (r: RepeaterNextAction)
        ensures
            r == action_of(record_of(old(self)@, text@), now, max_wait_repeat_ms, min_recent_repeat_ms),
            final(self)@ == old(self)@.insert(
                text@,
                next_state_of(record_of(old(self)@, text@), now, max_wait_repeat_ms, min_recent_repeat_ms),
            ),
    {
        let prev = match text_map_get(&self.text_states, &text) {
            Some(st) => st,
            None => RepeatedTextState { last_msg_time: None, last_send_time: None },
        };
        let (res, new_state) = decide(&prev, now, max_wait_repeat_ms, min_recent_repeat_ms);
        text_map_put(&mut self.text_states, text, new_state);
        res
    }
}

impl Default for RepeaterGroupState {
    fn default() -> (r: Self)
        ensures
            r@ == empty_texts(),
    {
        RepeaterGroupState { text_states: text_map_new() }
    }
}

/// The repeat/echo engine: every chat's records plus the three configuration
/// values, fixed at construction.
pub struct RepeaterStates {
    /// Texts longer than this many characters are never tracked or echoed.
    pub max_text_length: u32,
    /// Largest gap, in milliseconds, between two observations of one text
    /// for the second to count as a repeat.
    pub max_wait_repeat_ms: i64,
    /// Smallest time, in milliseconds, that must strictly elapse after an
    /// echo of a text before that text may be echoed again.
    pub min_recent_repeat_ms: i64,
    /// Per-chat records, keyed by chat identifier.
    pub groups: ChatGroupMap,
}

impl View for RepeaterStates {
    type V = Map<i64, Map<Seq<char>, RepeatedTextState>>;

    /// All records: chat identifier, then text, then that text's record.
    open spec fn view(&self) -> Map<i64, Map<Seq<char>, RepeatedTextState>> {
        Map::new(
            |c: i64| chat_map_of(self.groups).dom().contains(c),
            |c: i64| chat_map_of(self.groups)[c]@,
        )
    }
}

impl RepeaterStates {
    /// The records of one chat; a chat never seen holds no records.
    pub open spec fn chat_texts(self, chat_id: i64) -> Map<Seq<char>, RepeatedTextState> {
        if self@.dom().contains(chat_id) {
            self@[chat_id]
        } else {
            Map::empty()
        }
    }

    /// Whether a text of these characters is short enough to be tracked.
    pub open spec fn within_length(self, text: Seq<char>) -> bool {
        text.len() <= self.max_text_length
    }

    /// The action one observation of `text` in `chat_id` at `now` produces:
    /// an overlong text is suppressed outright; otherwise the text's own
    /// record decides.
    pub open spec fn spec_action(self, chat_id: i64, text: Seq<char>, now: i64) -> RepeaterNextAction {
        if !self.within_length(text) {
            RepeaterNextAction::Nothing
        } else {
            action_of(
                record_of(self.chat_texts(chat_id), text),
                now,
                self.max_wait_repeat_ms,
                self.min_recent_repeat_ms,
            )
        }
    }

    /// All records after one observation: an overlong text touches nothing;
    /// otherwise exactly the observed pair's record is replaced.
    pub open spec fn spec_chats_after(self, chat_id: i64, text: Seq<char>, now: i64) -> Map<i64, Map<Seq<char>, RepeatedTextState>> {
        if !self.within_length(text) {
            self@
        } else {
            self@.insert(
                chat_id,
                self.chat_texts(chat_id).insert(
                    text,
                    next_state_of(
                        record_of(self.chat_texts(chat_id), text),
                        now,
                        self.max_wait_repeat_ms,
                        self.min_recent_repeat_ms,
                    ),
                ),
            )
        }
    }

    /// Whether two engines share the same configuration values.
    pub open spec fn same_config(self, other: RepeaterStates) -> bool {
        &&& self.max_text_length == other.max_text_length
        &&& self.max_wait_repeat_ms == other.max_wait_repeat_ms
        &&& self.min_recent_repeat_ms == other.min_recent_repeat_ms
    }

    /// A fresh engine with the given configuration and no records.
    pub fn new(max_text_length: u32, max_wait_repeat_ms: i64, min_recent_repeat_ms: i64) -> (r: RepeaterStates)
        ensures
            r.max_text_length == max_text_length,
            r.max_wait_repeat_ms == max_wait_repeat_ms,
            r.min_recent_repeat_ms == min_recent_repeat_ms,
            r@ == empty_chats(),
    {
        let r = RepeaterStates {
            max_text_length,
            max_wait_repeat_ms,
            min_recent_repeat_ms,
            groups: chat_map_new(),
        };
        proof {
            assert(r@ =~= empty_chats());
        }
        r
    }

    /// Evaluate one observation of `text` in `chat_id` at time `now`:
    /// the returned action and the new records follow `spec_action` and
    /// `spec_chats_after`, and the configuration never changes.
    pub fn get_next_action(&mut self, chat_id: i64, text: String, now: i64) -> (r: RepeaterNextAction)
        ensures
            r == old(self).spec_action(chat_id, text@, now),
            final(self)@ == old(self).spec_chats_after(chat_id, text@, now),
            final(self).same_config(*old(self)),
    {
        if text.as_str().unicode_len() > self.max_text_length as usize {
            return RepeaterNextAction::Nothing;
        }
        let mut group = match chat_map_take(&mut self.groups, chat_id) {
            Some(g) => g,
            None => RepeaterGroupState::default(),
        };
        let ghost texts0 = group@;
        let res = group.get_next_action(text, now, self.max_wait_repeat_ms, self.min_recent_repeat_ms);
        chat_map_put(&mut self.groups, chat_id, group);
        proof {
            assert(texts0 == old(self).chat_texts(chat_id));
            assert(self@ =~= old(self).spec_chats_after(chat_id, text@, now));
        }
        res
    }
}

impl Default for RepeaterStates {
    /// The reference configuration: up to 30 characters, a 15 second wait
    /// window and a 30 second cooldown window, with no records yet.
    fn default() -> (r: Self)
        ensures
            r.max_text_length == 30,
            r.max_wait_repeat_ms == 15_000,
            r.min_recent_repeat_ms == 30_000,
            r@ == empty_chats(),
    {
        Self::new(30, 15_000, 30_000)
    }
}

/// Law: a text longer than the engine's limit is suppressed, whatever the
/// history of the engine.
pub proof fn lemma_overlong_text_suppressed(s: RepeaterStates, chat_id: i64, text: Seq<char>, now: i64)
    requires
        text.len() > s.max_text_length,
    ensures
        s.spec_action(chat_id, text, now) is Nothing,
        s.spec_chats_after(chat_id, text, now) == s@,
{
}

/// Law: the first observation of a (chat, text) pair is always suppressed,
/// whether the chat itself is new or only the text is.
pub proof fn lemma_first_observation_suppressed(s: RepeaterStates, chat_id: i64, text: Seq<char>, now: i64)
    requires
        !s.chat_texts(chat_id).dom().contains(text),
    ensures
        s.spec_action(chat_id, text, now) is Nothing,
{
}

/// Law: when the gap since the last observation of the text exceeds the wait
/// window, the observation is treated as fresh and suppressed.
pub proof fn lemma_stale_text_suppressed(s: RepeaterStates, chat_id: i64, text: Seq<char>, now: i64)
    requires
        record_of(s.chat_texts(chat_id), text).last_msg_time matches Some(m)
            ==> now - m > s.max_wait_repeat_ms,
    ensures
        s.spec_action(chat_id, text, now) is Nothing,
{
}

/// Law: a gap exactly equal to the wait window still counts as a repeat: the
/// observation echoes, provided no earlier echo of the text lies within the
/// cooldown window.
pub proof fn lemma_wait_window_boundary_repeats(st: RepeatedTextState, now: i64, wait: i64, cooldown: i64)
    requires
        st.last_msg_time matches Some(m) && now - m == wait,
        st.last_send_time matches Some(e) ==> now - e > cooldown,
    ensures
        action_of(st, now, wait, cooldown) is Repeat,
{
}

/// Law: a gap at most the cooldown window since the last echo suppresses the
/// observation, the boundary gap included; only a strictly larger gap lets
/// the text echo again.
pub proof fn lemma_cooldown_boundary_suppresses(st: RepeatedTextState, now: i64, wait: i64, cooldown: i64)
    requires
        st.last_send_time matches Some(e) && now - e <= cooldown,
    ensures
        action_of(st, now, wait, cooldown) is Nothing,
{
}

/// Law: the decision for a (chat, text) pair depends only on that pair's own
/// record and the configuration: two engines that agree on both decide alike,
/// whatever their other chats and texts hold.
pub proof fn lemma_independence(s1: RepeaterStates, s2: RepeaterStates, chat_id: i64, text: Seq<char>, now: i64)
    requires
        s1.same_config(s2),
        record_of(s1.chat_texts(chat_id), text) == record_of(s2.chat_texts(chat_id), text),
    ensures
        s1.spec_action(chat_id, text, now) == s2.spec_action(chat_id, text, now),
{
}

/// Law: an observation of one (chat, text) pair never changes any other
/// pair's record, in its own chat or in any other.
pub proof fn lemma_other_records_unchanged(
    s: RepeaterStates,
    chat_id: i64,
    text: Seq<char>,
    now: i64,
    other_chat: i64,
    other_text: Seq<char>,
)
    requires
        other_chat != chat_id || other_text != text,
    ensures
        record_of(chat_texts_in(s.spec_chats_after(chat_id, text, now), other_chat), other_text)
            == record_of(s.chat_texts(other_chat), other_text),
{
    assert(chat_texts_in(s@, other_chat) == s.chat_texts(other_chat));
}

/// The records of one chat within an engine's full record map; a chat that is
/// absent holds no records.
pub open spec fn chat_texts_in(chats: Map<i64, Map<Seq<char>, RepeatedTextState>>, chat_id: i64) -> Map<Seq<char>, RepeatedTextState> {
    if chats.dom().contains(chat_id) {
        chats[chat_id]
    } else {
        Map::empty()
    }
}

/// Law: an observation that echoes leaves a record that suppresses every
/// further observation of the same text at the same instant, so a burst of
/// simultaneous duplicates is echoed at most once.
pub proof fn lemma_no_double_echo(st: RepeatedTextState, now: i64, wait: i64, cooldown: i64)
    requires
        cooldown >= 0,
        action_of(st, now, wait, cooldown) is Repeat,
    ensures
        action_of(next_state_of(st, now, wait, cooldown), now, wait, cooldown) is Nothing,
        next_state_of(st, now, wait, cooldown).last_send_time == Some(now),
{
}

/// How many of `n` successive observations of one text, all at the instant
/// `now`, are echoed, starting from the record `st`.
pub open spec fn echoes_in_burst(st: RepeatedTextState, now: i64, wait: i64, cooldown: i64, n: nat) -> nat
    decreases n,
{
    if n == 0 {
        0
    } else {
        (if action_of(st, now, wait, cooldown) is Repeat {
            1nat
        } else {
            0nat
        }) + echoes_in_burst(next_state_of(st, now, wait, cooldown), now, wait, cooldown, (n - 1) as nat)
    }
}

/// Law: once the record shows an echo at the instant `now` itself, every
/// observation of the text at `now` is suppressed and the record keeps
/// showing that echo.
pub proof fn lemma_echo_at_now_sticks(st: RepeatedTextState, now: i64, wait: i64, cooldown: i64, n: nat)
    requires
        cooldown >= 0,
        st.last_send_time == Some(now),
    ensures
        echoes_in_burst(st, now, wait, cooldown, n) == 0,
    decreases n,
{
    if n > 0 {
        lemma_echo_at_now_sticks(next_state_of(st, now, wait, cooldown), now, wait, cooldown, (n - 1) as nat);
    }
}

/// Law: a burst of simultaneous duplicate observations of one text is echoed
/// at most once.
pub proof fn lemma_burst_echoes_at_most_once(st: RepeatedTextState, now: i64, wait: i64, cooldown: i64, n: nat)
    requires
        cooldown >= 0,
    ensures
        echoes_in_burst(st, now, wait, cooldown, n) <= 1,
    decreases n,
{
    if n > 0 {
        if action_of(st, now, wait, cooldown) is Repeat {
            lemma_echo_at_now_sticks(next_state_of(st, now, wait, cooldown), now, wait, cooldown, (n - 1) as nat);
        } else {
            lemma_burst_echoes_at_most_once(next_state_of(st, now, wait, cooldown), now, wait, cooldown, (n - 1) as nat);
        }
    }
}

/// Law: a burst of two or more simultaneous duplicates of one text whose last
/// echo, if any, lies strictly outside the cooldown window is echoed exactly
/// once — under a race of identical observations, one echoes and the rest
/// are suppressed.
pub proof fn lemma_burst_echoes_exactly_once(st: RepeatedTextState, now: i64, wait: i64, cooldown: i64, n: nat)
    requires
        wait >= 0,
        cooldown >= 0,
        n >= 2,
        st.last_send_time matches Some(e) ==> now - e > cooldown,
    ensures
        echoes_in_burst(st, now, wait, cooldown, n) == 1,
    decreases n,
{
    let st1 = next_state_of(st, now, wait, cooldown);
    if action_of(st, now, wait, cooldown) is Repeat {
        lemma_echo_at_now_sticks(st1, now, wait, cooldown, (n - 1) as nat);
    } else {
        assert(st1.last_msg_time == Some(now));
        assert(action_of(st1, now, wait, cooldown) is Repeat);
        let st2 = next_state_of(st1, now, wait, cooldown);
        lemma_echo_at_now_sticks(st2, now, wait, cooldown, (n - 2) as nat);
        assert(echoes_in_burst(st1, now, wait, cooldown, (n - 1) as nat)
            == 1 + echoes_in_burst(st2, now, wait, cooldown, (n - 2) as nat));
        assert(echoes_in_burst(st, now, wait, cooldown, n)
            == echoes_in_burst(st1, now, wait, cooldown, (n - 1) as nat));
    }
}

/// Law: under a clock that has not moved backwards past the record, one
/// observation keeps the record well formed and moves both of its times
/// forward only.
pub proof fn lemma_record_monotone(st: RepeatedTextState, now: i64, wait: i64, cooldown: i64)
    requires
        text_state_wf(st),
        st.last_msg_time matches Some(m) ==> m <= now,
    ensures
        text_state_wf(next_state_of(st, now, wait, cooldown)),
        next_state_of(st, now, wait, cooldown).last_msg_time == Some(now),
        st.last_msg_time matches Some(m)
            ==> next_state_of(st, now, wait, cooldown).last_msg_time->0 >= m,
        st.last_send_time matches Some(e)
            ==> next_state_of(st, now, wait, cooldown).last_send_time matches Some(e2) && e2 >= e,
{
}

/// Law: with a non-negative cooldown window, an engine observation that
/// echoes leaves the engine in a state where the same observation, repeated
/// at the same instant, is suppressed: a race of identical messages is
/// echoed once.
pub proof fn lemma_engine_no_double_echo(
    s: RepeaterStates,
    s2: RepeaterStates,
    chat_id: i64,
    text: Seq<char>,
    now: i64,
)
    requires
        s.min_recent_repeat_ms >= 0,
        s2.same_config(s),
        s2@ == s.spec_chats_after(chat_id, text, now),
        s.spec_action(chat_id, text, now) is Repeat,
    ensures
        s2.spec_action(chat_id, text, now) is Nothing,
{
    let rec = record_of(s.chat_texts(chat_id), text);
    let st2 = next_state_of(rec, now, s.max_wait_repeat_ms, s.min_recent_repeat_ms);
    assert(s2.chat_texts(chat_id) == s.chat_texts(chat_id).insert(text, st2));
    assert(record_of(s2.chat_texts(chat_id), text) == st2);
    lemma_no_double_echo(rec, now, s.max_wait_repeat_ms, s.min_recent_repeat_ms);
}

/// Every record an engine's map holds is well formed and observed no later
/// than `t`.
pub open spec fn records_wf_until(chats: Map<i64, Map<Seq<char>, RepeatedTextState>>, t: i64) -> bool {
    forall|c: i64, x: Seq<char>|
        chats.dom().contains(c) && chats[c].dom().contains(x) ==> {
            &&& text_state_wf(#[trigger] chats[c][x])
            &&& (chats[c][x].last_msg_time matches Some(m) && m <= t)
        }
}

/// Law: well-formedness is kept under a later bound.
pub proof fn lemma_records_wf_weaken(
    chats: Map<i64, Map<Seq<char>, RepeatedTextState>>,
    t1: i64,
    t2: i64,
)
    requires
        records_wf_until(chats, t1),
        t1 <= t2,
    ensures
        records_wf_until(chats, t2),
{
}

/// Law: one observation at `now` keeps every record of the engine well
/// formed and observed no later than `now`; with the weakening law this is
/// an invariant of every run whose clock never moves backwards.
pub proof fn lemma_evaluate_preserves_wf(s: RepeaterStates, chat_id: i64, text: Seq<char>, now: i64)
    requires
        records_wf_until(s@, now),
    ensures
        records_wf_until(s.spec_chats_after(chat_id, text, now), now),
{
    let after = s.spec_chats_after(chat_id, text, now);
    if s.within_length(text) {
        let rec = record_of(s.chat_texts(chat_id), text);
        let st2 = next_state_of(rec, now, s.max_wait_repeat_ms, s.min_recent_repeat_ms);
        assert(text_state_wf(rec) && (rec.last_msg_time matches Some(m) ==> m <= now)) by {
            if s.chat_texts(chat_id).dom().contains(text) {
                assert(s@.dom().contains(chat_id));
                assert(s@[chat_id][text] == rec);
            }
        }
        assert(text_state_wf(st2) && (st2.last_msg_time matches Some(m) && m <= now));
        assert forall|c: i64, x: Seq<char>|
            after.dom().contains(c) && after[c].dom().contains(x) implies {
            &&& text_state_wf(#[trigger] after[c][x])
            &&& (after[c][x].last_msg_time matches Some(m) && m <= now)
        } by {
            if c == chat_id {
                if x == text {
                    assert(after[c][x] == st2);
                } else {
                    assert(after[c][x] == s.chat_texts(chat_id)[x]);
                    assert(s@.dom().contains(chat_id) && s@[chat_id].dom().contains(x));
                }
            } else {
                assert(after[c][x] == s@[c][x]);
            }
        }
    }
}

} // verus!