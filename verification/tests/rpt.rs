use coriander_bot::rpt::{decide, RepeatedTextState, RepeaterNextAction, RepeaterStates};

fn secs(s: i64) -> i64 {
    s * 1000
}

#[test]
fn scenario_two_window_debounce() {
    // wait window 15 s, cooldown 30 s, texts up to 30 characters
    let mut eng = RepeaterStates::new(30, secs(15), secs(30));
    let chat = 1;
    assert_eq!(eng.get_next_action(chat, "hi".to_string(), secs(0)), RepeaterNextAction::Nothing);
    assert_eq!(eng.get_next_action(chat, "hi".to_string(), secs(10)), RepeaterNextAction::Repeat);
    // within cooldown of the echo at t=10
    assert_eq!(eng.get_next_action(chat, "hi".to_string(), secs(15)), RepeaterNextAction::Nothing);
    // the gap since the t=15 observation exceeds the wait window, so even
    // though the cooldown has elapsed the burst is over: treated as fresh
    assert_eq!(eng.get_next_action(chat, "hi".to_string(), secs(45)), RepeaterNextAction::Nothing);
}

#[test]
fn sustained_burst_echoes_again_after_cooldown() {
    let mut eng = RepeaterStates::new(30, secs(15), secs(30));
    let chat = 1;
    assert_eq!(eng.get_next_action(chat, "hi".to_string(), secs(0)), RepeaterNextAction::Nothing);
    assert_eq!(eng.get_next_action(chat, "hi".to_string(), secs(10)), RepeaterNextAction::Repeat);
    // the burst goes on inside the wait window, silenced by the cooldown
    assert_eq!(eng.get_next_action(chat, "hi".to_string(), secs(25)), RepeaterNextAction::Nothing);
    assert_eq!(eng.get_next_action(chat, "hi".to_string(), secs(35)), RepeaterNextAction::Nothing);
    // still inside the wait window of t=35, and now past the cooldown of t=10
    assert_eq!(eng.get_next_action(chat, "hi".to_string(), secs(45)), RepeaterNextAction::Repeat);
}

#[test]
fn overlong_text_always_suppressed() {
    let mut eng = RepeaterStates::new(5, secs(15), secs(30));
    let chat = 7;
    let long = "abcdefgh".to_string(); // 8 characters > 5
    assert_eq!(eng.get_next_action(chat, long.clone(), secs(0)), RepeaterNextAction::Nothing);
    assert_eq!(eng.get_next_action(chat, long.clone(), secs(1)), RepeaterNextAction::Nothing);
    assert_eq!(eng.get_next_action(chat, long, secs(2)), RepeaterNextAction::Nothing);
}

#[test]
fn length_limit_counts_characters_not_bytes() {
    let mut eng = RepeaterStates::new(3, secs(15), secs(30));
    let chat = 3;
    // three characters, nine bytes: short enough, so a quick repeat echoes
    assert_eq!(eng.get_next_action(chat, "哈哈哈".to_string(), secs(0)), RepeaterNextAction::Nothing);
    assert_eq!(eng.get_next_action(chat, "哈哈哈".to_string(), secs(1)), RepeaterNextAction::Repeat);
    // four characters: over the limit, never tracked
    assert_eq!(eng.get_next_action(chat, "哈哈哈哈".to_string(), secs(2)), RepeaterNextAction::Nothing);
    assert_eq!(eng.get_next_action(chat, "哈哈哈哈".to_string(), secs(3)), RepeaterNextAction::Nothing);
}

#[test]
fn first_observation_suppressed() {
    let mut eng = RepeaterStates::default();
    assert_eq!(eng.get_next_action(42, "fresh".to_string(), secs(100)), RepeaterNextAction::Nothing);
}

#[test]
fn gap_beyond_wait_window_is_fresh() {
    let mut eng = RepeaterStates::new(30, secs(15), secs(30));
    let chat = 2;
    assert_eq!(eng.get_next_action(chat, "x".to_string(), secs(0)), RepeaterNextAction::Nothing);
    // 20 s > 15 s: treated as fresh even though no echo ever happened
    assert_eq!(eng.get_next_action(chat, "x".to_string(), secs(20)), RepeaterNextAction::Nothing);
    // and again: the t=20 observation refreshed recency, so t=25 repeats
    assert_eq!(eng.get_next_action(chat, "x".to_string(), secs(25)), RepeaterNextAction::Repeat);
}

#[test]
fn wait_window_boundary_still_repeats() {
    let mut eng = RepeaterStates::new(30, secs(15), secs(30));
    let chat = 4;
    assert_eq!(eng.get_next_action(chat, "b".to_string(), secs(0)), RepeaterNextAction::Nothing);
    // gap of exactly 15 s still qualifies
    assert_eq!(eng.get_next_action(chat, "b".to_string(), secs(15)), RepeaterNextAction::Repeat);
}

#[test]
fn cooldown_boundary_still_suppresses() {
    let mut eng = RepeaterStates::new(30, secs(15), secs(30));
    let chat = 5;
    assert_eq!(eng.get_next_action(chat, "c".to_string(), secs(0)), RepeaterNextAction::Nothing);
    assert_eq!(eng.get_next_action(chat, "c".to_string(), secs(10)), RepeaterNextAction::Repeat);
    assert_eq!(eng.get_next_action(chat, "c".to_string(), secs(25)), RepeaterNextAction::Nothing);
    // gap since the echo at t=10 is exactly the 30 s cooldown: still silent
    assert_eq!(eng.get_next_action(chat, "c".to_string(), secs(40)), RepeaterNextAction::Nothing);
    // one second later the cooldown has strictly elapsed
    assert_eq!(eng.get_next_action(chat, "c".to_string(), secs(41)), RepeaterNextAction::Repeat);
}

#[test]
fn chats_are_independent() {
    let mut eng = RepeaterStates::new(30, secs(15), secs(30));
    assert_eq!(eng.get_next_action(1, "same".to_string(), secs(0)), RepeaterNextAction::Nothing);
    assert_eq!(eng.get_next_action(1, "same".to_string(), secs(5)), RepeaterNextAction::Repeat);
    // chat 2 never saw the text: its first observation stays silent
    assert_eq!(eng.get_next_action(2, "same".to_string(), secs(5)), RepeaterNextAction::Nothing);
}

#[test]
fn texts_are_independent() {
    let mut eng = RepeaterStates::new(30, secs(15), secs(30));
    let chat = 9;
    assert_eq!(eng.get_next_action(chat, "foo".to_string(), secs(0)), RepeaterNextAction::Nothing);
    assert_eq!(eng.get_next_action(chat, "foo".to_string(), secs(5)), RepeaterNextAction::Repeat);
    // "bar" is unaffected by "foo"'s history
    assert_eq!(eng.get_next_action(chat, "bar".to_string(), secs(6)), RepeaterNextAction::Nothing);
    assert_eq!(eng.get_next_action(chat, "bar".to_string(), secs(7)), RepeaterNextAction::Repeat);
}

#[test]
fn burst_of_duplicates_echoes_exactly_once() {
    let mut eng = RepeaterStates::new(30, secs(15), secs(30));
    let chat = 11;
    assert_eq!(eng.get_next_action(chat, "dup".to_string(), secs(0)), RepeaterNextAction::Nothing);
    let mut echoes = 0;
    for _ in 0..5 {
        if eng.get_next_action(chat, "dup".to_string(), secs(10)) == RepeaterNextAction::Repeat {
            echoes += 1;
        }
    }
    assert_eq!(echoes, 1);
}

#[test]
fn fresh_burst_echoes_exactly_once() {
    let mut eng = RepeaterStates::new(30, secs(15), secs(30));
    let chat = 12;
    let mut echoes = 0;
    for _ in 0..4 {
        if eng.get_next_action(chat, "new".to_string(), secs(3)) == RepeaterNextAction::Repeat {
            echoes += 1;
        }
    }
    // the first observation is fresh; the second repeats; the rest cool down
    assert_eq!(echoes, 1);
}

#[test]
fn default_configuration() {
    let eng = RepeaterStates::default();
    assert_eq!(eng.max_text_length, 30);
    assert_eq!(eng.max_wait_repeat_ms, 15_000);
    assert_eq!(eng.min_recent_repeat_ms, 30_000);
}

#[test]
fn decide_on_explicit_records() {
    let fresh = RepeatedTextState { last_msg_time: None, last_send_time: None };
    let (act, st) = decide(&fresh, 1000, 500, 2000);
    assert_eq!(act, RepeaterNextAction::Nothing);
    assert_eq!(st.last_msg_time, Some(1000));
    assert_eq!(st.last_send_time, None);

    let (act, st) = decide(&st, 1400, 500, 2000);
    assert_eq!(act, RepeaterNextAction::Repeat);
    assert_eq!(st.last_msg_time, Some(1400));
    assert_eq!(st.last_send_time, Some(1400));

    let (act, st) = decide(&st, 1600, 500, 2000);
    assert_eq!(act, RepeaterNextAction::Nothing);
    assert_eq!(st.last_msg_time, Some(1600));
    assert_eq!(st.last_send_time, Some(1400));
}
