use telegram_ranger::config::Alphabet;
use telegram_ranger::config::CaptchaMode;
use telegram_ranger::config::Config;
use telegram_ranger::engine::complete_actions;
use telegram_ranger::engine::decide_join;
use telegram_ranger::engine::escalation_actions;
use telegram_ranger::engine::expire;
use telegram_ranger::engine::handle_callback;
use telegram_ranger::engine::observe_user_message;
use telegram_ranger::engine::record_challenge;
use telegram_ranger::engine::Action;
use telegram_ranger::engine::JoinDecision;
use telegram_ranger::pending::Pending;
use telegram_ranger::pending::PendingMap;
use telegram_ranger::state::AppState;
use telegram_ranger::state::UserInfo;
use telegram_ranger::state::WhitelistSnapshot;

fn test_config(mode: CaptchaMode, kick_ban_minutes: i64, delete_unverified: bool) -> Config {
    Config {
        captcha_timeout_secs: 60,
        admin_id: 1,
        kick_ban_minutes,
        delete_unverified_messages: delete_unverified,
        captcha_mode: mode,
        alphabet: Alphabet::Cyrillic,
    }
}

fn fresh_state(mode: CaptchaMode) -> AppState {
    AppState::new(test_config(mode, 0, false), WhitelistSnapshot::default())
}

fn math_pending(chat_id: i64, user_id: u64, expected: &str) -> Pending {
    Pending {
        chat_id,
        user_id,
        captcha_msg_id: 100,
        deadline_ms: 60_000,
        captcha_mode: CaptchaMode::Math2,
        expected_answer: Some(expected.to_string()),
        user_message_ids: Vec::new(),
    }
}

fn human(id: u64, username: Option<&str>) -> UserInfo {
    UserInfo {
        id,
        is_bot: false,
        username: username.map(|u| u.to_string()),
    }
}

#[test]
fn try_insert_second_call_fails_and_keeps_first() {
    let mut store = PendingMap::new();
    let first = math_pending(10, 20, "7");
    let mut second = math_pending(10, 20, "9");
    second.captcha_msg_id = 999;
    assert!(store.try_insert(first));
    assert!(!store.try_insert(second));
    let held = store.get(10, 20).unwrap();
    assert_eq!(held.captcha_msg_id, 100);
    assert_eq!(held.expected_answer.as_deref(), Some("7"));
}

#[test]
fn remove_if_present_yields_at_most_once() {
    let mut store = PendingMap::new();
    assert!(store.try_insert(math_pending(10, 20, "7")));
    let first = store.remove_if_present(10, 20);
    let second = store.remove_if_present(10, 20);
    assert!(first.is_some());
    assert!(second.is_none());
    assert!(store.remove_if_present(11, 20).is_none());
}

#[test]
fn append_message_id_tracks_only_pending_users() {
    let mut store = PendingMap::new();
    assert!(!store.append_message_id(10, 20, 555));
    assert!(store.try_insert(math_pending(10, 20, "7")));
    assert!(store.append_message_id(10, 20, 555));
    assert!(store.append_message_id(10, 20, 556));
    let held = store.get(10, 20).unwrap();
    assert_eq!(held.user_message_ids, vec![555, 556]);
}

#[test]
fn whitelisted_human_gets_no_challenge() {
    let mut st = fresh_state(CaptchaMode::Button);
    st.allow_user_id(42);
    let by_id = human(42, None);
    assert_eq!(decide_join(&st, 1000, &by_id), JoinDecision::Allow);

    st.allow_username("  @Some_Human  ");
    let by_name = human(77, Some("Some_Human"));
    assert_eq!(decide_join(&st, 1000, &by_name), JoinDecision::Allow);

    let stranger = human(5, None);
    assert!(matches!(
        decide_join(&st, 1000, &stranger),
        JoinDecision::Challenge {
            mode: CaptchaMode::Button,
            mute: true
        }
    ));
}

#[test]
fn join_decision_order() {
    let mut st = fresh_state(CaptchaMode::Math2);
    // The system's own account is ignored outright.
    assert_eq!(decide_join(&st, 9, &human(9, None)), JoinDecision::Ignore);
    // A bot is banned unless allow-listed.
    let bot = UserInfo {
        id: 33,
        is_bot: true,
        username: Some("helper_bot".to_string()),
    };
    assert_eq!(decide_join(&st, 9, &bot), JoinDecision::BanBot);
    st.allow_bot_username("@Helper_Bot");
    assert_eq!(decide_join(&st, 9, &bot), JoinDecision::AllowBot);
    // A text-answer strategy must not mute the candidate.
    assert!(matches!(
        decide_join(&st, 9, &human(5, None)),
        JoinDecision::Challenge {
            mode: CaptchaMode::Math2,
            mute: false
        }
    ));
    // With challenges off, everyone human passes.
    let st_off = fresh_state(CaptchaMode::Off);
    assert_eq!(decide_join(&st_off, 9, &human(5, None)), JoinDecision::Allow);
}

#[test]
fn success_beats_late_timer() {
    let mut st = fresh_state(CaptchaMode::Math2);
    assert!(record_challenge(&mut st, math_pending(10, 20, "7")));
    let solver = human(20, Some("solver"));
    let done = observe_user_message(&mut st, 10, &solver, 777, Some(" 7 "));
    let acts = done.expect("the correct answer resolves the challenge");
    assert!(matches!(
        acts[0],
        Action::DeleteMessage {
            chat_id: 10,
            message_id: 100
        }
    ));
    assert!(acts
        .iter()
        .any(|a| matches!(a, Action::RestoreSendPermissions { chat_id: 10, user_id: 20 })));
    // The timer fires afterwards: the entry is gone, so escalation is a no-op.
    assert!(expire(&mut st, 10, 20).is_none());
}

#[test]
fn timer_beats_late_success() {
    let mut st = fresh_state(CaptchaMode::Math2);
    assert!(record_challenge(&mut st, math_pending(10, 20, "7")));
    let escalated = expire(&mut st, 10, 20);
    assert!(escalated.is_some());
    // The answer arrives afterwards: the entry is gone, nothing happens.
    let solver = human(20, Some("solver"));
    assert!(observe_user_message(&mut st, 10, &solver, 777, Some("7")).is_none());
    assert!(expire(&mut st, 10, 20).is_none());
}

#[test]
fn duplicate_challenge_is_refused() {
    let mut st = fresh_state(CaptchaMode::Math2);
    assert!(record_challenge(&mut st, math_pending(10, 20, "7")));
    // A competing invocation already created the entry: the caller must
    // delete its just-sent prompt.
    assert!(!record_challenge(&mut st, math_pending(10, 20, "9")));
}

#[test]
fn callback_resolves_button_challenge() {
    let mut st = fresh_state(CaptchaMode::Button);
    let mut p = math_pending(10, 20, "unused");
    p.captcha_mode = CaptchaMode::Button;
    p.expected_answer = None;
    assert!(record_challenge(&mut st, p));
    let presser = human(20, None);
    assert!(handle_callback(&mut st, 10, &presser, Some("no:20")).is_none());
    // A different pending candidate pressing this candidate's button gets
    // nothing: the payload is not the token derived from its own id.
    let mut other = math_pending(10, 21, "unused");
    other.captcha_mode = CaptchaMode::Button;
    other.expected_answer = None;
    assert!(record_challenge(&mut st, other));
    let bystander = human(21, None);
    assert!(handle_callback(&mut st, 10, &bystander, Some("ok:20")).is_none());
    let acts = handle_callback(&mut st, 10, &presser, Some("ok:20")).unwrap();
    assert!(matches!(acts[0], Action::DeleteMessage { .. }));
    // Already resolved: a second press does nothing.
    assert!(handle_callback(&mut st, 10, &presser, Some("ok:20")).is_none());
}

#[test]
fn soft_kick_bans_then_unbans() {
    let cfg = test_config(CaptchaMode::Button, 0, false);
    let p = math_pending(10, 20, "7");
    let acts = escalation_actions(&cfg, 10, 20, &p);
    assert!(matches!(
        acts[0],
        Action::DeleteMessage {
            chat_id: 10,
            message_id: 100
        }
    ));
    assert!(matches!(
        acts[1],
        Action::BanForMinutes {
            chat_id: 10,
            user_id: 20,
            minutes: 1
        }
    ));
    assert!(matches!(
        acts[2],
        Action::Unban {
            chat_id: 10,
            user_id: 20
        }
    ));
    assert!(matches!(acts[3], Action::SendHtml { .. }));
    assert_eq!(acts.len(), 4);
}

#[test]
fn timed_ban_has_no_unban() {
    let cfg = test_config(CaptchaMode::Button, 7, false);
    let p = math_pending(10, 20, "7");
    let acts = escalation_actions(&cfg, 10, 20, &p);
    let bans: Vec<&Action> = acts
        .iter()
        .filter(|a| matches!(a, Action::BanForMinutes { .. }))
        .collect();
    assert_eq!(bans.len(), 1);
    assert!(matches!(
        bans[0],
        Action::BanForMinutes { minutes: 7, .. }
    ));
    assert!(!acts.iter().any(|a| matches!(a, Action::Unban { .. })));
}

#[test]
fn escalation_deletes_tracked_messages_when_configured() {
    let cfg = test_config(CaptchaMode::Math2, 0, true);
    let mut p = math_pending(10, 20, "7");
    p.user_message_ids = vec![101, 102];
    let acts = escalation_actions(&cfg, 10, 20, &p);
    let deletions: Vec<i32> = acts
        .iter()
        .filter_map(|a| match a {
            Action::DeleteMessage { message_id, .. } => Some(*message_id),
            _ => None,
        })
        .collect();
    assert_eq!(deletions, vec![100, 101, 102]);
}

#[test]
fn completion_deletes_newer_messages_once() {
    let mut p = math_pending(10, 20, "7");
    // 99 is older than the prompt, 101 repeats, both constraints apply.
    p.user_message_ids = vec![99, 101, 102, 101];
    let winner = human(20, Some("winner"));
    let acts = complete_actions(10, &winner, &p);
    let deletions: Vec<i32> = acts
        .iter()
        .filter_map(|a| match a {
            Action::DeleteMessage { message_id, .. } => Some(*message_id),
            _ => None,
        })
        .collect();
    assert_eq!(deletions, vec![100, 101, 102]);
    match acts.last().unwrap() {
        Action::SendHtml { text, .. } => {
            assert!(text.contains("@winner"));
            assert!(text.contains("tg://user?id=20"));
        }
        other => panic!("unexpected final action: {other:?}"),
    }
}
