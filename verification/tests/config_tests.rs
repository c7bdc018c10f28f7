use telegram_ranger::config::parse_bool_keyword;
use telegram_ranger::config::Alphabet;
use telegram_ranger::config::CaptchaMode;
use telegram_ranger::config::Config;
use telegram_ranger::state::AppState;
use telegram_ranger::state::UserInfo;
use telegram_ranger::state::WhitelistSnapshot;

#[test]
fn config_requires_admin_id() {
    assert!(Config::from_parts(None, None, None, None, None, None).is_none());
    assert!(Config::from_parts(Some("60"), Some("not a number"), None, None, None, None).is_none());
    let cfg = Config::from_parts(None, Some("42"), None, None, None, None).unwrap();
    assert_eq!(cfg.admin_id, 42);
    assert_eq!(cfg.captcha_timeout_secs, 60);
    assert_eq!(cfg.kick_ban_minutes, 0);
    assert!(!cfg.delete_unverified_messages);
    assert_eq!(cfg.captcha_mode, CaptchaMode::Button);
    assert_eq!(cfg.alphabet, Alphabet::Cyrillic);
}

#[test]
fn config_reads_every_setting() {
    let cfg = Config::from_parts(
        Some("30"),
        Some("42"),
        Some("7"),
        Some("yes"),
        Some("math2"),
        Some("latin"),
    )
    .unwrap();
    assert_eq!(cfg.captcha_timeout_secs, 30);
    assert_eq!(cfg.kick_ban_minutes, 7);
    assert!(cfg.delete_unverified_messages);
    assert_eq!(cfg.captcha_mode, CaptchaMode::Math2);
    assert_eq!(cfg.alphabet, Alphabet::Latin);
}

#[test]
fn malformed_optional_settings_fall_back() {
    let cfg = Config::from_parts(
        Some("soon"),
        Some("42"),
        Some("eternity"),
        Some("nope"),
        Some("???"),
        Some("greek"),
    )
    .unwrap();
    assert_eq!(cfg.captcha_timeout_secs, 60);
    assert_eq!(cfg.kick_ban_minutes, 0);
    assert!(!cfg.delete_unverified_messages);
    assert_eq!(cfg.captcha_mode, CaptchaMode::Button);
    assert_eq!(cfg.alphabet, Alphabet::Cyrillic);
}

#[test]
fn bool_keywords() {
    assert!(parse_bool_keyword("1"));
    assert!(parse_bool_keyword("TRUE"));
    assert!(parse_bool_keyword("Yes"));
    assert!(parse_bool_keyword("on"));
    assert!(!parse_bool_keyword("0"));
    assert!(!parse_bool_keyword("off"));
    assert!(!parse_bool_keyword(""));
}

#[test]
fn state_restores_snapshot_with_lowercased_names() {
    let snapshot = WhitelistSnapshot {
        bot_whitelist_ids: vec![10],
        bot_whitelist_usernames: vec!["HelperBot".to_string()],
        user_whitelist_ids: vec![20],
        user_whitelist_usernames: vec!["ALICE".to_string()],
    };
    let cfg = Config::from_parts(None, Some("1"), None, None, None, None).unwrap();
    let st = AppState::new(cfg, snapshot);
    assert_eq!(st.timeout(), 60);
    assert_eq!(AppState::key(5, 6), (5, 6));
    let bot = UserInfo {
        id: 999,
        is_bot: true,
        username: Some("helperbot".to_string()),
    };
    assert!(st.is_bot_allowed_user(&bot));
    let alice = UserInfo {
        id: 999,
        is_bot: false,
        username: Some("Alice".to_string()),
    };
    assert!(st.is_user_allowed(&alice));
    let directly = UserInfo {
        id: 20,
        is_bot: false,
        username: None,
    };
    assert!(st.is_user_allowed(&directly));
    // The snapshot written back mirrors the in-memory sets.
    let snap = st.snapshot();
    assert_eq!(snap.bot_whitelist_ids, vec![10]);
    assert_eq!(snap.user_whitelist_ids, vec![20]);
    assert_eq!(snap.bot_whitelist_usernames, vec!["helperbot".to_string()]);
    assert_eq!(snap.user_whitelist_usernames, vec!["alice".to_string()]);
}
