use telegram_ranger::commands::handle_command;
use telegram_ranger::commands::list_or_none;
use telegram_ranger::commands::parse_command;
use telegram_ranger::commands::parse_numeric;
use telegram_ranger::config::Alphabet;
use telegram_ranger::config::CaptchaMode;
use telegram_ranger::config::Config;
use telegram_ranger::state::AppState;
use telegram_ranger::state::FileStore;
use telegram_ranger::state::UserInfo;
use telegram_ranger::state::WhitelistSnapshot;
use telegram_ranger::utils::format_mention_link;
use telegram_ranger::utils::normalize_username;

const ADMIN: u64 = 1;

fn admin_state() -> AppState {
    AppState::new(
        Config {
            captcha_timeout_secs: 60,
            admin_id: ADMIN,
            kick_ban_minutes: 0,
            delete_unverified_messages: false,
            captcha_mode: CaptchaMode::Button,
            alphabet: Alphabet::Cyrillic,
        },
        WhitelistSnapshot::default(),
    )
}

#[test]
fn test_normalize_username() {
    assert_eq!(normalize_username("@Name"), "name");
    assert_eq!(normalize_username("  @User_Name  "), "user_name");
    assert_eq!(normalize_username("Plain"), "plain");
    assert_eq!(normalize_username(""), "");
}

#[test]
fn test_format_mention_link_html_escape() {
    let s = format_mention_link(123, r#"Alice & Bob <3"#);
    assert!(s.contains(r#"Alice &amp; Bob &lt;3"#));
    assert!(s.contains(r#"tg://user?id=123"#));
}

#[test]
fn parse_command_splits_name_and_argument() {
    let (cmd, arg) = parse_command("/allowbot@SomeBot   42  ");
    assert_eq!(cmd, "allowbot");
    assert_eq!(arg.as_deref(), Some("42"));
    let (cmd, arg) = parse_command("  /listallow  ");
    assert_eq!(cmd, "listallow");
    assert!(arg.is_none());
    let (cmd, arg) = parse_command("not a command");
    assert_eq!(cmd, "");
    assert!(arg.is_none());
}

#[test]
fn parse_numeric_accepts_only_plain_ids() {
    assert_eq!(parse_numeric(" 42 "), Some(42));
    assert_eq!(parse_numeric("+7"), Some(7));
    assert_eq!(parse_numeric("42x"), None);
    assert_eq!(parse_numeric(""), None);
    assert_eq!(parse_numeric("99999999999999999999999"), None);
}

#[test]
fn admin_allows_bot_by_id() {
    let mut st = admin_state();
    let out = handle_command(&mut st, ADMIN, "/allowbot 123");
    assert_eq!(out.reply.as_deref(), Some("\u{2705} Bot 123 allowed (id)"));
    assert!(out.whitelist_changed);
    let bot = UserInfo {
        id: 123,
        is_bot: true,
        username: None,
    };
    assert!(st.is_bot_allowed_user(&bot));
    let out = handle_command(&mut st, ADMIN, "/denybot 123");
    assert_eq!(out.reply.as_deref(), Some("\u{26d4} Bot 123 denied (id)"));
    assert!(!st.is_bot_allowed_user(&bot));
}

#[test]
fn admin_allows_user_by_username() {
    let mut st = admin_state();
    let out = handle_command(&mut st, ADMIN, "/allowuser @Bob");
    assert_eq!(out.reply.as_deref(), Some("\u{2705} User @bob allowed"));
    assert!(out.whitelist_changed);
    let person = UserInfo {
        id: 555,
        is_bot: false,
        username: Some("BOB".to_string()),
    };
    assert!(st.is_user_allowed(&person));
    let out = handle_command(&mut st, ADMIN, "/denyuser Bob");
    assert_eq!(out.reply.as_deref(), Some("\u{26d4} User @bob denied"));
    assert!(!st.is_user_allowed(&person));
}

#[test]
fn missing_argument_yields_usage() {
    let mut st = admin_state();
    let out = handle_command(&mut st, ADMIN, "/allowuser");
    assert_eq!(
        out.reply.as_deref(),
        Some("Usage: <code>/allowuser &lt;id|@username&gt;</code>")
    );
    assert!(!out.whitelist_changed);
    // An argument that normalizes to nothing is malformed too.
    let out = handle_command(&mut st, ADMIN, "/allowuser @");
    assert_eq!(
        out.reply.as_deref(),
        Some("Usage: <code>/allowuser &lt;id|@username&gt;</code>")
    );
    assert!(!out.whitelist_changed);
}

#[test]
fn unknown_admin_command_gets_fallback() {
    let mut st = admin_state();
    let out = handle_command(&mut st, ADMIN, "/frobnicate");
    let text = out.reply.unwrap();
    assert!(text.contains("/help"));
    assert!(!out.whitelist_changed);
}

#[test]
fn non_admin_gets_public_surface_only() {
    let mut st = admin_state();
    let out = handle_command(&mut st, 999, "/help");
    assert!(out.reply.unwrap().contains("Telegram Ranger"));
    // The allow-list commands are silently ignored for non-admins.
    let out = handle_command(&mut st, 999, "/allowuser @Eve");
    assert!(out.reply.is_none());
    assert!(!out.whitelist_changed);
    let eve = UserInfo {
        id: 7,
        is_bot: false,
        username: Some("eve".to_string()),
    };
    assert!(!st.is_user_allowed(&eve));
}

#[test]
fn listallow_shows_entries() {
    let mut st = admin_state();
    handle_command(&mut st, ADMIN, "/allowbot 123");
    handle_command(&mut st, ADMIN, "/allowuser @Bob");
    let out = handle_command(&mut st, ADMIN, "/listallow");
    let text = out.reply.unwrap();
    // With at most one entry per list the iteration order is fixed, so the
    // whole reply is.
    assert_eq!(
        text,
        "<b>Whitelists</b>\n<b>Bots (ids)</b>: 123\n<b>Bots (names)</b>: (none)\n<b>Users (ids)</b>: (none)\n<b>Users (names)</b>: @bob"
    );
}

#[test]
fn list_or_none_joins_items() {
    assert_eq!(list_or_none(&Vec::new()), "(none)");
    let items = vec!["1".to_string(), "2".to_string(), "3".to_string()];
    assert_eq!(list_or_none(&items), "1, 2, 3");
}

#[test]
fn file_store_remembers_path() {
    let store = FileStore::new("data/state.json".to_string());
    assert_eq!(store.path, "data/state.json");
}
