//! The orchestrator: routes join, callback and text events through the
//! whitelist, the strategy dispatch, the pending store and the escalation
//! rules.
//!
//! Every outbound platform call is represented as an `Action` value; the
//! application layer performs them in order and reports outcomes back. The
//! decisions themselves — who is challenged, what resolves a challenge,
//! what happens on expiry — are verified here.

use crate::captcha::button::spec_button_valid;
use crate::captcha::button::ButtonCaptcha;
use crate::captcha::image::normalized_answer;
use crate::captcha::image::ImageCaptcha;
use crate::captcha::math2::spec_numeric_equal;
use crate::captcha::math2::Math2Captcha;
use crate::captcha::spec_answers_in_text;
use crate::captcha::answers_in_text;
use crate::chars::dec_chars_u64;
use crate::chars::spec_dec;
use crate::chars::string_of;
use crate::config::CaptchaMode;
use crate::config::Config;
use crate::pending::pending_contents;
use crate::pending::remove_model;
use crate::pending::Pending;
use crate::pending::PendingView;
use crate::state::id_set_contents;
use crate::state::name_set_contents;
use crate::state::spec_bot_allowed;
use crate::state::spec_user_allowed;
use crate::state::AppState;
use crate::state::UserInfo;
use vstd::prelude::*;
use vstd::string::*;

verus! {

// ---------------------------------------------------------------------------
// Actions
// ---------------------------------------------------------------------------

/// One outbound platform call the engine has decided on.
#[derive(Clone, Debug)]
pub enum Action {
    /// Delete one message in a chat.
    DeleteMessage { chat_id: i64, message_id: i32 },
    /// Take all send permissions from a member until the window ends.
    RestrictAll { chat_id: i64, user_id: u64, until_secs_from_now: u64 },
    /// Give a member full send permissions back.
    RestoreSendPermissions { chat_id: i64, user_id: u64 },
    /// Ban a member for that many minutes from now.
    BanForMinutes { chat_id: i64, user_id: u64, minutes: i64 },
    /// Lift a member's ban.
    Unban { chat_id: i64, user_id: u64 },
    /// Post an HTML-formatted notice.
    SendHtml { chat_id: i64, text: String },
}

/// The mathematical shape of one action.
pub ghost enum ActionView {
    DeleteMessage { chat_id: int, message_id: int },
    RestrictAll { chat_id: int, user_id: int, until_secs_from_now: int },
    RestoreSendPermissions { chat_id: int, user_id: int },
    BanForMinutes { chat_id: int, user_id: int, minutes: int },
    Unban { chat_id: int, user_id: int },
    SendHtml { chat_id: int, text: Seq<char> },
}

impl View for Action {
    type V = ActionView;

    open spec fn view(&self) -> ActionView {
        match self {
            Action::DeleteMessage { chat_id, message_id } => ActionView::DeleteMessage {
                chat_id: *chat_id as int,
                message_id: *message_id as int,
            },
            Action::RestrictAll { chat_id, user_id, until_secs_from_now } => (
            ActionView::RestrictAll {
                chat_id: *chat_id as int,
                user_id: *user_id as int,
                until_secs_from_now: *until_secs_from_now as int,
            }),
            Action::RestoreSendPermissions { chat_id, user_id } => (
            ActionView::RestoreSendPermissions {
                chat_id: *chat_id as int,
                user_id: *user_id as int,
            }),
            Action::BanForMinutes { chat_id, user_id, minutes } => ActionView::BanForMinutes {
                chat_id: *chat_id as int,
                user_id: *user_id as int,
                minutes: *minutes as int,
            },
            Action::Unban { chat_id, user_id } => ActionView::Unban {
                chat_id: *chat_id as int,
                user_id: *user_id as int,
            },
            Action::SendHtml { chat_id, text } => ActionView::SendHtml {
                chat_id: *chat_id as int,
                text: text@,
            },
        }
    }
}

/// The views of a vector of actions, in order.
pub open spec fn actions_view(v: Seq<Action>) -> Seq<ActionView> {
    v.map_values(|a: Action| a@)
}

// ---------------------------------------------------------------------------
// The join decision
// ---------------------------------------------------------------------------

/// What to do with a newly joined candidate.
#[derive(Clone, Copy, Debug, PartialEq, Eq, Structural)]
pub enum JoinDecision {
    /// The candidate is the system's own account: nothing at all.
    Ignore,
    /// A bot account not on the allow-list: ban it at once, no challenge.
    BanBot,
    /// An allow-listed bot: let it in, touching nothing.
    AllowBot,
    /// A human who bypasses verification: restore full permissions.
    Allow,
    /// Challenge the candidate, muting it first unless the strategy needs
    /// the candidate to answer in text.
    Challenge { mode: CaptchaMode, mute: bool },
}

/// The bypass-before-challenge decision order: the system's own account is
/// ignored; a bot is allowed only by the allow-list and banned otherwise; a
/// human passes on the allow-list or when challenges are off; everyone else
/// is challenged, muted unless the strategy reads its answer from text.
pub open spec fn spec_join_decision(st: AppState, self_id: int, u: UserInfo) -> JoinDecision {
    if u.id == self_id {
        JoinDecision::Ignore
    } else if u.is_bot {
        if spec_bot_allowed(st, u) {
            JoinDecision::AllowBot
        } else {
            JoinDecision::BanBot
        }
    } else if spec_user_allowed(st, u) || st.cfg.captcha_mode == CaptchaMode::Off {
        JoinDecision::Allow
    } else {
        JoinDecision::Challenge {
            mode: st.cfg.captcha_mode,
            mute: !spec_answers_in_text(st.cfg.captcha_mode),
        }
    }
}

/// Decides what to do with a join candidate.
pub fn decide_join(st: &AppState, self_id: u64, user: &UserInfo) -> (r: JoinDecision)
    ensures
        r == spec_join_decision(*st, self_id as int, *user),
{
    if user.id == self_id {
        JoinDecision::Ignore
    } else if user.is_bot {
        if st.is_bot_allowed_user(user) {
            JoinDecision::AllowBot
        } else {
            JoinDecision::BanBot
        }
    } else if st.is_user_allowed(user) || matches!(st.cfg.captcha_mode, CaptchaMode::Off) {
        JoinDecision::Allow
    } else {
        let mode = st.cfg.captcha_mode;
        JoinDecision::Challenge { mode, mute: !answers_in_text(mode) }
    }
}

/// Law: a human allow-listed by id or by username is let straight in — the
/// decision restores permissions and issues no challenge, so no prompt is
/// ever produced for it.
pub proof fn lemma_whitelisted_human_bypasses(st: AppState, self_id: int, u: UserInfo)
    requires
        !u.is_bot,
        u.id != self_id,
        spec_user_allowed(st, u),
    ensures
        spec_join_decision(st, self_id, u) == JoinDecision::Allow,
        !(spec_join_decision(st, self_id, u) matches JoinDecision::Challenge { .. }),
{
}

// ---------------------------------------------------------------------------
// Recording a fresh challenge
// ---------------------------------------------------------------------------

/// Everything of the state except the pending store kept as it was.
pub open spec fn state_unchanged_but_pending(a: AppState, b: AppState) -> bool {
    &&& a.cfg == b.cfg
    &&& id_set_contents(a.bot_whitelist_ids) == id_set_contents(b.bot_whitelist_ids)
    &&& name_set_contents(a.bot_whitelist_names) == name_set_contents(b.bot_whitelist_names)
    &&& id_set_contents(a.user_whitelist_ids) == id_set_contents(b.user_whitelist_ids)
    &&& name_set_contents(a.user_whitelist_names) == name_set_contents(b.user_whitelist_names)
}

/// Records a just-sent challenge, unless a competing invocation got there
/// first: the store is the authoritative guard, and on `false` the caller
/// must delete the prompt it sent.
pub fn record_challenge(st: &mut AppState, p: Pending) -> (r: bool)
    ensures
        state_unchanged_but_pending(*old(st), *final(st)),
        r == !pending_contents(old(st).pending).dom().contains((p.chat_id as int, p.user_id as int)),
        r ==> pending_contents(final(st).pending) == pending_contents(old(st).pending).insert(
            (p.chat_id as int, p.user_id as int),
            p@,
        ),
        !r ==> pending_contents(final(st).pending) == pending_contents(old(st).pending),
    {
    st.pending.try_insert(p)
}

// ---------------------------------------------------------------------------
// Notices
// ---------------------------------------------------------------------------

/// The display text used to greet a verified member: the `@username`, or
/// `user <id>` when there is none.
pub open spec fn spec_welcome_display(user_id: int, username: Option<Seq<char>>) -> Seq<char> {
    match username {
        Some(u) => seq!['@'] + u,
        None => "user "@ + spec_dec(user_id as nat),
    }
}

/// The welcome notice posted after a successful verification.
pub open spec fn spec_welcome_text(user_id: int, username: Option<Seq<char>>) -> Seq<char> {
    "Добро пожаловать, <a href=\"tg://user?id="@ + spec_dec(user_id as nat) + "\">"@
        + spec_welcome_display(user_id, username) + "</a>!"@
}

/// The notice posted after a challenge expires.
pub open spec fn spec_timeout_notice(user_id: int) -> Seq<char> {
    "⏳ Время на подтверждение истекло — участник <a href=\"tg://user?id="@ + spec_dec(
        user_id as nat,
    ) + "\">удалён</a>."@
}

/// Builds the welcome notice for a user.
pub fn welcome_text(user_id: u64, username: Option<&str>) -> (r: String)
    ensures
        r@ == spec_welcome_text(
            user_id as int,
            match username {
                Some(u) => Some(u@),
                None => None,
            },
        ),
{
    let mut s = String::from_str("Добро пожаловать, <a href=\"tg://user?id=");
    let digits = dec_chars_u64(user_id);
    let ds = string_of(&digits);
    s.append(ds.as_str());
    s.append("\">");
    match username {
        Some(u) => {
            s.append("@");
            s.append(u);
            proof {
                reveal_strlit("@");
                assert(s@ =~= "Добро пожаловать, <a href=\"tg://user?id="@ + spec_dec(
                    user_id as nat,
                ) + "\">"@ + (seq!['@'] + u@));
            }
        },
        None => {
            s.append("user ");
            let digits2 = dec_chars_u64(user_id);
            let ds2 = string_of(&digits2);
            s.append(ds2.as_str());
        },
    }
    s.append("</a>!");
    s
}

/// Builds the timeout notice for a user.
pub fn timeout_notice(user_id: u64) -> (r: String)
    ensures
        r@ == spec_timeout_notice(user_id as int),
{
    let mut s = String::from_str("⏳ Время на подтверждение истекло — участник <a href=\"tg://user?id=");
    let digits = dec_chars_u64(user_id);
    let ds = string_of(&digits);
    s.append(ds.as_str());
    s.append("\">удалён</a>.");
    s
}

// ---------------------------------------------------------------------------
// Validation dispatch
// ---------------------------------------------------------------------------

/// Is a callback answer valid for the entry's strategy? Only the button
/// strategy uses this channel, and it demands exactly the token derived
/// from the pending candidate's id.
pub open spec fn spec_callback_resolves(p: PendingView, payload: Option<Seq<char>>) -> bool {
    match p.captcha_mode {
        CaptchaMode::Button => spec_button_valid(p.user_id as nat, payload),
        _ => false,
    }
}

/// Is a text answer valid for the entry's strategy? The arithmetic strategy
/// wants the exact decimal sum; the image strategy wants the normalized
/// code; the others do not use this channel.
pub open spec fn spec_text_resolves(p: PendingView, text: Seq<char>) -> bool {
    match p.captcha_mode {
        CaptchaMode::Math2 => match p.expected_answer {
            Some(e) => spec_numeric_equal(text, e),
            None => false,
        },
        CaptchaMode::Image => match p.expected_answer {
            Some(e) => normalized_answer(text) == e,
            None => false,
        },
        _ => false,
    }
}

/// Validates a callback answer against a pending entry.
pub fn callback_resolves(p: &Pending, payload: Option<&str>) -> (r: bool)
    ensures
        r == spec_callback_resolves(
            p@,
            match payload {
                Some(d) => Some(d@),
                None => None,
            },
        ),
{
    match p.captcha_mode {
        CaptchaMode::Button => {
            let strategy = ButtonCaptcha;
            strategy.on_callback(p.user_id, payload)
        },
        _ => false,
    }
}

/// Validates a text answer against a pending entry.
pub fn text_resolves(p: &Pending, text: &str) -> (r: bool)
    ensures
        r == spec_text_resolves(p@, text@),
{
    match p.captcha_mode {
        CaptchaMode::Math2 => match &p.expected_answer {
            Some(e) => {
                let strategy = Math2Captcha;
                strategy.on_text(text, e.as_str())
            },
            None => false,
        },
        CaptchaMode::Image => match &p.expected_answer {
            Some(e) => {
                let strategy = ImageCaptcha;
                strategy.on_text(text, e.as_str())
            },
            None => false,
        },
        _ => false,
    }
}

// ---------------------------------------------------------------------------
// Finalization: the success path
// ---------------------------------------------------------------------------

/// The ids to delete after success: those gathered while pending that are
/// newer than the prompt, first occurrences only, in order.
pub open spec fn spec_dedup_above(s: Seq<int>, bound: int) -> Seq<int>
    decreases s.len(),
{
    if s.len() == 0 {
        Seq::empty()
    } else {
        let init = spec_dedup_above(s.drop_last(), bound);
        if s.last() > bound && !init.contains(s.last()) {
            init.push(s.last())
        } else {
            init
        }
    }
}

/// The actions finalizing a successful verification: delete the prompt,
/// delete the candidate's newer messages once each, restore permissions,
/// and post the welcome notice.
pub open spec fn spec_complete(
    chat_id: int,
    user_id: int,
    username: Option<Seq<char>>,
    p: PendingView,
) -> Seq<ActionView> {
    seq![ActionView::DeleteMessage { chat_id, message_id: p.captcha_msg_id }]
        + spec_dedup_above(p.user_message_ids, p.captcha_msg_id).map_values(
        |m: int| ActionView::DeleteMessage { chat_id, message_id: m },
    ) + seq![
        ActionView::RestoreSendPermissions { chat_id, user_id },
        ActionView::SendHtml { chat_id, text: spec_welcome_text(user_id, username) },
    ]
}

fn vec_contains_i32(v: &Vec<i32>, x: i32) -> (r: bool)
    ensures
        r == v@.map_values(|m: i32| m as int).contains(x as int),
{
    let mut i: usize = 0;
    while i < v.len()
        invariant
            i <= v@.len(),
            forall|j: int| 0 <= j < i ==> v@[j] != x,
        decreases v.len() - i,
    {
        if v[i] == x {
            proof {
                assert(v@.map_values(|m: i32| m as int)[i as int] == x as int);
            }
            return true;
        }
        i = i + 1;
    }
    proof {
        let mapped = v@.map_values(|m: i32| m as int);
        if mapped.contains(x as int) {
            let j = choose|j: int| 0 <= j < mapped.len() && mapped[j] == x as int;
            assert(v@[j] as int == x as int);
            assert(v@[j] == x);
        }
    }
    false
}

/// The actions that finalize a successful verification.
pub fn complete_actions(chat_id: i64, user: &UserInfo, p: &Pending) -> (r: Vec<Action>)
    ensures
        actions_view(r@) == spec_complete(
            chat_id as int,
            user.id as int,
            match user.username {
                Some(n) => Some(n@),
                None => None,
            },
            p@,
        ),
{
    let mut r: Vec<Action> = Vec::new();
    r.push(Action::DeleteMessage { chat_id, message_id: p.captcha_msg_id });
    let mut kept: Vec<i32> = Vec::new();
    let ids = &p.user_message_ids;
    let mut i: usize = 0;
    proof {
        assert(ids@.map_values(|m: i32| m as int).take(0) =~= Seq::<int>::empty());
        assert(kept@.map_values(|m: i32| m as int) =~= spec_dedup_above(
            ids@.map_values(|m: i32| m as int).take(0),
            p.captcha_msg_id as int,
        ));
    }
    while i < ids.len()
        invariant
            i <= ids@.len(),
            kept@.map_values(|m: i32| m as int) == spec_dedup_above(
                ids@.map_values(|m: i32| m as int).take(i as int),
                p.captcha_msg_id as int,
            ),
        decreases ids.len() - i,
    {
        let id = ids[i];
        let ghost mapped = ids@.map_values(|m: i32| m as int);
        proof {
            assert(mapped.take(i + 1).drop_last() =~= mapped.take(i as int));
            assert(mapped.take(i + 1).last() == mapped[i as int]);
            assert(mapped[i as int] == ids@[i as int] as int);
        }
        let ghost kept_before = kept@;
        if id > p.captcha_msg_id && !vec_contains_i32(&kept, id) {
            kept.push(id);
            proof {
                assert(kept@.map_values(|m: i32| m as int) =~= kept_before.map_values(
                    |m: i32| m as int,
                ).push(id as int));
            }
        }
        proof {
            assert(kept@.map_values(|m: i32| m as int) =~= spec_dedup_above(
                mapped.take(i + 1),
                p.captcha_msg_id as int,
            ));
        }
        i = i + 1;
    }
    proof {
        assert(ids@.map_values(|m: i32| m as int).take(ids@.len() as int) =~= ids@.map_values(
            |m: i32| m as int,
        ));
    }
    let mut j: usize = 0;
    while j < kept.len()
        invariant
            j <= kept@.len(),
            r@.len() == 1 + j,
            actions_view(r@) == seq![
                ActionView::DeleteMessage {
                    chat_id: chat_id as int,
                    message_id: p.captcha_msg_id as int,
                },
            ] + kept@.map_values(|m: i32| m as int).take(j as int).map_values(
                |m: int| ActionView::DeleteMessage { chat_id: chat_id as int, message_id: m },
            ),
        decreases kept.len() - j,
    {
        let mid = kept[j];
        let ghost r_before = r@;
        r.push(Action::DeleteMessage { chat_id, message_id: mid });
        proof {
            let km = kept@.map_values(|m: i32| m as int);
            assert(km.take(j + 1).drop_last() =~= km.take(j as int));
            assert(km.take(j + 1) =~= km.take(j as int).push(km[j as int]));
            assert(km.take(j + 1).map_values(
                |m: int| ActionView::DeleteMessage { chat_id: chat_id as int, message_id: m },
            ) =~= km.take(j as int).map_values(
                |m: int| ActionView::DeleteMessage { chat_id: chat_id as int, message_id: m },
            ).push(ActionView::DeleteMessage { chat_id: chat_id as int, message_id: mid as int }));
            assert(actions_view(r@) =~= actions_view(r_before).push(
                Action::DeleteMessage { chat_id, message_id: mid }@,
            ));
        }
        j = j + 1;
    }
    let username_ref: Option<&str> = match &user.username {
        Some(n) => Some(n.as_str()),
        None => None,
    };
    let text = welcome_text(user.id, username_ref);
    r.push(Action::RestoreSendPermissions { chat_id, user_id: user.id });
    r.push(Action::SendHtml { chat_id, text });
    proof {
        let km = kept@.map_values(|m: i32| m as int);
        assert(km.take(kept@.len() as int) =~= km);
        assert(actions_view(r@) =~= spec_complete(
            chat_id as int,
            user.id as int,
            match user.username {
                Some(n) => Some(n@),
                None => None,
            },
            p@,
        ));
    }
    r
}

// ---------------------------------------------------------------------------
// Finalization: the timeout path
// ---------------------------------------------------------------------------

/// The membership action escalation takes: with the configured minutes at
/// zero or below, a one-minute ban at once followed by an unban (the soft
/// kick); otherwise one ban for that many minutes.
pub open spec fn spec_membership_action(cfg: Config, chat_id: int, user_id: int) -> Seq<
    ActionView,
> {
    if cfg.kick_ban_minutes <= 0 {
        seq![
            ActionView::BanForMinutes { chat_id, user_id, minutes: 1 },
            ActionView::Unban { chat_id, user_id },
        ]
    } else {
        seq![ActionView::BanForMinutes { chat_id, user_id, minutes: cfg.kick_ban_minutes as int }]
    }
}

/// The actions escalation takes on expiry: delete the prompt; if configured,
/// delete every message gathered while pending; the membership action; and
/// the timeout notice.
pub open spec fn spec_escalation(cfg: Config, chat_id: int, user_id: int, p: PendingView) -> Seq<
    ActionView,
> {
    seq![ActionView::DeleteMessage { chat_id, message_id: p.captcha_msg_id }] + (
    if cfg.delete_unverified_messages {
        p.user_message_ids.map_values(
            |m: int| ActionView::DeleteMessage { chat_id, message_id: m },
        )
    } else {
        Seq::empty()
    }) + spec_membership_action(cfg, chat_id, user_id) + seq![
        ActionView::SendHtml { chat_id, text: spec_timeout_notice(user_id) },
    ]
}

/// The actions that escalate an expired challenge.
pub fn escalation_actions(cfg: &Config, chat_id: i64, user_id: u64, p: &Pending) -> (r: Vec<
    Action,
>)
    ensures
        actions_view(r@) == spec_escalation(*cfg, chat_id as int, user_id as int, p@),
{
    let mut r: Vec<Action> = Vec::new();
    r.push(Action::DeleteMessage { chat_id, message_id: p.captcha_msg_id });
    let ghost deletes: Seq<ActionView> = if cfg.delete_unverified_messages {
        p@.user_message_ids.map_values(
            |m: int| ActionView::DeleteMessage { chat_id: chat_id as int, message_id: m },
        )
    } else {
        Seq::empty()
    };
    if cfg.delete_unverified_messages {
        let ids = &p.user_message_ids;
        let mut i: usize = 0;
        proof {
            assert(p@.user_message_ids == ids@.map_values(|m: i32| m as int));
        }
        while i < ids.len()
            invariant
                i <= ids@.len(),
                p@.user_message_ids == ids@.map_values(|m: i32| m as int),
                actions_view(r@) == seq![
                    ActionView::DeleteMessage {
                        chat_id: chat_id as int,
                        message_id: p.captcha_msg_id as int,
                    },
                ] + p@.user_message_ids.take(i as int).map_values(
                    |m: int| ActionView::DeleteMessage { chat_id: chat_id as int, message_id: m },
                ),
            decreases ids.len() - i,
        {
            let mid = ids[i];
            let ghost r_before = r@;
            r.push(Action::DeleteMessage { chat_id, message_id: mid });
            proof {
                let um = p@.user_message_ids;
                assert(um.take(i + 1) =~= um.take(i as int).push(um[i as int]));
                assert(um[i as int] == mid as int);
                assert(um.take(i + 1).map_values(
                    |m: int| ActionView::DeleteMessage { chat_id: chat_id as int, message_id: m },
                ) =~= um.take(i as int).map_values(
                    |m: int| ActionView::DeleteMessage { chat_id: chat_id as int, message_id: m },
                ).push(
                    ActionView::DeleteMessage { chat_id: chat_id as int, message_id: mid as int },
                ));
                assert(actions_view(r@) =~= actions_view(r_before).push(
                    Action::DeleteMessage { chat_id, message_id: mid }@,
                ));
            }
            i = i + 1;
        }
        proof {
            assert(p@.user_message_ids.take(p@.user_message_ids.len() as int)
                =~= p@.user_message_ids);
        }
    }
    if cfg.kick_ban_minutes <= 0 {
        r.push(Action::BanForMinutes { chat_id, user_id, minutes: 1 });
        r.push(Action::Unban { chat_id, user_id });
    } else {
        r.push(Action::BanForMinutes { chat_id, user_id, minutes: cfg.kick_ban_minutes });
    }
    let text = timeout_notice(user_id);
    r.push(Action::SendHtml { chat_id, text });
    proof {
        assert(actions_view(r@) =~= spec_escalation(*cfg, chat_id as int, user_id as int, p@));
    }
    r
}

// ---------------------------------------------------------------------------
// The three event handlers
// ---------------------------------------------------------------------------

/// The timer fired for a key: if the challenge is still outstanding, take
/// it out and escalate; if it was already resolved, nothing — the expected
/// common case, not an error.
pub fn expire(st: &mut AppState, chat_id: i64, user_id: u64) -> (r: Option<Vec<Action>>)
    ensures
        state_unchanged_but_pending(*old(st), *final(st)),
        pending_contents(final(st).pending) == remove_model(
            pending_contents(old(st).pending),
            (chat_id as int, user_id as int),
        ).0,
        match r {
            Some(acts) => (remove_model(
                pending_contents(old(st).pending),
                (chat_id as int, user_id as int),
            ).1 matches Some(p) && actions_view(acts@) == spec_escalation(
                old(st).cfg,
                chat_id as int,
                user_id as int,
                p,
            )),
            None => remove_model(
                pending_contents(old(st).pending),
                (chat_id as int, user_id as int),
            ).1 is None,
        },
{
    match st.pending.remove_if_present(chat_id, user_id) {
        Some(p) => {
            let acts = escalation_actions(&st.cfg, chat_id, user_id, &p);
            Some(acts)
        },
        None => None,
    }
}

/// A callback answer arrived: look the challenge up, let its strategy
/// validate, and on success take the entry out — the remove-once guard
/// against a concurrently firing timer — and finalize.
pub fn handle_callback(
    st: &mut AppState,
    chat_id: i64,
    user: &UserInfo,
    payload: Option<&str>,
) -> (r: Option<Vec<Action>>)
    ensures
        state_unchanged_but_pending(*old(st), *final(st)),
        ({
            let m = pending_contents(old(st).pending);
            let k = (chat_id as int, user.id as int);
            let pl = match payload {
                Some(d) => Some(d@),
                None => None,
            };
            if user.is_bot || !m.dom().contains(k) || !spec_callback_resolves(m[k], pl) {
                r is None && pending_contents(final(st).pending) == m
            } else {
                r matches Some(acts) && pending_contents(final(st).pending) == m.remove(k)
                    && actions_view(acts@) == spec_complete(
                    chat_id as int,
                    user.id as int,
                    match user.username {
                        Some(n) => Some(n@),
                        None => None,
                    },
                    m[k],
                )
            }
        }),
{
    if user.is_bot {
        return None;
    }
    match st.pending.get(chat_id, user.id) {
        None => None,
        Some(p) => {
            if callback_resolves(&p, payload) {
                match st.pending.remove_if_present(chat_id, user.id) {
                    Some(p2) => Some(complete_actions(chat_id, user, &p2)),
                    None => None,
                }
            } else {
                None
            }
        },
    }
}

/// What tracking one inbound message does to the store: appends the id to
/// the author's outstanding entry, if there is one.
pub open spec fn spec_track(
    m: Map<(int, int), PendingView>,
    k: (int, int),
    mid: int,
) -> Map<(int, int), PendingView> {
    if m.dom().contains(k) {
        m.insert(k, PendingView { user_message_ids: m[k].user_message_ids.push(mid), ..m[k] })
    } else {
        m
    }
}

/// A message arrived from a chat member: track it for cleanup while the
/// author is pending, then give the text-reading strategies a chance to
/// accept it as an answer; on success take the entry out and finalize.
pub fn observe_user_message(
    st: &mut AppState,
    chat_id: i64,
    user: &UserInfo,
    message_id: i32,
    text: Option<&str>,
) -> (r: Option<Vec<Action>>)
    ensures
        state_unchanged_but_pending(*old(st), *final(st)),
        ({
            let m0 = pending_contents(old(st).pending);
            let k = (chat_id as int, user.id as int);
            let m1 = if message_id != 0 {
                spec_track(m0, k, message_id as int)
            } else {
                m0
            };
            let resolved = !user.is_bot && m1.dom().contains(k) && (match text {
                Some(t) => spec_text_resolves(m1[k], t@),
                None => false,
            });
            if resolved {
                r matches Some(acts) && pending_contents(final(st).pending) == m1.remove(k)
                    && actions_view(acts@) == spec_complete(
                    chat_id as int,
                    user.id as int,
                    match user.username {
                        Some(n) => Some(n@),
                        None => None,
                    },
                    m1[k],
                )
            } else {
                r is None && pending_contents(final(st).pending) == m1
            }
        }),
{
    if message_id != 0 {
        st.pending.append_message_id(chat_id, user.id, message_id);
    }
    if user.is_bot {
        return None;
    }
    match st.pending.get(chat_id, user.id) {
        None => None,
        Some(p) => {
            let valid = match text {
                Some(t) => text_resolves(&p, t),
                None => false,
            };
            if valid {
                match st.pending.remove_if_present(chat_id, user.id) {
                    Some(p2) => Some(complete_actions(chat_id, user, &p2)),
                    None => None,
                }
            } else {
                None
            }
        },
    }
}

// ---------------------------------------------------------------------------
// Laws of the escalation
// ---------------------------------------------------------------------------

/// How many bans a sequence of actions issues.
pub open spec fn count_bans(s: Seq<ActionView>) -> nat
    decreases s.len(),
{
    if s.len() == 0 {
        0
    } else {
        count_bans(s.drop_last()) + (if s.last() is BanForMinutes {
            1nat
        } else {
            0nat
        })
    }
}

/// How many unbans a sequence of actions issues.
pub open spec fn count_unbans(s: Seq<ActionView>) -> nat
    decreases s.len(),
{
    if s.len() == 0 {
        0
    } else {
        count_unbans(s.drop_last()) + (if s.last() is Unban {
            1nat
        } else {
            0nat
        })
    }
}

proof fn lemma_counts_concat(a: Seq<ActionView>, b: Seq<ActionView>)
    ensures
        count_bans(a + b) == count_bans(a) + count_bans(b),
        count_unbans(a + b) == count_unbans(a) + count_unbans(b),
    decreases b.len(),
{
    if b.len() == 0 {
        assert(a + b =~= a);
    } else {
        assert((a + b).drop_last() =~= a + b.drop_last());
        assert((a + b).last() == b.last());
        lemma_counts_concat(a, b.drop_last());
    }
}

proof fn lemma_counts_deletes(s: Seq<int>, chat_id: int)
    ensures
        count_bans(
            s.map_values(|m: int| ActionView::DeleteMessage { chat_id, message_id: m }),
        ) == 0,
        count_unbans(
            s.map_values(|m: int| ActionView::DeleteMessage { chat_id, message_id: m }),
        ) == 0,
    decreases s.len(),
{
    let f = |m: int| ActionView::DeleteMessage { chat_id, message_id: m };
    if s.len() > 0 {
        assert(s.map_values(f).drop_last() =~= s.drop_last().map_values(f));
        lemma_counts_deletes(s.drop_last(), chat_id);
    }
}

/// Law: escalation issues exactly one ban. With the configured minutes at
/// zero or below it is a one-minute ban immediately followed by the one
/// unban — a soft kick whose net effect is removal without a lasting ban.
/// With positive minutes the one ban runs that many minutes and no unban
/// ever follows.
pub proof fn lemma_soft_kick(cfg: Config, chat_id: int, user_id: int, p: PendingView)
    ensures
        count_bans(spec_escalation(cfg, chat_id, user_id, p)) == 1,
        cfg.kick_ban_minutes <= 0 ==> ({
            let acts = spec_escalation(cfg, chat_id, user_id, p);
            let n = acts.len();
            &&& count_unbans(acts) == 1
            &&& acts[n - 3] == (ActionView::BanForMinutes { chat_id, user_id, minutes: 1 })
            &&& acts[n - 2] == (ActionView::Unban { chat_id, user_id })
        }),
        cfg.kick_ban_minutes > 0 ==> ({
            let acts = spec_escalation(cfg, chat_id, user_id, p);
            let n = acts.len();
            &&& count_unbans(acts) == 0
            &&& acts[n - 2] == (ActionView::BanForMinutes {
                chat_id,
                user_id,
                minutes: cfg.kick_ban_minutes as int,
            })
        }),
{
    let head = seq![ActionView::DeleteMessage { chat_id, message_id: p.captcha_msg_id }];
    let deletes: Seq<ActionView> = if cfg.delete_unverified_messages {
        p.user_message_ids.map_values(
            |m: int| ActionView::DeleteMessage { chat_id, message_id: m },
        )
    } else {
        Seq::empty()
    };
    let membership = spec_membership_action(cfg, chat_id, user_id);
    let notice = seq![ActionView::SendHtml { chat_id, text: spec_timeout_notice(user_id) }];
    let acts = spec_escalation(cfg, chat_id, user_id, p);
    assert(acts == head + deletes + membership + notice);
    lemma_counts_concat(head + deletes + membership, notice);
    lemma_counts_concat(head + deletes, membership);
    lemma_counts_concat(head, deletes);
    assert(count_bans(head) == 0 && count_unbans(head) == 0) by {
        assert(head.drop_last() =~= Seq::<ActionView>::empty());
        assert(count_bans(Seq::<ActionView>::empty()) == 0);
        assert(count_unbans(Seq::<ActionView>::empty()) == 0);
    }
    lemma_counts_deletes(p.user_message_ids, chat_id);
    assert(count_bans(deletes) == 0 && count_unbans(deletes) == 0);
    assert(count_bans(notice) == 0 && count_unbans(notice) == 0) by {
        assert(notice.drop_last() =~= Seq::<ActionView>::empty());
        assert(count_bans(Seq::<ActionView>::empty()) == 0);
        assert(count_unbans(Seq::<ActionView>::empty()) == 0);
    }
    if cfg.kick_ban_minutes <= 0 {
        let ban = ActionView::BanForMinutes { chat_id, user_id, minutes: 1 };
        let unban = ActionView::Unban { chat_id, user_id };
        assert(membership =~= seq![ban, unban]);
        assert(membership.drop_last() =~= seq![ban]);
        assert(seq![ban].drop_last() =~= Seq::<ActionView>::empty());
        assert(count_bans(Seq::<ActionView>::empty()) == 0);
        assert(count_unbans(Seq::<ActionView>::empty()) == 0);
        assert(count_bans(seq![ban]) == 1);
        assert(count_unbans(seq![ban]) == 0);
        assert(count_bans(membership) == 1 && count_unbans(membership) == 1);
        assert(acts.len() == head.len() + deletes.len() + 2 + 1);
        assert(acts[acts.len() - 3] == membership[0]);
        assert(acts[acts.len() - 2] == membership[1]);
    } else {
        let ban = ActionView::BanForMinutes {
            chat_id,
            user_id,
            minutes: cfg.kick_ban_minutes as int,
        };
        assert(membership =~= seq![ban]);
        assert(membership.drop_last() =~= Seq::<ActionView>::empty());
        assert(count_bans(Seq::<ActionView>::empty()) == 0);
        assert(count_unbans(Seq::<ActionView>::empty()) == 0);
        assert(count_bans(membership) == 1 && count_unbans(membership) == 0);
        assert(acts.len() == head.len() + deletes.len() + 1 + 1);
        assert(acts[acts.len() - 2] == membership[0]);
    }
}


} // verus!
