//! The administrator command surface: allow/deny bots and humans by id or
//! username, list the allow-lists, and the help texts.
//!
//! Parsing and dispatch are verified; the application layer only sends the
//! reply and, when the allow-lists changed, persists the snapshot.

use crate::chars::chars_of;
use crate::chars::char_is_space;
use crate::chars::dec_chars_u64;
use crate::chars::is_space_char;
use crate::chars::is_u64_numeral;
use crate::chars::parse_u64_chars;
use crate::chars::spec_dec;
use crate::chars::str_eq;
use crate::chars::string_of;
use crate::chars::trim_chars;
use crate::chars::trim_spec;
use crate::chars::u64_numeral_value;
use crate::pending::pending_contents;
use crate::state::id_set_contents;
use crate::state::name_set_contents;
use crate::state::AppState;
use crate::state::WhitelistSnapshot;
use crate::utils::normalized_username;
use crate::utils::normalize_username;
use vstd::prelude::*;
use vstd::string::*;

verus! {

// ---------------------------------------------------------------------------
// Command-line parsing
// ---------------------------------------------------------------------------

/// The index of the first whitespace character, or the length when there is
/// none.
pub open spec fn first_space(s: Seq<char>) -> int
    decreases s.len(),
{
    if s.len() == 0 {
        0
    } else if is_space_char(s[0]) {
        0
    } else {
        1 + first_space(s.skip(1))
    }
}

/// The index of the first `@`, or the length when there is none.
pub open spec fn first_at(s: Seq<char>) -> int
    decreases s.len(),
{
    if s.len() == 0 {
        0
    } else if s[0] == '@' {
        0
    } else {
        1 + first_at(s.skip(1))
    }
}

/// The command name in a `/cmd@bot arguments` line, and its argument:
/// everything after the first whitespace, trimmed, or nothing when that is
/// empty. A line not starting with `/` is no command.
pub open spec fn spec_parse_command(s: Seq<char>) -> (Seq<char>, Option<Seq<char>>) {
    let t = trim_spec(s);
    if t.len() == 0 || t[0] != '/' {
        (Seq::empty(), None)
    } else {
        let rest = t.skip(1);
        let i = first_space(rest);
        let head = rest.take(i);
        let argraw = if i < rest.len() {
            rest.subrange(i + 1, rest.len() as int)
        } else {
            Seq::empty()
        };
        let arg = trim_spec(argraw);
        let cmd = head.take(first_at(head));
        (cmd, if arg.len() == 0 {
            None
        } else {
            Some(arg)
        })
    }
}

proof fn lemma_first_space_at(s: Seq<char>, i: int)
    requires
        0 <= i <= s.len(),
        forall|j: int| 0 <= j < i ==> !is_space_char(#[trigger] s[j]),
        i == s.len() || is_space_char(s[i]),
    ensures
        first_space(s) == i,
    decreases i,
{
    if i == 0 {
    } else {
        let t = s.skip(1);
        assert(forall|j: int| 0 <= j < i - 1 ==> !is_space_char(#[trigger] t[j]));
        lemma_first_space_at(t, i - 1);
    }
}

proof fn lemma_first_at_at(s: Seq<char>, i: int)
    requires
        0 <= i <= s.len(),
        forall|j: int| 0 <= j < i ==> s[j] != '@',
        i == s.len() || s[i] == '@',
    ensures
        first_at(s) == i,
    decreases i,
{
    if i == 0 {
    } else {
        let t = s.skip(1);
        assert(forall|j: int| 0 <= j < i - 1 ==> t[j] != '@');
        lemma_first_at_at(t, i - 1);
    }
}

/// Splits a command line into the command name and its trimmed argument.
pub fn parse_command(text: &str) -> (r: (String, Option<String>))
    ensures
        r.0@ == spec_parse_command(text@).0,
        match r.1 {
            Some(a) => spec_parse_command(text@).1 matches Some(b) && a@ == b,
            None => spec_parse_command(text@).1 is None,
        },
{
    let cs = chars_of(text);
    let t = trim_chars(&cs);
    if t.len() == 0 || t[0] != '/' {
        let empty: Vec<char> = Vec::new();
        return (string_of(&empty), None);
    }
    let mut rest: Vec<char> = Vec::new();
    let mut i: usize = 1;
    while i < t.len()
        invariant
            1 <= i <= t@.len(),
            t@.len() > 0,
            rest@ =~= t@.skip(1).take(i - 1),
        decreases t.len() - i,
    {
        rest.push(t[i]);
        i = i + 1;
    }
    proof {
        assert(rest@ =~= t@.skip(1));
    }
    let mut sp: usize = 0;
    while sp < rest.len() && !char_is_space(rest[sp])
        invariant
            sp <= rest@.len(),
            forall|j: int| 0 <= j < sp ==> !is_space_char(#[trigger] rest@[j]),
        decreases rest.len() - sp,
    {
        sp = sp + 1;
    }
    proof {
        lemma_first_space_at(rest@, sp as int);
    }
    let mut head: Vec<char> = Vec::new();
    let mut j: usize = 0;
    while j < sp
        invariant
            j <= sp <= rest@.len(),
            head@ =~= rest@.take(sp as int).take(j as int),
        decreases sp - j,
    {
        head.push(rest[j]);
        j = j + 1;
    }
    proof {
        assert(head@ =~= rest@.take(sp as int));
    }
    let mut argraw: Vec<char> = Vec::new();
    if sp < rest.len() {
        let mut k: usize = sp + 1;
        while k < rest.len()
            invariant
                sp + 1 <= k <= rest@.len(),
                argraw@ =~= rest@.subrange(sp + 1, k as int),
            decreases rest.len() - k,
        {
            argraw.push(rest[k]);
            k = k + 1;
        }
        proof {
            assert(argraw@ =~= rest@.subrange(sp + 1, rest@.len() as int));
        }
    }
    let arg = trim_chars(&argraw);
    let mut at: usize = 0;
    while at < head.len() && head[at] != '@'
        invariant
            at <= head@.len(),
            forall|j2: int| 0 <= j2 < at ==> head@[j2] != '@',
        decreases head.len() - at,
    {
        at = at + 1;
    }
    proof {
        lemma_first_at_at(head@, at as int);
    }
    let mut cmd: Vec<char> = Vec::new();
    let mut c: usize = 0;
    while c < at
        invariant
            c <= at <= head@.len(),
            cmd@ =~= head@.take(at as int).take(c as int),
        decreases at - c,
    {
        cmd.push(head[c]);
        c = c + 1;
    }
    proof {
        assert(cmd@ =~= head@.take(at as int));
    }
    let cmd_s = string_of(&cmd);
    if arg.len() == 0 {
        (cmd_s, None)
    } else {
        (cmd_s, Some(string_of(&arg)))
    }
}

/// Parses a numeric account id: the argument trimmed, in `u64`'s grammar.
pub fn parse_numeric(s: &str) -> (r: Option<u64>)
    ensures
        r matches Some(n) ==> is_u64_numeral(trim_spec(s@)) && n == u64_numeral_value(
            trim_spec(s@),
        ),
        r is None ==> !is_u64_numeral(trim_spec(s@)),
{
    let cs = chars_of(s);
    let t = trim_chars(&cs);
    parse_u64_chars(&t)
}

// ---------------------------------------------------------------------------
// Reply texts
// ---------------------------------------------------------------------------

/// Joined list text: the items separated by commas, or a placeholder for
/// an empty list.
pub open spec fn spec_join(items: Seq<Seq<char>>) -> Seq<char>
    decreases items.len(),
{
    if items.len() == 0 {
        Seq::empty()
    } else if items.len() == 1 {
        items[0]
    } else {
        spec_join(items.drop_last()) + ", "@ + items.last()
    }
}

/// What `list_or_none` shows for a list of entries.
pub open spec fn spec_list_or_none(items: Seq<Seq<char>>) -> Seq<char> {
    if items.len() == 0 {
        "(none)"@
    } else {
        spec_join(items)
    }
}

/// The joined display of a list, or a placeholder when it is empty.
pub fn list_or_none(items: &Vec<String>) -> (r: String)
    ensures
        r@ == spec_list_or_none(items@.map_values(|s: String| s@)),
{
    let ghost mapped = items@.map_values(|s: String| s@);
    if items.len() == 0 {
        let r = String::from_str("(none)");
        return r;
    }
    let mut out = String::new();
    let mut i: usize = 0;
    while i < items.len()
        invariant
            i <= items@.len(),
            items@.len() > 0,
            mapped == items@.map_values(|s: String| s@),
            i > 0 ==> out@ == spec_join(mapped.take(i as int)),
            i == 0 ==> out@ =~= Seq::<char>::empty(),
        decreases items.len() - i,
    {
        let ghost out_before = out@;
        if i > 0 {
            out.append(", ");
        }
        out.append(items[i].as_str());
        proof {
            assert(mapped.take(i + 1).drop_last() =~= mapped.take(i as int));
            assert(mapped.take(i + 1).last() == mapped[i as int]);
            assert(mapped[i as int] == items@[i as int]@);
            if i == 0 {
                assert(mapped.take(1)[0] == mapped[0]);
                assert(out@ =~= mapped.take(1)[0]);
                assert(out@ == spec_join(mapped.take(1)));
            } else {
                assert(mapped.take(i + 1).len() >= 2);
                assert(out@ =~= spec_join(mapped.take(i as int)) + ", "@ + mapped[i as int]);
            }
        }
        i = i + 1;
    }
    proof {
        assert(mapped.take(mapped.len() as int) =~= mapped);
    }
    out
}

// ---------------------------------------------------------------------------
// Help and notice texts
// ---------------------------------------------------------------------------

/// What the administrator help text says.
pub open spec fn spec_admin_help() -> Seq<char> {
    "<b>Telegram Ranger — справка (админ)</b>

<b>Что делает бот</b>
• Капча для новых участников (кнопка с таймаутом).
• По таймауту — кик/бан (настраивается).
• Whitelist пользователей и ботов (по ID или @username).
• Можно включить удаление сообщений непроверенных пользователей.

<b>Быстрые команды</b>
<pre>/allowbot &lt;id|@username&gt;</pre>
Добавить бота в белый список. Идентификатор — числовой ID или @username (без учёта регистра).

<pre>/denybot &lt;id|@username&gt;</pre>
Убрать бота из белого списка.

<pre>/allowuser &lt;id|@username&gt;</pre>
Добавить человека в белый список (пройдёт без капчи).

<pre>/denyuser &lt;id|@username&gt;</pre>
Убрать человека из белого списка.

<pre>/listallow</pre>
Показать текущие whitelist'ы.

<pre>/about</pre>
Информация о проекте и ссылка на README.

<b>Полезно знать</b>
• @username обрабатывается без учёта регистра и без «@».
• Для кика по таймауту у бота должны быть права администратора на «Удаление участников» и «Ограничение участников».
• Настройки берутся из <code>.env</code>.
"@
}

/// The administrator help text.
pub fn admin_help_text() -> (r: String)
    ensures
        r@ == spec_admin_help(),
{
    String::from_str("<b>Telegram Ranger — справка (админ)</b>

<b>Что делает бот</b>
• Капча для новых участников (кнопка с таймаутом).
• По таймауту — кик/бан (настраивается).
• Whitelist пользователей и ботов (по ID или @username).
• Можно включить удаление сообщений непроверенных пользователей.

<b>Быстрые команды</b>
<pre>/allowbot &lt;id|@username&gt;</pre>
Добавить бота в белый список. Идентификатор — числовой ID или @username (без учёта регистра).

<pre>/denybot &lt;id|@username&gt;</pre>
Убрать бота из белого списка.

<pre>/allowuser &lt;id|@username&gt;</pre>
Добавить человека в белый список (пройдёт без капчи).

<pre>/denyuser &lt;id|@username&gt;</pre>
Убрать человека из белого списка.

<pre>/listallow</pre>
Показать текущие whitelist'ы.

<pre>/about</pre>
Информация о проекте и ссылка на README.

<b>Полезно знать</b>
• @username обрабатывается без учёта регистра и без «@».
• Для кика по таймауту у бота должны быть права администратора на «Удаление участников» и «Ограничение участников».
• Настройки берутся из <code>.env</code>.
")
}

/// What the user help text says.
pub open spec fn spec_user_help() -> Seq<char> {
    "<b>Telegram Ranger</b>
Я помогаю защищать группы от спама: прошу новичков подтвердить, что они человек.

Если хочешь установить такого же бота к себе — смотри инструкцию:
<a href=\"https://github.com/filippovle/telegram-ranger#readme\">https://github.com/filippovle/telegram-ranger#readme</a>

Доступные команды в этом чате:
• <b>/help</b> — краткая справка.
• Остальные команды доступны администратору группы."@
}

/// The help text shown to ordinary users.
pub fn user_help_text() -> (r: String)
    ensures
        r@ == spec_user_help(),
{
    String::from_str("<b>Telegram Ranger</b>
Я помогаю защищать группы от спама: прошу новичков подтвердить, что они человек.

Если хочешь установить такого же бота к себе — смотри инструкцию:
<a href=\"https://github.com/filippovle/telegram-ranger#readme\">https://github.com/filippovle/telegram-ranger#readme</a>

Доступные команды в этом чате:
• <b>/help</b> — краткая справка.
• Остальные команды доступны администратору группы.")
}

/// What the project information text says.
pub open spec fn spec_about() -> Seq<char> {
    "<b>Telegram Ranger</b>
Исходники и руководство: <a href=\"https://github.com/filippovle/telegram-ranger#readme\">https://github.com/filippovle/telegram-ranger#readme</a>
Автор: Lev Filippov
Лицензия: MIT"@
}

/// The project information text.
pub fn about_text() -> (r: String)
    ensures
        r@ == spec_about(),
{
    String::from_str("<b>Telegram Ranger</b>
Исходники и руководство: <a href=\"https://github.com/filippovle/telegram-ranger#readme\">https://github.com/filippovle/telegram-ranger#readme</a>
Автор: Lev Filippov
Лицензия: MIT")
}

/// The fallback reply to an unknown administrator command.
pub open spec fn spec_unknown_command() -> Seq<char> {
    "Неизвестная команда. Посмотри <b>/help</b> для списка и примеров."@
}

/// The usage lines for the four allow-list commands.
pub open spec fn spec_usage_allowbot() -> Seq<char> {
    "Usage: <code>/allowbot &lt;id|@username&gt;</code>"@
}

pub open spec fn spec_usage_denybot() -> Seq<char> {
    "Usage: <code>/denybot &lt;id|@username&gt;</code>"@
}

pub open spec fn spec_usage_allowuser() -> Seq<char> {
    "Usage: <code>/allowuser &lt;id|@username&gt;</code>"@
}

pub open spec fn spec_usage_denyuser() -> Seq<char> {
    "Usage: <code>/denyuser &lt;id|@username&gt;</code>"@
}

// ---------------------------------------------------------------------------
// The whitelists listing
// ---------------------------------------------------------------------------

/// Does the sequence enumerate exactly the members of the id set, each
/// once?
pub open spec fn enumerates_ids(ids: Seq<u64>, s: Set<u64>) -> bool {
    &&& ids.no_duplicates()
    &&& forall|x: u64| ids.contains(x) <==> #[trigger] s.contains(x)
}

/// Does the sequence enumerate exactly the members of the username set,
/// each once?
pub open spec fn enumerates_names(names: Seq<Seq<char>>, s: Set<Seq<char>>) -> bool {
    &&& names.no_duplicates()
    &&& forall|x: Seq<char>| names.contains(x) <==> #[trigger] s.contains(x)
}

/// Ids rendered for display: each member's decimal form.
pub open spec fn rendered_ids(ids: Seq<u64>) -> Seq<Seq<char>> {
    ids.map_values(|v: u64| spec_dec(v as nat))
}

/// Usernames rendered for display: each with a leading `@`.
pub open spec fn rendered_names(names: Seq<Seq<char>>) -> Seq<Seq<char>> {
    names.map_values(|n: Seq<char>| seq!['@'] + n)
}

/// The whitelists reply assembled from the four rendered lists.
pub open spec fn spec_whitelists_text(
    b_ids: Seq<Seq<char>>,
    b_names: Seq<Seq<char>>,
    u_ids: Seq<Seq<char>>,
    u_names: Seq<Seq<char>>,
) -> Seq<char> {
    "<b>Whitelists</b>\n<b>Bots (ids)</b>: "@ + spec_list_or_none(b_ids)
        + "\n<b>Bots (names)</b>: "@ + spec_list_or_none(b_names) + "\n<b>Users (ids)</b>: "@
        + spec_list_or_none(u_ids) + "\n<b>Users (names)</b>: "@ + spec_list_or_none(u_names)
}

/// Is `t` a listing of the state's four allow-lists: the rendered decimal
/// ids and `@`-prefixed usernames of some duplicate-free enumeration of
/// each set? The concurrent sets are walked in no promised order, so the
/// enumerations are existential; their contents are not.
pub open spec fn is_whitelists_reply(t: Seq<char>, a: AppState) -> bool {
    exists|bid: Seq<u64>, bnm: Seq<Seq<char>>, uid: Seq<u64>, unm: Seq<Seq<char>>|
        #![trigger rendered_ids(bid), rendered_names(bnm), rendered_ids(uid), rendered_names(unm)]
        enumerates_ids(bid, id_set_contents(a.bot_whitelist_ids)) && enumerates_names(
            bnm,
            name_set_contents(a.bot_whitelist_names),
        ) && enumerates_ids(uid, id_set_contents(a.user_whitelist_ids)) && enumerates_names(
            unm,
            name_set_contents(a.user_whitelist_names),
        ) && t == spec_whitelists_text(
            rendered_ids(bid),
            rendered_names(bnm),
            rendered_ids(uid),
            rendered_names(unm),
        )
}

// ---------------------------------------------------------------------------
// Dispatch
// ---------------------------------------------------------------------------

/// The result of one command: the reply to post, if any, and whether the
/// allow-lists changed, so that the caller persists the snapshot.
pub struct CommandOutcome {
    pub reply: Option<String>,
    pub whitelist_changed: bool,
}

/// Does the outcome reply with exactly this text?
pub open spec fn reply_is(r: CommandOutcome, t: Seq<char>) -> bool {
    match r.reply {
        Some(s) => s@ == t,
        None => false,
    }
}

/// All four allow-lists kept as they were.
pub open spec fn wl_same(a: AppState, b: AppState) -> bool {
    &&& id_set_contents(a.bot_whitelist_ids) == id_set_contents(b.bot_whitelist_ids)
    &&& name_set_contents(a.bot_whitelist_names) == name_set_contents(b.bot_whitelist_names)
    &&& id_set_contents(a.user_whitelist_ids) == id_set_contents(b.user_whitelist_ids)
    &&& name_set_contents(a.user_whitelist_names) == name_set_contents(b.user_whitelist_names)
}

/// What an administrator command does: which allow-list changes, and what
/// the reply says. The listing command's reply walks the concurrent sets in
/// no promised order, so only its existence is stated.
pub open spec fn admin_effect(
    a: AppState,
    b: AppState,
    cmd: Seq<char>,
    arg: Option<Seq<char>>,
    r: CommandOutcome,
) -> bool {
    if cmd == "start"@ || cmd == "help"@ {
        wl_same(a, b) && !r.whitelist_changed && reply_is(r, spec_admin_help())
    } else if cmd == "allowbot"@ {
        match arg {
            None => wl_same(a, b) && !r.whitelist_changed && reply_is(r, spec_usage_allowbot()),
            Some(s) => {
                if is_u64_numeral(trim_spec(s)) {
                    let id = u64_numeral_value(trim_spec(s));
                    &&& id_set_contents(b.bot_whitelist_ids) == id_set_contents(
                        a.bot_whitelist_ids,
                    ).insert(id as u64)
                    &&& name_set_contents(a.bot_whitelist_names) == name_set_contents(
                        b.bot_whitelist_names,
                    )
                    &&& id_set_contents(a.user_whitelist_ids) == id_set_contents(
                        b.user_whitelist_ids,
                    )
                    &&& name_set_contents(a.user_whitelist_names) == name_set_contents(
                        b.user_whitelist_names,
                    )
                    &&& r.whitelist_changed
                    &&& reply_is(r, "\u{2705} Bot "@ + spec_dec(id as nat) + " allowed (id)"@)
                } else {
                    &&& name_set_contents(b.bot_whitelist_names) == name_set_contents(
                        a.bot_whitelist_names,
                    ).insert(normalized_username(s))
                    &&& id_set_contents(a.bot_whitelist_ids) == id_set_contents(b.bot_whitelist_ids)
                    &&& id_set_contents(a.user_whitelist_ids) == id_set_contents(
                        b.user_whitelist_ids,
                    )
                    &&& name_set_contents(a.user_whitelist_names) == name_set_contents(
                        b.user_whitelist_names,
                    )
                    &&& r.whitelist_changed
                    &&& reply_is(r, "\u{2705} Bot "@ + s + " allowed (username)"@)
                }
            },
        }
    } else if cmd == "denybot"@ {
        match arg {
            None => wl_same(a, b) && !r.whitelist_changed && reply_is(r, spec_usage_denybot()),
            Some(s) => {
                if is_u64_numeral(trim_spec(s)) {
                    let id = u64_numeral_value(trim_spec(s));
                    &&& id_set_contents(b.bot_whitelist_ids) == id_set_contents(
                        a.bot_whitelist_ids,
                    ).remove(id as u64)
                    &&& name_set_contents(a.bot_whitelist_names) == name_set_contents(
                        b.bot_whitelist_names,
                    )
                    &&& id_set_contents(a.user_whitelist_ids) == id_set_contents(
                        b.user_whitelist_ids,
                    )
                    &&& name_set_contents(a.user_whitelist_names) == name_set_contents(
                        b.user_whitelist_names,
                    )
                    &&& r.whitelist_changed
                    &&& reply_is(r, "\u{26d4} Bot "@ + spec_dec(id as nat) + " denied (id)"@)
                } else {
                    &&& name_set_contents(b.bot_whitelist_names) == name_set_contents(
                        a.bot_whitelist_names,
                    ).remove(normalized_username(s))
                    &&& id_set_contents(a.bot_whitelist_ids) == id_set_contents(b.bot_whitelist_ids)
                    &&& id_set_contents(a.user_whitelist_ids) == id_set_contents(
                        b.user_whitelist_ids,
                    )
                    &&& name_set_contents(a.user_whitelist_names) == name_set_contents(
                        b.user_whitelist_names,
                    )
                    &&& r.whitelist_changed
                    &&& reply_is(r, "\u{26d4} Bot "@ + s + " denied (username)"@)
                }
            },
        }
    } else if cmd == "allowuser"@ {
        match arg {
            None => wl_same(a, b) && !r.whitelist_changed && reply_is(r, spec_usage_allowuser()),
            Some(s) => {
                if is_u64_numeral(trim_spec(s)) {
                    let id = u64_numeral_value(trim_spec(s));
                    &&& id_set_contents(b.user_whitelist_ids) == id_set_contents(
                        a.user_whitelist_ids,
                    ).insert(id as u64)
                    &&& name_set_contents(a.user_whitelist_names) == name_set_contents(
                        b.user_whitelist_names,
                    )
                    &&& id_set_contents(a.bot_whitelist_ids) == id_set_contents(b.bot_whitelist_ids)
                    &&& name_set_contents(a.bot_whitelist_names) == name_set_contents(
                        b.bot_whitelist_names,
                    )
                    &&& r.whitelist_changed
                    &&& reply_is(r, "\u{2705} User "@ + spec_dec(id as nat) + " allowed"@)
                } else if normalized_username(s).len() == 0 {
                    wl_same(a, b) && !r.whitelist_changed && reply_is(r, spec_usage_allowuser())
                } else {
                    &&& name_set_contents(b.user_whitelist_names) == name_set_contents(
                        a.user_whitelist_names,
                    ).insert(normalized_username(s))
                    &&& id_set_contents(a.user_whitelist_ids) == id_set_contents(
                        b.user_whitelist_ids,
                    )
                    &&& id_set_contents(a.bot_whitelist_ids) == id_set_contents(b.bot_whitelist_ids)
                    &&& name_set_contents(a.bot_whitelist_names) == name_set_contents(
                        b.bot_whitelist_names,
                    )
                    &&& r.whitelist_changed
                    &&& reply_is(
                        r,
                        "\u{2705} User @"@ + normalized_username(s) + " allowed"@,
                    )
                }
            },
        }
    } else if cmd == "denyuser"@ {
        match arg {
            None => wl_same(a, b) && !r.whitelist_changed && reply_is(r, spec_usage_denyuser()),
            Some(s) => {
                if is_u64_numeral(trim_spec(s)) {
                    let id = u64_numeral_value(trim_spec(s));
                    &&& id_set_contents(b.user_whitelist_ids) == id_set_contents(
                        a.user_whitelist_ids,
                    ).remove(id as u64)
                    &&& name_set_contents(a.user_whitelist_names) == name_set_contents(
                        b.user_whitelist_names,
                    )
                    &&& id_set_contents(a.bot_whitelist_ids) == id_set_contents(b.bot_whitelist_ids)
                    &&& name_set_contents(a.bot_whitelist_names) == name_set_contents(
                        b.bot_whitelist_names,
                    )
                    &&& r.whitelist_changed
                    &&& reply_is(r, "\u{26d4} User "@ + spec_dec(id as nat) + " denied"@)
                } else if normalized_username(s).len() == 0 {
                    wl_same(a, b) && !r.whitelist_changed && reply_is(r, spec_usage_denyuser())
                } else {
                    &&& name_set_contents(b.user_whitelist_names) == name_set_contents(
                        a.user_whitelist_names,
                    ).remove(normalized_username(s))
                    &&& id_set_contents(a.user_whitelist_ids) == id_set_contents(
                        b.user_whitelist_ids,
                    )
                    &&& id_set_contents(a.bot_whitelist_ids) == id_set_contents(b.bot_whitelist_ids)
                    &&& name_set_contents(a.bot_whitelist_names) == name_set_contents(
                        b.bot_whitelist_names,
                    )
                    &&& r.whitelist_changed
                    &&& reply_is(r, "\u{26d4} User @"@ + normalized_username(s) + " denied"@)
                }
            },
        }
    } else if cmd == "listallow"@ {
        wl_same(a, b) && !r.whitelist_changed && (r.reply matches Some(t) && is_whitelists_reply(
            t@,
            a,
        ))
    } else if cmd == "about"@ {
        wl_same(a, b) && !r.whitelist_changed && reply_is(r, spec_about())
    } else {
        wl_same(a, b) && !r.whitelist_changed && reply_is(r, spec_unknown_command())
    }
}

/// What an ordinary user's command does: only the help and about texts
/// answer; everything else is silently ignored.
pub open spec fn user_effect(cmd: Seq<char>, r: CommandOutcome) -> bool {
    &&& !r.whitelist_changed
    &&& (if cmd == "start"@ || cmd == "help"@ {
        reply_is(r, spec_user_help())
    } else if cmd == "about"@ {
        reply_is(r, spec_about())
    } else {
        r.reply is None
    })
}

fn handle_user_command(cmd: &str) -> (r: CommandOutcome)
    ensures
        user_effect(cmd@, r),
{
    if str_eq(cmd, "start") || str_eq(cmd, "help") {
        CommandOutcome { reply: Some(user_help_text()), whitelist_changed: false }
    } else if str_eq(cmd, "about") {
        CommandOutcome { reply: Some(about_text()), whitelist_changed: false }
    } else {
        CommandOutcome { reply: None, whitelist_changed: false }
    }
}

fn usage_reply(usage: &str) -> (r: CommandOutcome)
    ensures
        r.reply matches Some(s) && s@ == usage@,
        !r.whitelist_changed,
{
    CommandOutcome { reply: Some(String::from_str(usage)), whitelist_changed: false }
}

fn handle_admin_command(st: &mut AppState, cmd: &str, arg: Option<String>) -> (r: CommandOutcome)
    ensures
        old(st).cfg == final(st).cfg,
        pending_contents(old(st).pending) == pending_contents(final(st).pending),
        admin_effect(
            *old(st),
            *final(st),
            cmd@,
            match arg {
                Some(a) => Some(a@),
                None => None,
            },
            r,
        ),
{
    if str_eq(cmd, "start") || str_eq(cmd, "help") {
        CommandOutcome { reply: Some(admin_help_text()), whitelist_changed: false }
    } else if str_eq(cmd, "allowbot") {
        match arg {
            None => usage_reply("Usage: <code>/allowbot &lt;id|@username&gt;</code>"),
            Some(a) => match parse_numeric(a.as_str()) {
                Some(id) => {
                    st.allow_bot_id(id);
                    let mut t = String::from_str("\u{2705} Bot ");
                    let d = dec_chars_u64(id);
                    let ds = string_of(&d);
                    t.append(ds.as_str());
                    t.append(" allowed (id)");
                    CommandOutcome { reply: Some(t), whitelist_changed: true }
                },
                None => {
                    st.allow_bot_username(a.as_str());
                    let mut t = String::from_str("\u{2705} Bot ");
                    t.append(a.as_str());
                    t.append(" allowed (username)");
                    CommandOutcome { reply: Some(t), whitelist_changed: true }
                },
            },
        }
    } else if str_eq(cmd, "denybot") {
        match arg {
            None => usage_reply("Usage: <code>/denybot &lt;id|@username&gt;</code>"),
            Some(a) => match parse_numeric(a.as_str()) {
                Some(id) => {
                    st.deny_bot_id(id);
                    let mut t = String::from_str("\u{26d4} Bot ");
                    let d = dec_chars_u64(id);
                    let ds = string_of(&d);
                    t.append(ds.as_str());
                    t.append(" denied (id)");
                    CommandOutcome { reply: Some(t), whitelist_changed: true }
                },
                None => {
                    st.deny_bot_username(a.as_str());
                    let mut t = String::from_str("\u{26d4} Bot ");
                    t.append(a.as_str());
                    t.append(" denied (username)");
                    CommandOutcome { reply: Some(t), whitelist_changed: true }
                },
            },
        }
    } else if str_eq(cmd, "allowuser") {
        match arg {
            None => usage_reply("Usage: <code>/allowuser &lt;id|@username&gt;</code>"),
            Some(a) => match parse_numeric(a.as_str()) {
                Some(id) => {
                    st.allow_user_id(id);
                    let mut t = String::from_str("\u{2705} User ");
                    let d = dec_chars_u64(id);
                    let ds = string_of(&d);
                    t.append(ds.as_str());
                    t.append(" allowed");
                    CommandOutcome { reply: Some(t), whitelist_changed: true }
                },
                None => {
                    let uname = normalize_username(a.as_str());
                    if uname.as_str().is_empty() {
                        usage_reply("Usage: <code>/allowuser &lt;id|@username&gt;</code>")
                    } else {
                        st.allow_username(a.as_str());
                        let mut t = String::from_str("\u{2705} User @");
                        t.append(uname.as_str());
                        t.append(" allowed");
                        CommandOutcome { reply: Some(t), whitelist_changed: true }
                    }
                },
            },
        }
    } else if str_eq(cmd, "denyuser") {
        match arg {
            None => usage_reply("Usage: <code>/denyuser &lt;id|@username&gt;</code>"),
            Some(a) => match parse_numeric(a.as_str()) {
                Some(id) => {
                    st.deny_user_id(id);
                    let mut t = String::from_str("\u{26d4} User ");
                    let d = dec_chars_u64(id);
                    let ds = string_of(&d);
                    t.append(ds.as_str());
                    t.append(" denied");
                    CommandOutcome { reply: Some(t), whitelist_changed: true }
                },
                None => {
                    let uname = normalize_username(a.as_str());
                    if uname.as_str().is_empty() {
                        usage_reply("Usage: <code>/denyuser &lt;id|@username&gt;</code>")
                    } else {
                        st.deny_username(a.as_str());
                        let mut t = String::from_str("\u{26d4} User @");
                        t.append(uname.as_str());
                        t.append(" denied");
                        CommandOutcome { reply: Some(t), whitelist_changed: true }
                    }
                },
            },
        }
    } else if str_eq(cmd, "listallow") {
        let snap: WhitelistSnapshot = st.snapshot();
        let mut bot_ids: Vec<String> = Vec::new();
        let mut i: usize = 0;
        while i < snap.bot_whitelist_ids.len()
            invariant
                i <= snap.bot_whitelist_ids@.len(),
                bot_ids@.len() == i,
                forall|j: int|
                    0 <= j < i ==> #[trigger] bot_ids@[j]@ == spec_dec(
                        snap.bot_whitelist_ids@[j] as nat,
                    ),
            decreases snap.bot_whitelist_ids.len() - i,
        {
            let d = dec_chars_u64(snap.bot_whitelist_ids[i]);
            bot_ids.push(string_of(&d));
            i = i + 1;
        }
        let mut bot_names: Vec<String> = Vec::new();
        let mut i2: usize = 0;
        while i2 < snap.bot_whitelist_usernames.len()
            invariant
                i2 <= snap.bot_whitelist_usernames@.len(),
                bot_names@.len() == i2,
                forall|j: int|
                    0 <= j < i2 ==> #[trigger] bot_names@[j]@ == seq!['@']
                        + snap.bot_whitelist_usernames@[j]@,
            decreases snap.bot_whitelist_usernames.len() - i2,
        {
            let mut n = String::from_str("@");
            n.append(snap.bot_whitelist_usernames[i2].as_str());
            proof {
                reveal_strlit("@");
                assert(n@ =~= seq!['@'] + snap.bot_whitelist_usernames@[i2 as int]@);
            }
            bot_names.push(n);
            i2 = i2 + 1;
        }
        let mut user_ids: Vec<String> = Vec::new();
        let mut i3: usize = 0;
        while i3 < snap.user_whitelist_ids.len()
            invariant
                i3 <= snap.user_whitelist_ids@.len(),
                user_ids@.len() == i3,
                forall|j: int|
                    0 <= j < i3 ==> #[trigger] user_ids@[j]@ == spec_dec(
                        snap.user_whitelist_ids@[j] as nat,
                    ),
            decreases snap.user_whitelist_ids.len() - i3,
        {
            let d = dec_chars_u64(snap.user_whitelist_ids[i3]);
            user_ids.push(string_of(&d));
            i3 = i3 + 1;
        }
        let mut user_names: Vec<String> = Vec::new();
        let mut i4: usize = 0;
        while i4 < snap.user_whitelist_usernames.len()
            invariant
                i4 <= snap.user_whitelist_usernames@.len(),
                user_names@.len() == i4,
                forall|j: int|
                    0 <= j < i4 ==> #[trigger] user_names@[j]@ == seq!['@']
                        + snap.user_whitelist_usernames@[j]@,
            decreases snap.user_whitelist_usernames.len() - i4,
        {
            let mut n = String::from_str("@");
            n.append(snap.user_whitelist_usernames[i4].as_str());
            proof {
                reveal_strlit("@");
                assert(n@ =~= seq!['@'] + snap.user_whitelist_usernames@[i4 as int]@);
            }
            user_names.push(n);
            i4 = i4 + 1;
        }
        let mut t = String::from_str("<b>Whitelists</b>\n<b>Bots (ids)</b>: ");
        let l1 = list_or_none(&bot_ids);
        t.append(l1.as_str());
        t.append("\n<b>Bots (names)</b>: ");
        let l2 = list_or_none(&bot_names);
        t.append(l2.as_str());
        t.append("\n<b>Users (ids)</b>: ");
        let l3 = list_or_none(&user_ids);
        t.append(l3.as_str());
        t.append("\n<b>Users (names)</b>: ");
        let l4 = list_or_none(&user_names);
        t.append(l4.as_str());
        proof {
            let bid = snap.bot_whitelist_ids@;
            let uid = snap.user_whitelist_ids@;
            let bnm = snap.bot_whitelist_usernames@.map_values(|s0: String| s0@);
            let unm = snap.user_whitelist_usernames@.map_values(|s0: String| s0@);
            // The snapshot's enumerations are duplicate-free and hold
            // exactly the sets' members.
            assert(enumerates_ids(bid, id_set_contents(old(st).bot_whitelist_ids)));
            assert(enumerates_ids(uid, id_set_contents(old(st).user_whitelist_ids)));
            assert forall|ii: int, jj: int|
                0 <= ii < jj < bnm.len() implies bnm[ii] != bnm[jj] by {
                assert(bnm[ii] == snap.bot_whitelist_usernames@[ii]@);
                assert(bnm[jj] == snap.bot_whitelist_usernames@[jj]@);
            }
            assert forall|ii: int, jj: int|
                0 <= ii < jj < unm.len() implies unm[ii] != unm[jj] by {
                assert(unm[ii] == snap.user_whitelist_usernames@[ii]@);
                assert(unm[jj] == snap.user_whitelist_usernames@[jj]@);
            }
            assert forall|x: Seq<char>|
                bnm.contains(x) <==> #[trigger] name_set_contents(
                    old(st).bot_whitelist_names,
                ).contains(x) by {
                if bnm.contains(x) {
                    let ii = choose|ii: int| 0 <= ii < bnm.len() && bnm[ii] == x;
                    assert(x == snap.bot_whitelist_usernames@[ii]@);
                }
                if name_set_contents(old(st).bot_whitelist_names).contains(x) {
                    let ii = choose|ii: int|
                        0 <= ii < snap.bot_whitelist_usernames@.len()
                            && snap.bot_whitelist_usernames@[ii]@ == x;
                    assert(bnm[ii] == x);
                }
            }
            assert forall|x: Seq<char>|
                unm.contains(x) <==> #[trigger] name_set_contents(
                    old(st).user_whitelist_names,
                ).contains(x) by {
                if unm.contains(x) {
                    let ii = choose|ii: int| 0 <= ii < unm.len() && unm[ii] == x;
                    assert(x == snap.user_whitelist_usernames@[ii]@);
                }
                if name_set_contents(old(st).user_whitelist_names).contains(x) {
                    let ii = choose|ii: int|
                        0 <= ii < snap.user_whitelist_usernames@.len()
                            && snap.user_whitelist_usernames@[ii]@ == x;
                    assert(unm[ii] == x);
                }
            }
            assert(enumerates_names(bnm, name_set_contents(old(st).bot_whitelist_names)));
            assert(enumerates_names(unm, name_set_contents(old(st).user_whitelist_names)));
            // The built lists are exactly the rendered enumerations.
            assert(bot_ids@.map_values(|s0: String| s0@) =~= rendered_ids(bid));
            assert(user_ids@.map_values(|s0: String| s0@) =~= rendered_ids(uid));
            assert forall|jj: int|
                0 <= jj < bnm.len() implies #[trigger] rendered_names(bnm)[jj] == bot_names@[
                jj]@ by {
                assert(rendered_names(bnm)[jj] == seq!['@'] + bnm[jj]);
                assert(bnm[jj] == snap.bot_whitelist_usernames@[jj]@);
            }
            assert(bot_names@.map_values(|s0: String| s0@) =~= rendered_names(bnm));
            assert forall|jj: int|
                0 <= jj < unm.len() implies #[trigger] rendered_names(unm)[jj] == user_names@[
                jj]@ by {
                assert(rendered_names(unm)[jj] == seq!['@'] + unm[jj]);
                assert(unm[jj] == snap.user_whitelist_usernames@[jj]@);
            }
            assert(user_names@.map_values(|s0: String| s0@) =~= rendered_names(unm));
            assert(t@ =~= spec_whitelists_text(
                rendered_ids(bid),
                rendered_names(bnm),
                rendered_ids(uid),
                rendered_names(unm),
            ));
            assert(is_whitelists_reply(t@, *old(st)));
        }
        CommandOutcome { reply: Some(t), whitelist_changed: false }
    } else if str_eq(cmd, "about") {
        CommandOutcome { reply: Some(about_text()), whitelist_changed: false }
    } else {
        CommandOutcome {
            reply: Some(String::from_str("Неизвестная команда. Посмотри <b>/help</b> для списка и примеров.")),
            whitelist_changed: false,
        }
    }
}

/// The entry point for every command line, in private and group chats: the
/// administrator gets the full surface; everyone else the public texts.
pub fn handle_command(st: &mut AppState, from_id: u64, text: &str) -> (r: CommandOutcome)
    ensures
        old(st).cfg == final(st).cfg,
        pending_contents(old(st).pending) == pending_contents(final(st).pending),
        from_id != old(st).cfg.admin_id ==> wl_same(*old(st), *final(st)) && user_effect(
            spec_parse_command(text@).0,
            r,
        ),
        from_id == old(st).cfg.admin_id ==> admin_effect(
            *old(st),
            *final(st),
            spec_parse_command(text@).0,
            spec_parse_command(text@).1,
            r,
        ),
{
    let (cmd, arg) = parse_command(text);
    if from_id == st.cfg.admin_id {
        handle_admin_command(st, cmd.as_str(), arg)
    } else {
        handle_user_command(cmd.as_str())
    }
}

} // verus!
