//! Username normalization and mention-text building.

use crate::chars::chars_of;
use crate::chars::dec_chars_u64;
use crate::chars::escape_html;
use crate::chars::escape_seq;
use crate::chars::lower_of;
use crate::chars::lowercase;
use crate::chars::spec_dec;
use crate::chars::string_of;
use crate::chars::trim_chars;
use crate::chars::trim_spec;
use vstd::prelude::*;
use vstd::string::*;

verus! {

/// `s` with one leading `@` removed, if present.
pub open spec fn strip_at(s: Seq<char>) -> Seq<char> {
    if s.len() > 0 && s[0] == '@' {
        s.skip(1)
    } else {
        s
    }
}

/// The normalized form of a username: trimmed, one leading `@` removed,
/// lowercased.
pub open spec fn normalized_username(s: Seq<char>) -> Seq<char> {
    lower_of(strip_at(trim_spec(s)))
}

/// Normalizes `@Name`-style input to the plain lower-case username.
pub fn normalize_username(name: &str) -> (r: String)
    ensures
        r@ == normalized_username(name@),
{
    let cs = chars_of(name);
    let t = trim_chars(&cs);
    let mut stripped: Vec<char> = Vec::new();
    let mut i: usize = 0;
    if t.len() > 0 && t[0] == '@' {
        i = 1;
    }
    let ghost base: int = i as int;
    while i < t.len()
        invariant
            base <= i <= t@.len(),
            0 <= base <= 1,
            stripped@ =~= t@.subrange(base, i as int),
        decreases t.len() - i,
    {
        stripped.push(t[i]);
        i = i + 1;
    }
    proof {
        assert(stripped@ =~= strip_at(t@));
    }
    let s = string_of(&stripped);
    lowercase(s.as_str())
}

/// The HTML mention link for a user without a public username:
/// a `tg://user` anchor around the escaped display name.
pub open spec fn mention_link(id: nat, display: Seq<char>) -> Seq<char> {
    "<a href=\"tg://user?id="@ + spec_dec(id) + "\">"@ + escape_seq(display) + "</a>"@
}

/// Builds the safe HTML mention link for a user id and display name.
pub fn format_mention_link(user_id: u64, display_name: &str) -> (r: String)
    ensures
        r@ == mention_link(user_id as nat, display_name@),
{
    let mut s = String::from_str("<a href=\"tg://user?id=");
    let digits = dec_chars_u64(user_id);
    let digit_str = string_of(&digits);
    s.append(digit_str.as_str());
    s.append("\">");
    let display = chars_of(display_name);
    let escaped = escape_html(&display);
    let escaped_str = string_of(&escaped);
    s.append(escaped_str.as_str());
    s.append("</a>");
    s
}

/// The mention text for a user: the `@username` when there is one, else a
/// mention link around the display name.
pub open spec fn mention_text_spec(
    id: nat,
    username: Option<Seq<char>>,
    display: Seq<char>,
) -> Seq<char> {
    match username {
        Some(u) => seq!['@'] + u,
        None => mention_link(id, display),
    }
}

/// Builds the mention text from what the platform reported about a user.
pub fn mention_text(user_id: u64, username: Option<&str>, display_name: &str) -> (r: String)
    ensures
        r@ == mention_text_spec(
            user_id as nat,
            match username {
                Some(u) => Some(u@),
                None => None,
            },
            display_name@,
        ),
{
    match username {
        Some(u) => {
            let mut s = String::from_str("@");
            s.append(u);
            proof {
                reveal_strlit("@");
                assert(s@ =~= seq!['@'] + u@);
            }
            s
        },
        None => format_mention_link(user_id, display_name),
    }
}

} // verus!
