//! The button challenge: one inline action whose payload carries a token
//! derived from the candidate's id; pressing it proves presence.

use crate::chars::dec_chars_u64;
use crate::chars::spec_dec;
use crate::chars::str_eq;
use crate::chars::string_of;
use crate::config::CaptchaMode;
use vstd::prelude::*;
use vstd::string::*;

verus! {

/// The button verification strategy.
pub struct ButtonCaptcha;

/// The callback payload the prompt's button carries for a candidate.
pub open spec fn spec_callback_token(user_id: nat) -> Seq<char> {
    "ok:"@ + spec_dec(user_id)
}

/// Is a callback payload a valid button answer for this candidate?
/// Success iff the payload is exactly the token derived from the
/// candidate's id.
pub open spec fn spec_button_valid(user_id: nat, payload: Option<Seq<char>>) -> bool {
    match payload {
        Some(d) => d == spec_callback_token(user_id),
        None => false,
    }
}

/// The prompt text: the mention, then the invitation with the window
/// length.
pub open spec fn spec_button_prompt(mention: Seq<char>, timeout_secs: nat) -> Seq<char> {
    mention + ", нажмите кнопку за "@ + spec_dec(timeout_secs) + " секунд"@
}

impl ButtonCaptcha {
    /// The mode this strategy serves.
    pub fn mode(&self) -> (r: CaptchaMode)
        ensures
            r == CaptchaMode::Button,
    {
        CaptchaMode::Button
    }

    /// The payload for the prompt's inline button.
    pub fn callback_token(user_id: u64) -> (r: String)
        ensures
            r@ == spec_callback_token(user_id as nat),
    {
        let mut s = String::from_str("ok:");
        let digits = dec_chars_u64(user_id);
        let ds = string_of(&digits);
        s.append(ds.as_str());
        s
    }

    /// The prompt text asking the candidate to press the button.
    pub fn prompt_html(mention: &str, timeout_secs: u64) -> (r: String)
        ensures
            r@ == spec_button_prompt(mention@, timeout_secs as nat),
    {
        let mut s = String::from_str(mention);
        s.append(", нажмите кнопку за ");
        let digits = dec_chars_u64(timeout_secs);
        let ds = string_of(&digits);
        s.append(ds.as_str());
        s.append(" секунд");
        s
    }

    /// Validates a callback payload: true iff it is exactly the token
    /// derived from the candidate's id, so pressing another candidate's
    /// button proves nothing.
    pub fn on_callback(&self, user_id: u64, payload: Option<&str>) -> (r: bool)
        ensures
            r == spec_button_valid(
                user_id as nat,
                match payload {
                    Some(d) => Some(d@),
                    None => None,
                },
            ),
    {
        match payload {
            Some(d) => {
                let token = ButtonCaptcha::callback_token(user_id);
                str_eq(d, token.as_str())
            },
            None => false,
        }
    }
}

} // verus!
