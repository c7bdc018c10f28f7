//! Challenge strategies: a closed, tag-dispatched set of verification
//! variants, each producing a prompt and validating a response.

pub mod button;
pub mod image;
pub mod math2;

use crate::captcha::button::spec_button_prompt;
use crate::captcha::button::spec_callback_token;
use crate::captcha::button::ButtonCaptcha;
use crate::captcha::image::alphabet_chars;
use crate::captcha::image::ImageCaptcha;
use crate::captcha::math2::spec_math2_prompt;
use crate::captcha::math2::Math2Captcha;
use crate::chars::dec_chars_u64;
use crate::chars::lower_of;
use crate::chars::spec_dec;
use crate::chars::string_of;
use crate::config::CaptchaMode;
use crate::config::Config;
use rand::Rng;
use vstd::string::*;
use vstd::prelude::*;

verus! {

/// Relies on `rand::rng` and `Rng::random_range`: a value drawn from the
/// given half-open range; nothing else can be promised of a random draw.
#[verifier::external_body]
pub(crate) fn random_below_u32(n: u32) -> (r: u32)
    requires
        n > 0,
    ensures
        r < n,
{
    rand::rng().random_range(0..n)
}

/// Relies on `rand::rng` and `Rng::random_range`: an index drawn from the
/// given half-open range; nothing else can be promised of a random draw.
#[verifier::external_body]
pub(crate) fn random_below_usize(n: usize) -> (r: usize)
    requires
        n > 0,
    ensures
        r < n,
{
    rand::rng().random_range(0..n)
}

/// A freshly produced challenge: what to send, and what answer resolves
/// it. The application layer sends the prompt and reports back the message
/// id it was assigned.
pub struct Challenge {
    /// The HTML prompt text (the photo caption, for the image variant).
    pub prompt_html: String,
    /// The code to render into a photo, for the image variant; its glyphs
    /// go through the application layer's font engine.
    pub photo_code: Option<String>,
    /// The payload carried by the inline button, for the button variant.
    pub callback_payload: Option<String>,
    /// The exact expected answer, where the variant checks one.
    pub expected_answer: Option<String>,
}

/// The strategy serving a mode: none when challenges are off.
pub fn provider(mode: CaptchaMode) -> (r: Option<CaptchaMode>)
    ensures
        r == (if mode == CaptchaMode::Off {
            Option::<CaptchaMode>::None
        } else {
            Some(mode)
        }),
{
    match mode {
        CaptchaMode::Off => None,
        CaptchaMode::Button => Some(CaptchaMode::Button),
        CaptchaMode::Math2 => Some(CaptchaMode::Math2),
        CaptchaMode::Image => Some(CaptchaMode::Image),
    }
}

/// Does the strategy collect its answer from message text? Muting such a
/// candidate would make the challenge unanswerable.
pub open spec fn spec_answers_in_text(mode: CaptchaMode) -> bool {
    mode == CaptchaMode::Math2 || mode == CaptchaMode::Image
}

/// Whether the mode's challenge is answered by writing text.
pub fn answers_in_text(mode: CaptchaMode) -> (r: bool)
    ensures
        r == spec_answers_in_text(mode),
{
    match mode {
        CaptchaMode::Math2 => true,
        CaptchaMode::Image => true,
        _ => false,
    }
}


/// The default length of a rendered-image code.
pub const IMAGE_CODE_LEN: usize = 5;

/// The caption asking the candidate to type the characters off the image.
pub open spec fn spec_image_prompt(mention: Seq<char>, timeout_secs: nat) -> Seq<char> {
    mention + ", введите символы с картинки за "@ + spec_dec(timeout_secs)
        + " секунд (без пробелов, без регистра)."@
}

/// Builds the image challenge's caption.
pub fn image_prompt(mention: &str, timeout_secs: u64) -> (r: String)
    ensures
        r@ == spec_image_prompt(mention@, timeout_secs as nat),
{
    let mut s = String::from_str(mention);
    s.append(", введите символы с картинки за ");
    let d = dec_chars_u64(timeout_secs);
    let ds = string_of(&d);
    s.append(ds.as_str());
    s.append(" секунд (без пробелов, без регистра).");
    s
}

/// Produces a fresh challenge for the configured mode: the prompt text,
/// what the prompt carries (an inline button payload, or a code to render
/// into a photo), and the exact answer that resolves it. With challenges
/// off there is none.
pub fn build_challenge(cfg: &Config, mention: &str, user_id: u64) -> (r: Option<Challenge>)
    ensures
        cfg.captcha_mode == CaptchaMode::Off <==> r is None,
        r matches Some(c) ==> match cfg.captcha_mode {
            CaptchaMode::Off => false,
            CaptchaMode::Button => {
                &&& c.prompt_html@ == spec_button_prompt(
                    mention@,
                    cfg.captcha_timeout_secs as nat,
                )
                &&& c.callback_payload matches Some(t) && t@ == spec_callback_token(
                    user_id as nat,
                )
                &&& c.expected_answer is None
                &&& c.photo_code is None
            },
            CaptchaMode::Math2 => {
                &&& (exists|a: nat, b: nat|
                    1 <= a <= 9 && 1 <= b <= 9 && c.prompt_html@ == spec_math2_prompt(
                        mention@,
                        a,
                        b,
                        cfg.captcha_timeout_secs as nat,
                    ) && (c.expected_answer matches Some(e) && e@ == spec_dec((a + b) as nat)))
                &&& c.callback_payload is None
                &&& c.photo_code is None
            },
            CaptchaMode::Image => {
                &&& c.prompt_html@ == spec_image_prompt(mention@, cfg.captcha_timeout_secs as nat)
                &&& c.callback_payload is None
                &&& (c.photo_code matches Some(code) && code@.len() == IMAGE_CODE_LEN && (forall|
                    i: int,
                |
                    0 <= i < code@.len() ==> alphabet_chars(cfg.alphabet).contains(
                        #[trigger] code@[i],
                    )) && (c.expected_answer matches Some(e) && e@ == lower_of(code@)))
            },
        },
{
    match cfg.captcha_mode {
        CaptchaMode::Off => None,
        CaptchaMode::Button => {
            let prompt_html = ButtonCaptcha::prompt_html(mention, cfg.captcha_timeout_secs);
            let token = ButtonCaptcha::callback_token(user_id);
            Some(
                Challenge {
                    prompt_html,
                    photo_code: None,
                    callback_payload: Some(token),
                    expected_answer: None,
                },
            )
        },
        CaptchaMode::Math2 => {
            let (prompt_html, expected) = Math2Captcha::make_challenge(
                mention,
                cfg.captcha_timeout_secs,
            );
            Some(
                Challenge {
                    prompt_html,
                    photo_code: None,
                    callback_payload: None,
                    expected_answer: Some(expected),
                },
            )
        },
        CaptchaMode::Image => {
            let prompt_html = image_prompt(mention, cfg.captcha_timeout_secs);
            let (code, expected) = ImageCaptcha::make_code(cfg.alphabet, IMAGE_CODE_LEN);
            Some(
                Challenge {
                    prompt_html,
                    photo_code: Some(code),
                    callback_payload: None,
                    expected_answer: Some(expected),
                },
            )
        },
    }
}

} // verus!
