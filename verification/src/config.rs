//! Static configuration: the challenge mode, the image alphabet, and the
//! process-wide settings read once at startup.
//!
//! Keyword parsing is verified down to the character level; the application
//! layer only hands over the raw option strings it found in the environment.

use crate::chars::ascii_lower_chars;
use crate::chars::ascii_lower_seq;
use crate::chars::chars_of;
use crate::chars::i64_numeral_value;
use crate::chars::is_i64_numeral;
use crate::chars::is_u64_numeral;
use crate::chars::parse_i64_chars;
use crate::chars::parse_u64_chars;
use crate::chars::str_eq;
use crate::chars::string_of;
use crate::chars::trim_chars;
use crate::chars::trim_spec;
use crate::chars::u64_numeral_value;
use vstd::prelude::*;

verus! {

/// The closed set of challenge strategies.
#[derive(Clone, Copy, Debug, PartialEq, Eq, Structural)]
pub enum CaptchaMode {
    Off,
    Button,
    Math2,
    Image,
}

/// The character set offered by the rendered-image challenge.
#[derive(Clone, Copy, Debug, PartialEq, Eq, Structural)]
pub enum Alphabet {
    Latin,
    Cyrillic,
    Both,
}

/// The mode a configuration keyword selects: keywords are trimmed and
/// compared ASCII-case-insensitively, and anything unrecognized falls back
/// to the button challenge.
pub open spec fn mode_of_keyword(s: Seq<char>) -> CaptchaMode {
    let k = ascii_lower_seq(trim_spec(s));
    if k == "off"@ || k == "none"@ || k == "disabled"@ {
        CaptchaMode::Off
    } else if k == "button"@ || k == "inline"@ {
        CaptchaMode::Button
    } else if k == "math2"@ || k == "math"@ {
        CaptchaMode::Math2
    } else if k == "image"@ || k == "img"@ {
        CaptchaMode::Image
    } else {
        CaptchaMode::Button
    }
}

/// The alphabet a configuration keyword selects; anything but the exact
/// keywords `latin` and `both` means the default cyrillic set.
pub open spec fn alphabet_of_keyword(s: Seq<char>) -> Alphabet {
    if s == "latin"@ {
        Alphabet::Latin
    } else if s == "both"@ {
        Alphabet::Both
    } else {
        Alphabet::Cyrillic
    }
}

/// Does the keyword switch a boolean setting on? Compared
/// ASCII-case-insensitively against `1`, `true`, `yes` and `on`.
pub open spec fn bool_of_keyword(s: Seq<char>) -> bool {
    let k = ascii_lower_seq(s);
    k == "1"@ || k == "true"@ || k == "yes"@ || k == "on"@
}

impl CaptchaMode {
    /// Parses a mode keyword; never fails, unrecognized input selects the
    /// button challenge.
    pub fn parse(s: &str) -> (r: CaptchaMode)
        ensures
            r == mode_of_keyword(s@),
    {
        let cs = chars_of(s);
        let t = trim_chars(&cs);
        let l = ascii_lower_chars(&t);
        let k = string_of(&l);
        if str_eq(k.as_str(), "off") || str_eq(k.as_str(), "none") || str_eq(
            k.as_str(),
            "disabled",
        ) {
            CaptchaMode::Off
        } else if str_eq(k.as_str(), "button") || str_eq(k.as_str(), "inline") {
            CaptchaMode::Button
        } else if str_eq(k.as_str(), "math2") || str_eq(k.as_str(), "math") {
            CaptchaMode::Math2
        } else if str_eq(k.as_str(), "image") || str_eq(k.as_str(), "img") {
            CaptchaMode::Image
        } else {
            CaptchaMode::Button
        }
    }
}

impl core::str::FromStr for CaptchaMode {
    type Err = ();

    fn from_str(s: &str) -> Result<CaptchaMode, ()> {
        Ok(CaptchaMode::parse(s))
    }
}

impl Alphabet {
    /// Parses an alphabet keyword; never fails, unrecognized input selects
    /// the cyrillic set.
    pub fn parse(s: &str) -> (r: Alphabet)
        ensures
            r == alphabet_of_keyword(s@),
    {
        if str_eq(s, "latin") {
            Alphabet::Latin
        } else if str_eq(s, "both") {
            Alphabet::Both
        } else {
            Alphabet::Cyrillic
        }
    }
}

/// Parses a boolean keyword.
pub fn parse_bool_keyword(s: &str) -> (r: bool)
    ensures
        r == bool_of_keyword(s@),
{
    let cs = chars_of(s);
    let l = ascii_lower_chars(&cs);
    let k = string_of(&l);
    str_eq(k.as_str(), "1") || str_eq(k.as_str(), "true") || str_eq(k.as_str(), "yes") || str_eq(
        k.as_str(),
        "on",
    )
}

/// The process configuration, read once at startup and immutable afterwards.
#[derive(Clone)]
pub struct Config {
    /// Seconds a newcomer has to answer the challenge.
    pub captcha_timeout_secs: u64,
    /// The administrator principal allowed to use the command surface.
    pub admin_id: u64,
    /// Ban length after a timeout; zero or less means a soft kick.
    pub kick_ban_minutes: i64,
    /// Whether messages a newcomer wrote while pending are deleted on
    /// timeout.
    pub delete_unverified_messages: bool,
    /// The selected challenge strategy.
    pub captcha_mode: CaptchaMode,
    /// The character set for the rendered-image challenge.
    pub alphabet: Alphabet,
}

impl Config {
    /// Builds the configuration from the raw setting strings, applying the
    /// documented defaults. The administrator id is the one required
    /// setting: without a well-formed value there is no configuration.
    pub fn from_parts(
        timeout: Option<&str>,
        admin: Option<&str>,
        kick: Option<&str>,
        delete_unverified: Option<&str>,
        mode: Option<&str>,
        alphabet: Option<&str>,
    ) -> (r: Option<Config>)
        ensures
            r is Some <==> (admin matches Some(a) && is_i64_numeral(a@)),
            r matches Some(c) ==> {
                &&& admin matches Some(a) && c.admin_id == i64_numeral_value(a@) as u64
                &&& c.captcha_timeout_secs == (match timeout {
                    Some(t) => if is_u64_numeral(t@) {
                        u64_numeral_value(t@)
                    } else {
                        60int
                    },
                    None => 60int,
                })
                &&& c.kick_ban_minutes == (match kick {
                    Some(k) => if is_i64_numeral(k@) {
                        i64_numeral_value(k@)
                    } else {
                        0int
                    },
                    None => 0int,
                })
                &&& c.delete_unverified_messages == (match delete_unverified {
                    Some(d) => bool_of_keyword(d@),
                    None => false,
                })
                &&& c.captcha_mode == (match mode {
                    Some(m) => mode_of_keyword(m@),
                    None => CaptchaMode::Button,
                })
                &&& c.alphabet == (match alphabet {
                    Some(al) => alphabet_of_keyword(al@),
                    None => Alphabet::Cyrillic,
                })
            },
    {
        let admin_id: u64 = match admin {
            Some(a) => {
                let cs = chars_of(a);
                match parse_i64_chars(&cs) {
                    Some(v) => {
                        #[verifier::truncate]
                        let u = v as u64;
                        u
                    },
                    None => {
                        return None;
                    },
                }
            },
            None => {
                return None;
            },
        };
        let captcha_timeout_secs: u64 = match timeout {
            Some(t) => {
                let cs = chars_of(t);
                match parse_u64_chars(&cs) {
                    Some(v) => v,
                    None => 60,
                }
            },
            None => 60,
        };
        let kick_ban_minutes: i64 = match kick {
            Some(k) => {
                let cs = chars_of(k);
                match parse_i64_chars(&cs) {
                    Some(v) => v,
                    None => 0,
                }
            },
            None => 0,
        };
        let delete_unverified_messages: bool = match delete_unverified {
            Some(d) => parse_bool_keyword(d),
            None => false,
        };
        let captcha_mode: CaptchaMode = match mode {
            Some(m) => CaptchaMode::parse(m),
            None => CaptchaMode::Button,
        };
        let alphabet_choice: Alphabet = match alphabet {
            Some(al) => Alphabet::parse(al),
            None => Alphabet::Cyrillic,
        };
        Some(
            Config {
                captcha_timeout_secs,
                admin_id,
                kick_ban_minutes,
                delete_unverified_messages,
                captcha_mode,
                alphabet: alphabet_choice,
            },
        )
    }
}

} // verus!
