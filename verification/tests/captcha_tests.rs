use std::str::FromStr;

use telegram_ranger::captcha::build_challenge;
use telegram_ranger::captcha::button::ButtonCaptcha;
use telegram_ranger::captcha::image::add_noise;
use telegram_ranger::captcha::image::add_overlay_noise;
use telegram_ranger::captcha::image::draw_line;
use telegram_ranger::captcha::image::encode_png;
use telegram_ranger::captcha::image::gen_code_from;
use telegram_ranger::captcha::image::normalize;
use telegram_ranger::captcha::image::select_alphabet;
use telegram_ranger::captcha::image::Canvas;
use telegram_ranger::captcha::image::Color;
use telegram_ranger::captcha::image::ImageCaptcha;
use telegram_ranger::captcha::math2::is_numeric_equal;
use telegram_ranger::captcha::math2::Math2Captcha;
use telegram_ranger::captcha::provider;
use telegram_ranger::config::Alphabet;
use telegram_ranger::config::CaptchaMode;
use telegram_ranger::config::Config;

#[test]
fn button_mode() {
    let c = ButtonCaptcha;
    assert_eq!(c.mode(), CaptchaMode::Button);
}

#[test]
fn numeric_compare_basic() {
    assert!(is_numeric_equal("  7 ", "7"));
    assert!(is_numeric_equal("12", "12"));
    assert!(!is_numeric_equal("07", "7"));
    assert!(!is_numeric_equal("7 ", "8"));
    assert!(!is_numeric_equal("7a", "7"));
}

#[test]
fn normalize_basic() {
    assert_eq!(normalize(" a Б  3 "), "aб3");
    assert_eq!(normalize(" а Б  3 "), "аб3");
    assert_eq!(normalize("A B C"), "abc");
}

#[test]
fn code_charset_and_len() {
    let a = select_alphabet(Alphabet::Both);
    let s = gen_code_from(&a, 6);
    assert_eq!(s.chars().count(), 6);
    assert!(s.chars().all(|ch| a.contains(&ch)));
}

#[test]
fn captcha_mode_parse_variants() {
    assert_eq!(
        CaptchaMode::from_str("button").unwrap(),
        CaptchaMode::Button
    );
    assert_eq!(CaptchaMode::from_str("MATH2").unwrap(), CaptchaMode::Math2);
    assert_eq!(CaptchaMode::from_str("off").unwrap(), CaptchaMode::Off);
    assert_eq!(CaptchaMode::from_str("image").unwrap(), CaptchaMode::Image);
    assert_eq!(CaptchaMode::from_str("???").unwrap(), CaptchaMode::Button); // default
}

#[test]
fn provider_matches_mode() {
    assert!(provider(CaptchaMode::Off).is_none());
    assert!(provider(CaptchaMode::Button).is_some());
    assert!(provider(CaptchaMode::Math2).is_some());
    assert!(provider(CaptchaMode::Image).is_some());
}

#[test]
fn image_code_matches_expected_answer() {
    let (code, expected) = ImageCaptcha::make_code(Alphabet::Cyrillic, 5);
    assert_eq!(code.chars().count(), 5);
    assert_eq!(code.to_lowercase(), expected);
    let alphabet = select_alphabet(Alphabet::Cyrillic);
    assert!(code.chars().all(|ch| alphabet.contains(&ch)));
    // Typing the code back, with stray spaces and in its own letter case,
    // resolves the challenge.
    let strategy = ImageCaptcha;
    let spaced: String = code.chars().flat_map(|c| [c, ' ']).collect();
    assert!(strategy.on_text(&spaced, &expected));
    assert!(!strategy.on_text("definitely wrong", &expected));
}

#[test]
fn math2_expected_answer_is_plausible_sum() {
    let (prompt, expected) = Math2Captcha::make_challenge("@someone", 60);
    assert!(prompt.contains("@someone"));
    assert!(prompt.contains(" + "));
    assert!(prompt.contains("60"));
    let sum: u64 = expected.parse().unwrap();
    assert!((2..=18).contains(&sum));
    let strategy = Math2Captcha;
    assert!(strategy.on_text(&format!(" {sum} "), &expected));
    assert!(!strategy.on_text(&format!("0{sum}"), &expected));
}

#[test]
fn button_callback_token_checks() {
    let token = ButtonCaptcha::callback_token(77);
    assert_eq!(token, "ok:77");
    let strategy = ButtonCaptcha;
    assert!(strategy.on_callback(77, Some(&token)));
    // Another candidate's token, the bare prefix, a wrong prefix and a
    // missing payload all prove nothing.
    assert!(!strategy.on_callback(77, Some("ok:1")));
    assert!(!strategy.on_callback(77, Some("ok:")));
    assert!(!strategy.on_callback(77, Some("ok:770")));
    assert!(!strategy.on_callback(77, Some("no:77")));
    assert!(!strategy.on_callback(77, None));
}

#[test]
fn draw_line_paints_its_endpoints() {
    let white = Color {
        red: 255,
        green: 255,
        blue: 255,
        alpha: 255,
    };
    let red = Color {
        red: 200,
        green: 10,
        blue: 10,
        alpha: 180,
    };
    let mut canvas = Canvas::new(64, 64, white);
    draw_line(&mut canvas, 3, 5, 40, 33, red);
    for (x, y) in [(3i64, 5i64), (40, 33)] {
        let base = (4 * (y * 64 + x)) as usize;
        assert_eq!(&canvas.pixels[base..base + 4], &[200, 10, 10, 180]);
    }
    // Pixels outside the endpoints' bounding box stay untouched.
    let far = (4 * (60 * 64 + 60)) as usize;
    assert_eq!(&canvas.pixels[far..far + 4], &[255, 255, 255, 255]);
}

#[test]
fn noise_passes_change_the_canvas()  {
    let white = Color {
        red: 255,
        green: 255,
        blue: 255,
        alpha: 255,
    };
    let mut canvas = Canvas::new(64, 64, white);
    add_noise(&mut canvas);
    assert!(canvas
        .pixels
        .chunks(4)
        .any(|p| p[3] == 200 || p[3] == 180));
    let mut canvas2 = Canvas::new(64, 64, white);
    add_overlay_noise(&mut canvas2);
    assert!(canvas2.pixels.chunks(4).any(|p| p[3] == 120));
}

#[test]
fn canvas_png_is_produced() {
    let white = Color {
        red: 255,
        green: 255,
        blue: 255,
        alpha: 255,
    };
    let mut canvas = Canvas::new(360, 140, white);
    add_noise(&mut canvas);
    add_overlay_noise(&mut canvas);
    let png = encode_png(&canvas).unwrap();
    assert!(png.len() > 1024);
    // The PNG stream starts with the fixed signature, so the encoder did
    // not hand the pixel bytes back unchanged.
    assert_eq!(&png[..8], &[0x89, b'P', b'N', b'G', b'\r', b'\n', 0x1a, b'\n']);
}

#[test]
fn build_challenge_per_mode() {
    let cfg = Config {
        captcha_timeout_secs: 60,
        admin_id: 1,
        kick_ban_minutes: 0,
        delete_unverified_messages: false,
        captcha_mode: CaptchaMode::Off,
        alphabet: Alphabet::Cyrillic,
    };
    assert!(build_challenge(&cfg, "@x", 5).is_none());

    let cfg_button = Config {
        captcha_mode: CaptchaMode::Button,
        ..cfg.clone()
    };
    let c = build_challenge(&cfg_button, "@x", 5).unwrap();
    assert_eq!(c.callback_payload.as_deref(), Some("ok:5"));
    assert!(c.expected_answer.is_none());
    assert!(c.prompt_html.starts_with("@x"));

    let cfg_image = Config {
        captcha_mode: CaptchaMode::Image,
        ..cfg.clone()
    };
    let c = build_challenge(&cfg_image, "@x", 5).unwrap();
    let code = c.photo_code.unwrap();
    assert_eq!(code.chars().count(), 5);
    assert_eq!(c.expected_answer.unwrap(), code.to_lowercase());
}
