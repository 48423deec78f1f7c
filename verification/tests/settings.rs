//! The settings file, and the texts that it is made of.

use ps_aim_windows::config::{Config, Fractions, SavedRecoilMode};
use ps_aim_windows::text;

fn decimal(s: &str) -> bool {
    text::decimal(text::chars_of(s).as_slice())
}

/// The fractions as single-precision numbers are displayed.
fn shown(cfg: &Config) -> Fractions {
    let display = |text: &str| text.parse::<f32>().unwrap().to_string();
    Fractions {
        lightgun_sensitivity: display(&cfg.lightgun_sensitivity),
        lightgun_accel_threshold: display(&cfg.lightgun_accel_threshold),
        lightgun_accel_gain: display(&cfg.lightgun_accel_gain),
        lightgun_translation_gain: display(&cfg.lightgun_translation_gain),
        lightgun_translation_decay: display(&cfg.lightgun_translation_decay),
    }
}

fn save(cfg: &Config) -> String {
    cfg.save(&shown(cfg))
}

#[test]
fn missing_file_means_defaults() {
    let cfg = Config::load(None);
    assert_eq!(cfg.recoil_mode, SavedRecoilMode::SingleKick);
    assert_eq!(cfg.lightgun_sensitivity.parse::<f32>(), Ok(75.0));
    assert_eq!(cfg.lightgun_accel_threshold.parse::<f32>(), Ok(2500.0));
    assert_eq!(cfg.lightgun_accel_gain.parse::<f32>(), Ok(0.0006));
    assert_eq!(cfg.lightgun_recoil_intensity, 255);
    assert_eq!(cfg.lightgun_recoil_duration_ms, 140);
    assert_eq!(cfg.lightgun_rapidfire_interval_ms, 200);
    assert_eq!(cfg.lightgun_led, (0, 128, 0));
    assert_eq!(cfg.lightgun_raw_led, (255, 100, 0));
    assert_eq!(cfg.lightgun_translation_gain.parse::<f32>(), Ok(12.0));
    assert_eq!(cfg.lightgun_translation_decay.parse::<f32>(), Ok(0.85));
}

#[test]
fn default_settings_are_those_of_an_empty_file() {
    assert_eq!(save(&Config::load(Some(""))), save(&Config::default()));
    assert_eq!(save(&Config::load(None)), save(&Config::default()));
}

#[test]
fn file_is_read_line_by_line() {
    let cfg = Config::load(Some(
        "# a comment\r\n\n  lightgun_sensitivity =  80.5 \nno assignment here\n\
         recoil_mode=rapid_fire\nlightgun_recoil_intensity=12\n\
         lightgun_recoil_intensity = 13\nunknown=1\n\
         lightgun_led_r=1\nlightgun_led_g=2\nlightgun_led_b=3\nlightgun_accel_gain=1e-3",
    ));
    assert_eq!(cfg.lightgun_sensitivity, "80.5");
    assert_eq!(cfg.recoil_mode, SavedRecoilMode::RapidFire);
    assert_eq!(cfg.lightgun_recoil_intensity, 13);
    assert_eq!(cfg.lightgun_led, (1, 2, 3));
    assert_eq!(cfg.lightgun_accel_gain, "1e-3");
}

#[test]
fn values_that_cannot_be_read_are_skipped() {
    let cfg = Config::load(Some(
        "lightgun_sensitivity=fast\nlightgun_recoil_intensity=256\n\
         lightgun_recoil_duration_ms=-1\nlightgun_raw_led_r=1\nlightgun_raw_led_g=2\n\
         recoil_mode=loud\nlightgun_rapidfire_interval_ms=+18446744073709551615\n",
    ));
    assert_eq!(cfg.lightgun_sensitivity, "75");
    assert_eq!(cfg.lightgun_recoil_intensity, 255);
    assert_eq!(cfg.lightgun_recoil_duration_ms, 140);
    assert_eq!(cfg.lightgun_raw_led, (255, 100, 0));
    assert_eq!(cfg.recoil_mode, SavedRecoilMode::SingleKick);
    assert_eq!(cfg.lightgun_rapidfire_interval_ms, u64::MAX);
}

#[test]
fn saved_file_has_every_setting() {
    let mut cfg = Config::default();
    cfg.recoil_mode = SavedRecoilMode::Off;
    assert_eq!(
        save(&cfg),
        "# ps-aim-windows config -- edited by UI or driver\n\
         recoil_mode=off\n\
         lightgun_sensitivity=75\n\
         lightgun_accel_threshold=2500\n\
         lightgun_accel_gain=0.0006\n\
         lightgun_recoil_intensity=255\n\
         lightgun_recoil_duration_ms=140\n\
         lightgun_rapidfire_interval_ms=200\n\
         lightgun_led_r=0\n\
         lightgun_led_g=128\n\
         lightgun_led_b=0\n\
         lightgun_raw_led_r=255\n\
         lightgun_raw_led_g=100\n\
         lightgun_raw_led_b=0\n\
         lightgun_translation_gain=12\n\
         lightgun_translation_decay=0.85\n"
    );
}

#[test]
fn saved_settings_read_back_unchanged() {
    let cfg = Config {
        recoil_mode: SavedRecoilMode::RapidFire,
        lightgun_sensitivity: "1.5".to_string(),
        lightgun_accel_threshold: "inf".to_string(),
        lightgun_accel_gain: "-2e7".to_string(),
        lightgun_recoil_intensity: 0,
        lightgun_recoil_duration_ms: u64::MAX,
        lightgun_rapidfire_interval_ms: 1,
        lightgun_led: (255, 0, 1),
        lightgun_raw_led: (2, 3, 4),
        lightgun_translation_gain: ".5".to_string(),
        lightgun_translation_decay: "5.".to_string(),
    };
    let again = Config::load(Some(&save(&cfg)));
    assert_eq!(save(&again), save(&cfg));
    assert_eq!(again.recoil_mode, cfg.recoil_mode);
    assert_eq!(again.lightgun_recoil_duration_ms, u64::MAX);
    assert_eq!(again.lightgun_translation_decay, "5");
    assert_eq!(again.lightgun_translation_gain, "0.5");
    assert_eq!(again.lightgun_accel_gain, "-20000000");
}

#[test]
fn fractions_are_saved_as_they_are_displayed() {
    let cfg = Config::load(Some("lightgun_sensitivity=75.0\nlightgun_accel_gain=6e-4\n"));
    assert_eq!(cfg.lightgun_sensitivity, "75.0");
    assert_eq!(save(&cfg), save(&Config::default()));
}

#[test]
fn remembering_a_mode_changes_nothing_else() {
    let mut cfg = Config::load(Some("lightgun_led_r=9\nlightgun_led_g=9\nlightgun_led_b=9\n"));
    let before = save(&cfg);
    cfg.recoil_mode = SavedRecoilMode::Off;
    let after = save(&cfg);
    assert_eq!(before.replace("recoil_mode=single_kick", "recoil_mode=off"), after);
}

#[test]
fn decimals_are_what_rust_reads_as_fractions() {
    let samples = [
        "0", "1", "-1", "+1", "1.5", ".5", "5.", ".", "", "-", "+", "1e5", "1E5", "1e", "1e+", "1e-5",
        "e5", ".e5", "1.e5", ".5e5", "inf", "-inf", "+INF", "infinity", "InFiNiTy", "infin", "nan",
        "NaN", "-nan", "1_0", " 1", "1 ", "1.2.3", "0x10", "1f", "--1", "+-1", "1e5.0", "１", "∞",
    ];
    for s in samples {
        assert_eq!(decimal(s), s.parse::<f32>().is_ok(), "{s:?}");
    }
}

#[test]
fn whole_numbers_are_what_rust_reads() {
    let samples = [
        "0", "00", "7", "+7", "-7", "-0", "255", "256", "", "+", "-", "1 ", "2147483647",
        "2147483648", "-2147483648", "-2147483649", "18446744073709551615",
        "18446744073709551616", "0x1", "１",
    ];
    for s in samples {
        let chars = text::chars_of(s);
        assert_eq!(text::parse_unsigned(&chars, 255), s.parse::<u8>().ok().map(u64::from), "{s:?}");
        assert_eq!(text::parse_unsigned(&chars, u64::MAX), s.parse::<u64>().ok(), "{s:?}");
        assert_eq!(text::parse_signed(&chars), s.parse::<i32>().ok(), "{s:?}");
    }
}

#[test]
fn white_space_is_what_rust_trims() {
    for u in 0..0x11_0000u32 {
        if let Some(c) = char::from_u32(u) {
            assert_eq!(text::white(c), c.is_whitespace(), "{u:#x}");
        }
    }
    let chars = text::chars_of(" \t a b\u{3000}");
    assert_eq!(text::string_of(text::trim(&chars)), "a b");
}

#[test]
fn splitting_and_searching_agree_with_rust() {
    for s in ["", ",", "a,b,,c", "abc", "a=b=c"] {
        let chars = text::chars_of(s);
        let ours: Vec<String> = text::split(&chars, ',').iter().map(|p| text::string_of(p)).collect();
        let theirs: Vec<String> = s.split(',').map(|p| p.to_string()).collect();
        assert_eq!(ours, theirs);
        let ours = text::split_once(&chars, '=').map(|(a, b)| (text::string_of(a), text::string_of(b)));
        let theirs = s.split_once('=').map(|(a, b)| (a.to_string(), b.to_string()));
        assert_eq!(ours, theirs);
        for n in ["", "b", "bc", "abcd", "=b="] {
            assert_eq!(text::contains(&chars, &text::chars_of(n)), s.contains(n));
        }
    }
}

#[test]
fn numbers_are_written_in_decimal() {
    for n in [0u64, 7, 10, 1234567890, u64::MAX] {
        let mut out = String::from("n=");
        text::push_number(&mut out, n);
        assert_eq!(out, format!("n={n}"));
    }
}
