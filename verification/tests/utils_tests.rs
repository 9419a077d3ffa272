use mudae_core::stats::clock_of_seconds;
use mudae_core::text::u64_to_string;
use mudae_core::tracker::{random_delay, Cooldown, RateLimiter};
use mudae_core::utils::{
    format_duration, normalize_character_name, normalize_series_name, parse_time, truncate_string,
};

#[test]
fn test_format_duration() {
    assert_eq!(format_duration(30), "30s");
    assert_eq!(format_duration(90), "1m 30s");
    assert_eq!(format_duration(3661), "1h 1m 1s");
}

#[test]
fn test_parse_time() {
    assert_eq!(parse_time("12:30"), Some((12, 30)));
    assert_eq!(parse_time("00:00"), Some((0, 0)));
    assert_eq!(parse_time("23:59"), Some((23, 59)));
    assert_eq!(parse_time("24:00"), None);
    assert_eq!(parse_time("12:60"), None);
    assert_eq!(parse_time("invalid"), None);
}

#[test]
fn test_normalize_character_name() {
    assert_eq!(normalize_character_name("  Rem  "), "rem");
    assert_eq!(normalize_character_name("Emilia-tan"), "emiliatan");
    assert_eq!(normalize_character_name("Kaguya  Shinomiya"), "kaguya shinomiya");
}

#[test]
fn test_normalize_series_name() {
    assert_eq!(normalize_series_name("Re:Zero"), "re zero");
    assert_eq!(normalize_series_name("Kaguya-sama: Love is War"), "kaguya sama love is war");
}

#[test]
fn test_truncate_string() {
    assert_eq!(truncate_string("Hello", 10), "Hello");
    assert_eq!(truncate_string("Hello World!", 8), "Hello...");
}

#[test]
fn test_truncate_tiny_budget() {
    assert_eq!(truncate_string("Hello", 2), "...");
}

#[test]
fn test_cooldown() {
    let mut cd = Cooldown::new(1);
    assert!(cd.is_ready("test"));
    cd.trigger("test");
    assert!(!cd.is_ready("test"));
}

#[test]
fn test_cooldown_at_explicit_times() {
    let mut cd = Cooldown::new(60);
    assert!(cd.is_ready_at("$wa", 1_000));
    cd.trigger_at("$wa", 1_000);
    assert!(!cd.is_ready_at("$wa", 30_999));
    assert_eq!(cd.remaining_at("$wa", 31_000), Some(30_000));
    assert!(cd.is_ready_at("$wa", 61_000));
    assert!(cd.is_ready_at("$ha", 1_500));
    cd.clear("$wa");
    assert!(cd.is_ready_at("$wa", 1_001));
}

#[test]
fn test_rate_limiter() {
    let mut rl = RateLimiter::new(500);
    assert!(rl.can_proceed_at(10));
    rl.mark_at(10);
    assert!(!rl.can_proceed_at(509));
    assert!(rl.can_proceed_at(510));
    rl.reset();
    assert!(rl.can_proceed_at(0));
}

#[test]
fn test_random_delay_bounds() {
    for _ in 0..32 {
        let d = random_delay(100, 600);
        assert!((100..600).contains(&d));
    }
    assert_eq!(random_delay(70, 70), 70);
}

#[test]
fn test_decimal_rendering() {
    assert_eq!(u64_to_string(0), "0");
    assert_eq!(u64_to_string(42), "42");
    assert_eq!(u64_to_string(18446744073709551615), "18446744073709551615");
}

#[test]
fn test_clock_rendering() {
    assert_eq!(clock_of_seconds(0), "00:00:00");
    assert_eq!(clock_of_seconds(3661), "01:01:01");
    assert_eq!(clock_of_seconds(86399), "23:59:59");
}
