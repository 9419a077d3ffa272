use mudae_core::config::Config;
use mudae_core::scheduler::{
    daily_commands, parse_schedule_minutes, scheduler_step, should_run_daily, note_roll_sent,
    SchedulerStep,
};
use mudae_core::stats::{EventType, SavedStats, Stats};
use mudae_core::tracker::CooldownTracker;
use mudae_core::verification::{CharacterVerifier, VerificationResult};
use mudae_core::parser::MudaeMessage;

fn commands() -> Vec<String> {
    vec!["$wa".to_string(), "$ha".to_string()]
}

#[test]
fn test_available_commands_fresh_and_after_use() {
    let mut t = CooldownTracker::new(3600);
    let all = commands();
    let fresh = t.available_commands(&all, 1_000);
    assert_eq!(fresh, all);
    t.mark_used("$wa", 1_000);
    let during = t.available_commands(&all, 2_000);
    assert_eq!(during, vec!["$ha".to_string()]);
    let after = t.available_commands(&all, 1_000 + 3_600_000);
    assert_eq!(after, all);
}

#[test]
fn test_time_until_next_available() {
    let mut t = CooldownTracker::new(60);
    let all = commands();
    assert_eq!(t.time_until_next_available(&all, 0), Some(0));
    t.mark_used("$wa", 0);
    t.mark_used("$ha", 10_000);
    assert_eq!(t.time_until_next_available(&all, 20_000), Some(40_000));
    assert_eq!(t.time_until_next_available(&all, 60_000), Some(0));
    assert_eq!(t.time_until_next_available(&Vec::new(), 0), None);
}

#[test]
fn test_budget_floor() {
    let mut t = CooldownTracker::new(60);
    t.set_budget(1);
    t.decrement_budget();
    assert_eq!(t.budget(), 0);
    t.decrement_budget();
    assert_eq!(t.budget(), 0);
}

#[test]
fn test_scheduler_gates() {
    let cfg = Config::default();
    let mut t = CooldownTracker::new(3600);
    assert!(matches!(scheduler_step(&cfg, &t, true, 0), SchedulerStep::Idle { sleep_ms: 5000 }));
    assert!(matches!(
        scheduler_step(&cfg, &t, false, 0),
        SchedulerStep::OutOfBudget { sleep_ms: 10000 }
    ));
    t.set_budget(3);
    match scheduler_step(&cfg, &t, false, 0) {
        SchedulerStep::Send { command, sleep_ms } => {
            assert_eq!(command, "$wa");
            assert_eq!(sleep_ms, 1000);
        }
        other => panic!("cycle decided {:?}", other),
    }
    note_roll_sent(&mut t, "$wa", 0);
    assert_eq!(t.budget(), 2);
    assert!(matches!(
        scheduler_step(&cfg, &t, false, 1_000),
        SchedulerStep::OnCooldown { sleep_ms: 1000 }
    ));
}

#[test]
fn test_daily_gate() {
    assert!(should_run_daily(None, 19_000, 0, 600));
    assert!(!should_run_daily(Some(19_000), 19_000, 700, 600));
    assert!(should_run_daily(Some(18_999), 19_000, 700, 600));
    assert!(!should_run_daily(Some(18_999), 19_000, 500, 600));
    assert_eq!(parse_schedule_minutes("10:30"), 630);
    assert_eq!(parse_schedule_minutes("oops"), 0);
    let pair = daily_commands();
    assert_eq!(pair, vec!["$daily".to_string(), "$dk".to_string()]);
}

#[test]
fn test_stats_counters_and_saved() {
    let mut s = Stats::new(0);
    s.increment_rolled();
    s.increment_rolled();
    s.increment_claimed();
    s.log_event(EventType::Info, "note".to_string(), 5);
    let saved = s.to_saved(10_000);
    assert_eq!(saved.characters_rolled, 2);
    assert_eq!(saved.characters_claimed, 1);
    assert_eq!(saved.total_uptime_seconds, 10);
    let resumed = Stats::from_saved(&saved, 50_000);
    assert_eq!(resumed.get_rolled(), 2);
    assert_eq!(resumed.get_total_uptime_seconds(51_000), 11);
    let blank = SavedStats::default();
    assert_eq!(blank.characters_rolled, 0);
}

#[test]
fn test_stats_log_caps() {
    let mut s = Stats::new(0);
    let mut k: u64 = 0;
    while k < 120 {
        s.log_event(EventType::Info, "x".to_string(), k);
        k += 1;
    }
    assert_eq!(s.get_activity_log().len(), 100);
    assert_eq!(s.get_activity_log()[99].timestamp, 119);
}

#[test]
fn test_pause_toggle() {
    let mut s = Stats::new(0);
    assert!(!s.is_paused());
    assert!(s.toggle_paused());
    assert!(s.is_paused());
    assert!(!s.toggle_paused());
}

#[test]
fn test_verification_result() {
    let result = VerificationResult {
        original_name: "Rem".to_string(),
        canonical_name: Some("Rem".to_string()),
        series: Some("Re:Zero".to_string()),
        character_id: None,
        exists: true,
    };
    assert!(result.exists);
    assert_eq!(result.canonical_name, Some("Rem".to_string()));
}

#[test]
fn test_verifier_cache_and_matching() {
    let mut v = CharacterVerifier::new(42);
    assert_eq!(v.verification_channel(), 42);
    assert!(!v.is_cached("Rem"));
    v.note_pending("Rem");
    let response = MudaeMessage::CharacterInfo {
        name: "Rem".to_string(),
        series: "Re:Zero".to_string(),
        exists: true,
    };
    let resolved = v.handle_mudae_response(&response);
    assert_eq!(resolved.len(), 1);
    assert_eq!(resolved[0].0, "rem");
    assert!(resolved[0].1.exists);
    assert_eq!(resolved[0].1.canonical_name.as_deref(), Some("Rem"));
    v.insert_cached("Rem", &resolved[0].1);
    assert!(v.is_cached("REM"));
    assert_eq!(v.cache_size(), 1);
    v.clear_cache();
    assert!(!v.is_cached("Rem"));
}

#[test]
fn test_verifier_containment_matching() {
    let mut v = CharacterVerifier::new(42);
    v.note_pending("rem");
    let response = MudaeMessage::CharacterInfo {
        name: "Rem Galleu".to_string(),
        series: "How Not to Summon a Demon Lord".to_string(),
        exists: true,
    };
    let resolved = v.handle_mudae_response(&response);
    assert_eq!(resolved.len(), 1);
    assert_eq!(resolved[0].0, "rem");
    assert_eq!(resolved[0].1.canonical_name.as_deref(), Some("Rem Galleu"));
}

#[test]
fn test_verifier_response_without_pending_has_no_effect() {
    let mut v = CharacterVerifier::new(42);
    let response = MudaeMessage::CharacterInfo {
        name: "Rem".to_string(),
        series: "Re:Zero".to_string(),
        exists: true,
    };
    assert_eq!(v.handle_mudae_response(&response).len(), 0);
    let other = MudaeMessage::DailyReady;
    assert_eq!(v.handle_mudae_response(&other).len(), 0);
}

#[test]
fn test_verifier_exact_then_containment() {
    let mut v = CharacterVerifier::new(42);
    v.note_pending("rem");
    v.note_pending("rem galleu");
    let response = MudaeMessage::CharacterInfo {
        name: "Rem".to_string(),
        series: "Re:Zero".to_string(),
        exists: true,
    };
    let resolved = v.handle_mudae_response(&response);
    assert_eq!(resolved.len(), 2);
    assert_eq!(resolved[0].0, "rem");
    assert_eq!(resolved[0].1.original_name, "Rem");
    assert_eq!(resolved[1].0, "rem galleu");
    assert_eq!(resolved[1].1.canonical_name.as_deref(), Some("Rem"));
}

#[test]
fn test_verifier_cache_overwrites() {
    let mut v = CharacterVerifier::new(42);
    let first = VerificationResult {
        original_name: "Rem".to_string(),
        canonical_name: None,
        series: None,
        character_id: None,
        exists: false,
    };
    v.insert_cached("Rem", &first);
    let second = VerificationResult {
        original_name: "Rem".to_string(),
        canonical_name: Some("Rem".to_string()),
        series: Some("Re:Zero".to_string()),
        character_id: None,
        exists: true,
    };
    v.insert_cached("REM", &second);
    assert_eq!(v.cache_size(), 1);
    let got = v.get_cached("rem").unwrap();
    assert!(got.exists);
    assert_eq!(got.series.as_deref(), Some("Re:Zero"));
}
