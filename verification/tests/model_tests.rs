use mudae_core::config::{Config, SavedConfig};
use mudae_core::message::ChannelInfo;
use mudae_core::settings::SettingsItem;

#[test]
fn test_display_name() {
    let full = ChannelInfo {
        id: 12,
        name: Some("rolls".to_string()),
        guild: Some("Home".to_string()),
    };
    assert_eq!(full.display_name(), "#rolls (Home)");
    let bare = ChannelInfo { id: 12, name: Some("rolls".to_string()), guild: None };
    assert_eq!(bare.display_name(), "#rolls");
    let nameless = ChannelInfo { id: 12, name: None, guild: None };
    assert_eq!(nameless.display_name(), "12");
}

#[test]
fn test_config_defaults() {
    let cfg = Config::default();
    assert_eq!(cfg.roll_commands, vec!["$wa".to_string(), "$ha".to_string()]);
    assert_eq!(cfg.roll_cooldown_seconds, 3600);
    assert!(cfg.auto_roll && cfg.auto_react_kakera && cfg.auto_daily);
    assert_eq!(cfg.daily_time, "00:00");
    assert_eq!(cfg.fuzzy_threshold_hundredths, 80);
    assert_eq!(Config::mudae_bot_id(), 432610292342587392);
}

#[test]
fn test_config_from_saved() {
    let mut saved = SavedConfig::default();
    saved.auto_roll = false;
    saved.fuzzy_threshold_hundredths = 90;
    let cfg = Config::from_saved(saved);
    assert!(!cfg.auto_roll);
    assert_eq!(cfg.fuzzy_threshold_hundredths, 90);
    assert_eq!(cfg.wishlist_file, "wishlist.json");
    assert!(cfg.auto_verify);
}

#[test]
fn test_settings_rows() {
    let all = SettingsItem::all();
    assert_eq!(all.len(), 9);
    assert_eq!(all[0].label(), "Discord Token");
    assert!(!all[0].is_toggle());
    assert!(SettingsItem::FuzzyMatch.is_toggle());
    assert_eq!(SettingsItem::Cooldown.label(), "Roll Cooldown (seconds)");
}
