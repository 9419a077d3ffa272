use mudae_core::config::Config;
use mudae_core::engine::{HandleOutcome, MessageHandler, OfferOutcome, OutboundAction};
use mudae_core::message::{Author, DiscordMessage, Embed, EmbedAuthor};
use mudae_core::parser::ParsedCharacter;
use mudae_core::search::LookupCoordinator;
use mudae_core::stats::Stats;
use mudae_core::tracker::CooldownTracker;
use mudae_core::wishlist::{WishedCharacter, WishlistManager};

fn handler() -> MessageHandler {
    let mut wl = WishlistManager::new(80, true, false);
    assert!(wl.add_character(
        WishedCharacter::new("Rem".to_string()).with_series("Re:Zero".to_string()),
        0,
    ));
    MessageHandler::new(
        Config::default(),
        wl,
        CooldownTracker::new(3600),
        Stats::new(0),
        vec![2],
    )
}

fn offer(name: &str, series: &str, claimed: bool, wished: bool) -> ParsedCharacter {
    ParsedCharacter {
        name: name.to_string(),
        series: series.to_string(),
        kakera_value: Some(100),
        image_url: None,
        is_claimed: claimed,
        claim_rank: None,
        is_wished: wished,
    }
}

#[test]
fn test_claimed_offer_triggers_nothing() {
    let h = handler();
    let decision = h.decide_character_roll(&offer("Rem", "Re:Zero", true, true), 7, 2, &Some(
        "btn".to_string()));
    assert!(matches!(decision, OfferOutcome::SkippedClaimed));
}

#[test]
fn test_paused_offer_triggers_nothing() {
    let mut h = handler();
    h.stats.set_paused(true);
    let decision = h.decide_character_roll(&offer("Rem", "Re:Zero", false, true), 7, 2, &None);
    assert!(matches!(decision, OfferOutcome::SkippedPaused));
}

#[test]
fn test_claim_cooldown_gates_offer() {
    let mut h = handler();
    h.tracker.set_claim_available(false);
    let decision = h.decide_character_roll(&offer("Rem", "Re:Zero", false, true), 7, 2, &None);
    assert!(matches!(decision, OfferOutcome::SkippedUnavailable));
}

#[test]
fn test_unwanted_offer_triggers_nothing() {
    let h = handler();
    let decision = h.decide_character_roll(&offer("Subaru", "Re:Zero", false, false), 7, 2, &None);
    assert!(matches!(decision, OfferOutcome::NotPreferred));
}

#[test]
fn test_preferred_offer_clicks_once_with_reaction_fallback() {
    let h = handler();
    let decision = h.decide_character_roll(&offer("Anyone", "Anywhere", false, true), 7, 2, &Some(
        "claim-77".to_string()));
    match decision {
        OfferOutcome::Attempt { delay_ms, primary, fallback } => {
            assert!((100..600).contains(&delay_ms));
            match primary {
                OutboundAction::ClickButton { channel_id, message_id, button_id } => {
                    assert_eq!(channel_id, 2);
                    assert_eq!(message_id, 7);
                    assert_eq!(button_id, "claim-77");
                }
                other => panic!("primary action was {:?}", other),
            }
            match fallback {
                Some(OutboundAction::AddReaction { channel_id, message_id, emoji }) => {
                    assert_eq!(channel_id, 2);
                    assert_eq!(message_id, 7);
                    assert_eq!(emoji, "\u{1F496}");
                }
                other => panic!("fallback action was {:?}", other),
            }
        }
        other => panic!("decision was {:?}", other),
    }
}

#[test]
fn test_store_match_counts_as_preferred() {
    let h = handler();
    // flagged nowhere in the embed, but stored in the preference list
    let decision = h.decide_character_roll(&offer("rem", "re:zero", false, false), 7, 2, &None);
    match decision {
        OfferOutcome::Attempt { primary, fallback, .. } => {
            assert!(matches!(primary, OutboundAction::AddReaction { .. }));
            assert!(fallback.is_none());
        }
        other => panic!("decision was {:?}", other),
    }
}

#[test]
fn test_loot_plan() {
    let mut h = handler();
    let plan = h.decide_kakera_loot(7, 2, &Some("loot-1".to_string())).unwrap();
    assert!((50..250).contains(&plan.delay_ms));
    assert!(matches!(plan.action, OutboundAction::ClickButton { .. }));
    let plan2 = h.decide_kakera_loot(7, 2, &None).unwrap();
    match plan2.action {
        OutboundAction::AddReaction { emoji, .. } => assert_eq!(emoji, "\u{1F48E}"),
        other => panic!("loot action was {:?}", other),
    }
    h.config.auto_react_kakera = false;
    assert!(h.decide_kakera_loot(7, 2, &None).is_none());
}

#[test]
fn test_budget_report_updates_tracker() {
    let mut h = handler();
    h.apply_rolls_remaining(5, &Some("2h".to_string()), 1_000);
    assert_eq!(h.tracker.budget(), 5);
    assert_eq!(h.stats.get_rolls_remaining(), 5);
    assert_eq!(h.stats.get_next_roll_reset(), Some(1_000 + 2 * 3_600_000));
    h.apply_rolls_remaining(0, &None, 2_000);
    assert_eq!(h.tracker.budget(), 0);
    assert_eq!(h.stats.get_next_roll_reset(), None);
}

#[test]
fn test_claim_report_updates_gate() {
    let mut h = handler();
    h.apply_claim_status(false, 1_000);
    assert!(!h.tracker.is_claim_available());
    h.apply_claim_status(true, 2_000);
    assert!(h.tracker.is_claim_available());
}

#[test]
fn test_handle_mudae_message_offer_path() {
    let mut h = handler();
    h.tracker.set_budget(3);
    h.stats.set_rolls_remaining(3);
    let mut e = Embed {
        title: None,
        description: Some("Re:Zero\nBelongs to Somebody".to_string()),
        author: Some(EmbedAuthor { name: "Rem".to_string() }),
        footer: None,
        fields: None,
        image: None,
        color: None,
    };
    e.description = Some("Re:Zero\nBelongs to Somebody".to_string());
    let m = DiscordMessage {
        id: 7,
        channel_id: 2,
        author: Author { id: 432610292342587392, username: "Mudae".to_string(), bot: true },
        content: String::new(),
        embeds: vec![e],
        components: Vec::new(),
    };
    // the embed has content and no reward-style button, so it reads as a
    // lookup result only without the ownership phrase; with it, it is an
    // offer, already claimed
    match h.handle_mudae_message(&m, 1_000) {
        HandleOutcome::Offer(oc) => assert!(matches!(oc, OfferOutcome::SkippedClaimed)),
        other => panic!("handled as {:?}", other),
    }
    assert_eq!(h.stats.get_rolled(), 1);
    assert_eq!(h.stats.get_rolls_remaining(), 2);
    assert_eq!(h.stats.get_wishlist_matches(), 0);
}

#[test]
fn test_record_outcomes() {
    let mut h = handler();
    h.record_claim_result(true, 1_000);
    assert_eq!(h.stats.get_claimed(), 1);
    h.record_claim_result(false, 1_001);
    assert_eq!(h.stats.get_claimed(), 1);
    h.record_kakera_result(true, 1_002);
    assert_eq!(h.stats.get_kakera(), 1);
}

#[test]
fn test_non_target_channel_is_ignored() {
    let mut h = handler();
    let m = DiscordMessage {
        id: 7,
        channel_id: 999,
        author: Author { id: 1, username: "somebody".to_string(), bot: false },
        content: "hi".to_string(),
        embeds: Vec::new(),
        components: Vec::new(),
    };
    assert!(matches!(h.handle_message(&m, 0), HandleOutcome::Noted));
    assert_eq!(h.stats.get_channel_activity().len(), 0);
}

#[test]
fn test_user_message_feeds_activity() {
    let mut h = handler();
    let m = DiscordMessage {
        id: 7,
        channel_id: 2,
        author: Author { id: 1, username: "somebody".to_string(), bot: false },
        content: "a plain chat line".to_string(),
        embeds: Vec::new(),
        components: Vec::new(),
    };
    h.handle_message(&m, 0);
    assert_eq!(h.stats.get_channel_activity().len(), 1);
}

#[test]
fn test_lookup_flow_through_engine() {
    let mut h = handler();
    let cmd = h.lookup.request("Rem", 2);
    assert_eq!(cmd, "$im Rem");
    let mut e = Embed {
        title: None,
        description: Some("Re:Zero".to_string()),
        author: Some(EmbedAuthor { name: "Rem".to_string() }),
        footer: None,
        fields: None,
        image: None,
        color: None,
    };
    e.description = Some("Re:Zero".to_string());
    let m = DiscordMessage {
        id: 8,
        channel_id: 2,
        author: Author { id: 432610292342587392, username: "Mudae".to_string(), bot: true },
        content: String::new(),
        embeds: vec![e],
        components: Vec::new(),
    };
    match h.handle_mudae_message(&m, 1_000) {
        HandleOutcome::Lookup(Some(sr)) => {
            assert_eq!(sr.name, "Rem");
            assert_eq!(sr.series, "Re:Zero");
            assert!(sr.exists);
        }
        other => panic!("handled as {:?}", other),
    }
    assert!(h.lookup.pending_channel().is_none());
}

#[test]
fn test_lookup_coordinator_slot() {
    let mut lc = LookupCoordinator::new();
    lc.request("Rem", 5);
    assert!(!lc.on_result(6));
    assert_eq!(lc.pending_channel(), Some(5));
    assert!(lc.on_result(5));
    assert!(lc.pending_channel().is_none());
    assert!(!lc.on_result(5));
    lc.request("Ram", 9);
    assert!(lc.on_timeout());
    assert!(!lc.on_timeout());
}
