use mudae_core::codec::{export_store, load_store};
use mudae_core::similarity::{levenshtein, similarity_at_least};
use mudae_core::wishlist::{WishedCharacter, WishlistManager};

fn store_with_rem() -> WishlistManager {
    let mut wl = WishlistManager::new(80, true, false);
    let entry = WishedCharacter::new("Rem".to_string()).with_series("Re:Zero".to_string());
    assert!(wl.add_character(entry, 1_000));
    wl
}

#[test]
fn test_fuzzy_matching() {
    assert!(similarity_at_least("rem", "rem", 80));
    assert!(!similarity_at_least("rem", "ram", 80));
    assert!(similarity_at_least("emilia", "emilia", 80));
}

#[test]
fn test_levenshtein_values() {
    assert_eq!(levenshtein("rem", "ren"), 1);
    assert_eq!(levenshtein("", "abc"), 3);
    assert_eq!(levenshtein("kitten", "sitting"), 3);
    assert_eq!(levenshtein("same", "same"), 0);
}

#[test]
fn test_wished_character_builder() {
    let entry = WishedCharacter::new("Rem".to_string())
        .with_series("Re:Zero".to_string())
        .with_priority(10)
        .with_notes("Best girl".to_string());
    assert_eq!(entry.name, "Rem");
    assert_eq!(entry.series, Some("Re:Zero".to_string()));
    assert_eq!(entry.priority, 10);
    assert_eq!(entry.notes, Some("Best girl".to_string()));
}

#[test]
fn test_is_wished_exact_and_fuzzy() {
    let wl = store_with_rem();
    let hit = wl.is_wished("Rem", Some("Re:Zero"));
    assert!(hit.is_some());
    assert_eq!(hit.unwrap().name, "Rem");
    // edit distance 1 over length 3 is similarity 2/3, under the 0.8 threshold
    assert!(wl.is_wished("Ren", Some("Re:Zero")).is_none());
}

#[test]
fn test_is_wished_fuzzy_accepts_close_names() {
    let mut wl = WishlistManager::new(80, true, false);
    assert!(wl.add_character(WishedCharacter::new("Emilia".to_string()), 0));
    // edit distance 1 over length 6 is similarity 5/6, over the threshold;
    // the stored entry has no series, which acts as a wildcard
    let hit = wl.is_wished("Emilio", Some("Anything"));
    assert!(hit.is_some());
}

#[test]
fn test_is_wished_respects_series() {
    let mut wl = WishlistManager::new(80, false, false);
    let entry = WishedCharacter::new("Rem".to_string()).with_series("Re:Zero".to_string());
    assert!(wl.add_character(entry, 0));
    assert!(wl.is_wished("Rem", Some("re:zero")).is_some());
    assert!(wl.is_wished("Rem", Some("Konosuba")).is_none());
    assert!(wl.is_wished("Rem", None).is_some());
}

#[test]
fn test_add_duplicate_case_insensitive() {
    let mut wl = store_with_rem();
    let dup = WishedCharacter::new("REM".to_string());
    assert!(!wl.add_character(dup, 2_000));
    assert_eq!(wl.count(), 1);
}

#[test]
fn test_remove_character() {
    let mut wl = store_with_rem();
    assert!(wl.remove_character("rem"));
    assert_eq!(wl.count(), 0);
    assert!(!wl.remove_character("rem"));
}

#[test]
fn test_update_verification() {
    let mut wl = store_with_rem();
    let found = wl.update_character_verification(
        "rem",
        true,
        Some("Rem".to_string()),
        Some("Re:Zero - Starting Life in Another World".to_string()),
        Some("1234".to_string()),
    );
    assert!(found);
    let all = wl.get_characters();
    assert!(all[0].verified);
    assert_eq!(all[0].series.as_deref(), Some("Re:Zero - Starting Life in Another World"));
    assert_eq!(all[0].character_id.as_deref(), Some("1234"));
    assert!(!wl.update_character_verification("nobody", true, None, None, None));
}

#[test]
fn test_listing_order() {
    let mut wl = WishlistManager::new(80, true, true);
    assert!(wl.add_character(WishedCharacter::new("a".to_string()).with_priority(1), 0));
    assert!(wl.add_character(
        {
            let mut e = WishedCharacter::new("b".to_string()).with_priority(9);
            e.verified = false;
            e
        },
        0,
    ));
    let mut v = WishedCharacter::new("c".to_string()).with_priority(0);
    v.verified = true;
    assert!(wl.add_character(v, 0));
    let listed = wl.get_all();
    assert_eq!(listed.len(), 3);
    assert_eq!(listed[0].name, "c");
    assert_eq!(listed[1].name, "b");
    assert_eq!(listed[2].name, "a");
}

#[test]
fn test_search_and_filters() {
    let mut wl = store_with_rem();
    let mut ram = WishedCharacter::new("Ram".to_string()).with_series("Re:Zero".to_string());
    ram.verified = true;
    assert!(wl.add_character(ram, 0));
    assert_eq!(wl.search("re:zero").len(), 2);
    assert_eq!(wl.search("ram").len(), 1);
    assert_eq!(wl.search("nothing").len(), 0);
    assert_eq!(wl.get_verified().len(), 1);
    assert_eq!(wl.get_unverified().len(), 1);
}

#[test]
fn test_import_skips_existing() {
    let mut wl = store_with_rem();
    let incoming = vec![
        WishedCharacter::new("rem".to_string()),
        WishedCharacter::new("Ram".to_string()),
        WishedCharacter::new("RAM".to_string()),
    ];
    let added = wl.import(incoming);
    assert_eq!(added, 1);
    assert_eq!(wl.count(), 2);
}

#[test]
fn test_store_round_trip() {
    let mut wl = WishlistManager::new(80, true, false);
    let first = WishedCharacter::new("Rem".to_string())
        .with_series("Re:Zero".to_string())
        .with_priority(10)
        .with_notes("Best girl".to_string());
    let second = WishedCharacter::new("Kaguya".to_string());
    assert!(wl.add_character(first, 111));
    assert!(wl.add_character(second, 222));
    let text = export_store(&mut wl, 999);

    let mut reloaded = WishlistManager::new(80, true, false);
    assert!(load_store(&mut reloaded, text.as_str()));
    assert_eq!(reloaded.last_updated(), 999);
    let a = wl.get_characters();
    let b = reloaded.get_characters();
    assert_eq!(a.len(), b.len());
    for k in 0..a.len() {
        assert_eq!(a[k].name, b[k].name);
        assert_eq!(a[k].series, b[k].series);
        assert_eq!(a[k].character_id, b[k].character_id);
        assert_eq!(a[k].verified, b[k].verified);
        assert_eq!(a[k].added_date, b[k].added_date);
        assert_eq!(a[k].notes, b[k].notes);
        assert_eq!(a[k].priority, b[k].priority);
    }
}

#[test]
fn test_malformed_store_loads_empty() {
    let mut wl = store_with_rem();
    assert!(!load_store(&mut wl, "not a store at all"));
    assert_eq!(wl.count(), 0);
}

#[test]
fn test_clear() {
    let mut wl = store_with_rem();
    assert_eq!(wl.clear(), 1);
    assert_eq!(wl.count(), 0);
}
