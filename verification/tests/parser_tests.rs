use mudae_core::message::{
    Author, Button, ButtonEmoji, Component, DiscordMessage, Embed, EmbedAuthor, EmbedFooter,
    EmbedImage,
};
use mudae_core::parser::{KakeraType, MudaeMessage, MudaeParser};

fn empty_embed() -> Embed {
    Embed {
        title: None,
        description: None,
        author: None,
        footer: None,
        fields: None,
        image: None,
        color: None,
    }
}

fn plain_message(content: &str) -> DiscordMessage {
    DiscordMessage {
        id: 1,
        channel_id: 2,
        author: Author { id: 3, username: "mudae".to_string(), bot: true },
        content: content.to_string(),
        embeds: Vec::new(),
        components: Vec::new(),
    }
}

fn claim_button_row(custom_id: &str) -> Component {
    Component {
        component_type: 1,
        components: vec![Button {
            button_type: 2,
            style: Some(1),
            label: None,
            custom_id: Some(custom_id.to_string()),
            emoji: Some(ButtonEmoji { name: Some("\u{1F496}".to_string()), id: None }),
        }],
    }
}

fn kakera_button_row(custom_id: &str) -> Component {
    Component {
        component_type: 1,
        components: vec![Button {
            button_type: 2,
            style: Some(1),
            label: None,
            custom_id: Some(custom_id.to_string()),
            emoji: Some(ButtonEmoji { name: Some("kakeraT".to_string()), id: None }),
        }],
    }
}

fn offer_message(description: &str, footer: Option<&str>) -> DiscordMessage {
    let mut m = plain_message("");
    let mut e = empty_embed();
    e.author = Some(EmbedAuthor { name: "Rem".to_string() });
    e.description = Some(description.to_string());
    e.footer = footer.map(|f| EmbedFooter { text: f.to_string() });
    e.image = Some(EmbedImage { url: "https://img.example/rem.png".to_string() });
    m.embeds = vec![e];
    m.components = vec![claim_button_row("btn-1")];
    m
}

#[test]
fn test_kakera_regex() {
    let text = "123 <:kakera";
    assert_eq!(MudaeParser::extract_kakera(text), Some(123));
}

#[test]
fn test_claim_emoji() {
    assert!(MudaeParser::is_claim_emoji("\u{1F496}"));
    assert!(MudaeParser::is_claim_emoji("\u{2764}\u{FE0F}"));
    assert!(!MudaeParser::is_claim_emoji("\u{1F48E}"));
}

#[test]
fn test_offer_classification() {
    let m = offer_message("Re:Zero\nClaims: #12", Some("250 <:kakera"));
    match MudaeParser::parse(&m) {
        MudaeMessage::CharacterRoll { character, message_id, channel_id, has_claim_button, claim_button_id } => {
            assert_eq!(character.name, "Rem");
            assert_eq!(character.series, "Re:Zero");
            assert_eq!(character.kakera_value, Some(250));
            assert_eq!(character.claim_rank, Some(12));
            assert!(!character.is_claimed);
            assert!(!character.is_wished);
            assert_eq!(message_id, 1);
            assert_eq!(channel_id, 2);
            assert!(has_claim_button);
            assert_eq!(claim_button_id.as_deref(), Some("btn-1"));
        }
        other => panic!("offer classified as {:?}", other),
    }
}

#[test]
fn test_ownership_phrase_marks_claimed() {
    let m = offer_message("Re:Zero\nBelongs to Somebody", None);
    match MudaeParser::parse(&m) {
        MudaeMessage::CharacterRoll { character, .. } => {
            assert!(character.is_claimed);
            assert_eq!(character.kakera_value, None);
        }
        other => panic!("offer classified as {:?}", other),
    }
}

#[test]
fn test_wish_glyph_marks_preferred() {
    let m = offer_message("Re:Zero\nWished by you \u{1F496}", None);
    match MudaeParser::parse(&m) {
        MudaeMessage::CharacterRoll { character, .. } => assert!(character.is_wished),
        other => panic!("offer classified as {:?}", other),
    }
}

#[test]
fn test_footer_without_marker_has_no_value() {
    let m = offer_message("Re:Zero", Some("2 / 34 souls"));
    match MudaeParser::parse(&m) {
        MudaeMessage::CharacterRoll { character, .. } => {
            assert_eq!(character.kakera_value, None);
        }
        other => panic!("offer classified as {:?}", other),
    }
}

#[test]
fn test_lookup_without_buttons() {
    let mut m = plain_message("");
    let mut e = empty_embed();
    e.author = Some(EmbedAuthor { name: "Rem".to_string() });
    e.description = Some("Re:Zero\nKakera value: 250".to_string());
    m.embeds = vec![e];
    match MudaeParser::parse(&m) {
        MudaeMessage::CharacterInfo { name, series, exists } => {
            assert_eq!(name, "Rem");
            assert_eq!(series, "Re:Zero");
            assert!(exists);
        }
        other => panic!("lookup classified as {:?}", other),
    }
}

#[test]
fn test_kakera_loot() {
    let mut m = plain_message("");
    let mut e = empty_embed();
    e.color = Some(0x9B59B6);
    m.embeds = vec![e];
    m.components = vec![kakera_button_row("loot-9")];
    match MudaeParser::parse(&m) {
        MudaeMessage::KakeraLoot { kakera_type, button_id, .. } => {
            assert_eq!(kakera_type, KakeraType::Purple);
            assert_eq!(button_id.as_deref(), Some("loot-9"));
        }
        other => panic!("loot classified as {:?}", other),
    }
}

#[test]
fn test_rolls_info() {
    let m = plain_message("3 rolls left. Next reset in 2h.");
    match MudaeParser::parse(&m) {
        MudaeMessage::RollsRemaining { count, reset_time } => {
            assert_eq!(count, 3);
            assert_eq!(reset_time.as_deref(), Some("2h"));
        }
        other => panic!("budget report classified as {:?}", other),
    }
}

#[test]
fn test_rolls_limited() {
    let m = plain_message("the roulette is limited! 45 min left.");
    match MudaeParser::parse(&m) {
        MudaeMessage::RollsRemaining { count, reset_time } => {
            assert_eq!(count, 0);
            assert_eq!(reset_time.as_deref(), Some("45m"));
        }
        other => panic!("budget report classified as {:?}", other),
    }
}

#[test]
fn test_claim_info() {
    let m = plain_message("you can claim right now! the next claim reset is soon.");
    match MudaeParser::parse(&m) {
        MudaeMessage::ClaimAvailable { available, reset_time } => {
            assert!(available);
            assert_eq!(reset_time, None);
        }
        other => panic!("claim report classified as {:?}", other),
    }
}

#[test]
fn test_claim_info_unavailable() {
    let m = plain_message("claim reset in 1h.");
    match MudaeParser::parse(&m) {
        MudaeMessage::ClaimAvailable { available, .. } => assert!(!available),
        other => panic!("claim report classified as {:?}", other),
    }
}

#[test]
fn test_unrecognized_falls_back() {
    let m = plain_message("hello there");
    assert!(matches!(MudaeParser::parse(&m), MudaeMessage::Unknown));
}

#[test]
fn test_from_color_table() {
    assert_eq!(KakeraType::from_color(Some(0x3498DB)), KakeraType::Blue);
    assert_eq!(KakeraType::from_color(Some(0x123456)), KakeraType::Unknown);
    assert_eq!(KakeraType::from_color(None), KakeraType::Unknown);
}

#[test]
fn test_marry_label_is_claim_button() {
    let row = Component {
        component_type: 1,
        components: vec![Button {
            button_type: 2,
            style: None,
            label: Some("Marry her".to_string()),
            custom_id: Some("wed-1".to_string()),
            emoji: None,
        }],
    };
    let (has, id) = MudaeParser::find_claim_button(&vec![row]);
    assert!(has);
    assert_eq!(id.as_deref(), Some("wed-1"));
}
