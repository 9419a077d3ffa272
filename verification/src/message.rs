//! Normalized model of an inbound chat message: author, text body, rich
//! embeds and interactive button rows, plus the gateway event envelope and a
//! few response records. These are plain snapshots produced by the chat
//! client; the classifier consumes them read-only.
use vstd::prelude::*;
use vstd::string::*;
use crate::text::{dec_digits, u64_to_string};

verus! {

#[derive(Debug, Clone)]
pub struct Author {
    pub id: u64,
    pub username: String,
    pub bot: bool,
}

#[derive(Debug, Clone)]
pub struct EmbedAuthor {
    pub name: String,
}

#[derive(Debug, Clone)]
pub struct EmbedFooter {
    pub text: String,
}

#[derive(Debug, Clone)]
pub struct EmbedField {
    pub name: String,
    pub value: String,
}

#[derive(Debug, Clone)]
pub struct EmbedImage {
    pub url: String,
}

#[derive(Debug, Clone)]
pub struct Embed {
    pub title: Option<String>,
    pub description: Option<String>,
    pub author: Option<EmbedAuthor>,
    pub footer: Option<EmbedFooter>,
    pub fields: Option<Vec<EmbedField>>,
    pub image: Option<EmbedImage>,
    pub color: Option<u32>,
}

#[derive(Debug, Clone)]
pub struct ButtonEmoji {
    pub name: Option<String>,
    pub id: Option<String>,
}

#[derive(Debug, Clone)]
pub struct Button {
    pub button_type: u8,
    pub style: Option<u8>,
    pub label: Option<String>,
    pub custom_id: Option<String>,
    pub emoji: Option<ButtonEmoji>,
}

/// One action row; its `components` are the buttons in display order.
#[derive(Debug, Clone)]
pub struct Component {
    pub component_type: u8,
    pub components: Vec<Button>,
}

#[derive(Debug, Clone)]
pub struct DiscordMessage {
    pub id: u64,
    pub channel_id: u64,
    pub author: Author,
    pub content: String,
    pub embeds: Vec<Embed>,
    pub components: Vec<Component>,
}

#[derive(Debug, Clone)]
pub enum GatewayEvent {
    Ready { user_id: u64, username: String, session_id: String },
    MessageCreate(DiscordMessage),
    MessageUpdate(DiscordMessage),
    ReactionAdd { message_id: u64, channel_id: u64, user_id: u64, emoji: String },
    Unknown(String),
}

#[derive(Debug, Clone)]
pub struct UserResponse {
    pub id: u64,
    pub username: String,
    pub discriminator: Option<String>,
    pub global_name: Option<String>,
}

#[derive(Debug, Clone)]
pub struct ChannelResponse {
    pub id: u64,
    pub name: Option<String>,
    pub guild_id: Option<String>,
}

#[derive(Debug, Clone)]
pub struct GuildResponse {
    pub id: u64,
    pub name: String,
}

/// A target channel as the settings store remembers it.
#[derive(Debug, Clone)]
pub struct ChannelInfo {
    pub id: u64,
    pub name: Option<String>,
    pub guild: Option<String>,
}

/// What `display_name` shows: `#name (guild)`, `#name`, or the bare id.
pub open spec fn display_name_spec(info: &ChannelInfo) -> Seq<char> {
    match (info.name, info.guild) {
        (Some(name), Some(guild)) => seq!['#'] + name@ + seq![' ', '('] + guild@ + seq![')'],
        (Some(name), None) => seq!['#'] + name@,
        (None, _) => dec_digits(info.id as nat),
    }
}

impl ChannelInfo {
    /// Human-readable label for a channel: its name, guild, or bare id.
    pub fn display_name(&self) -> (r: String)
        ensures
            r@ == display_name_spec(self),
    {
        proof {
            reveal_strlit("#");
            reveal_strlit(" (");
            reveal_strlit(")");
            assert("#"@ =~= seq!['#']);
            assert(" ("@ =~= seq![' ', '(']);
            assert(")"@ =~= seq![')']);
        }
        match (&self.name, &self.guild) {
            (Some(name), Some(guild)) => {
                let mut r = String::from_str("#");
                r.append(name.as_str());
                r.append(" (");
                r.append(guild.as_str());
                r.append(")");
                r
            },
            (Some(name), None) => {
                let mut r = String::from_str("#");
                r.append(name.as_str());
                r
            },
            (None, _) => u64_to_string(self.id),
        }
    }
}

} // verus!
