//! The classifier: a pure, total mapping from an inbound message to one of a
//! closed set of semantic events, by an ordered heuristic cascade over embed
//! and button content. The first matching rule wins; anything unmatched
//! falls back to `Unknown`.
use vstd::prelude::*;
use vstd::string::*;
use crate::message::{Button, Component, DiscordMessage, Embed};
use crate::text::{
    contains_seq, contains_str, dec_digits, digit_run_end, digits_val, first_line, lower_of,
    match_at, parse_digits, push_char, sp_run_end, split_first_line, str_eq, to_lowercase, trim,
    trim_sp, u64_to_string,
};
use crate::patterns::{
    find_lit_num, find_num_pattern, find_reset_pattern, first_lit_num_from, first_num_pat_from,
    first_reset_pat_from, num_pat_at, reset_pat_num,
};

verus! {

/// A character offer as read out of an embed.
#[derive(Debug, Clone)]
pub struct ParsedCharacter {
    pub name: String,
    pub series: String,
    pub kakera_value: Option<u32>,
    pub image_url: Option<String>,
    pub is_claimed: bool,
    pub claim_rank: Option<u32>,
    pub is_wished: bool,
}

/// The classified event: exactly one is produced per message.
#[derive(Debug, Clone)]
pub enum MudaeMessage {
    CharacterRoll {
        character: ParsedCharacter,
        message_id: u64,
        channel_id: u64,
        has_claim_button: bool,
        claim_button_id: Option<String>,
    },
    KakeraLoot {
        message_id: u64,
        channel_id: u64,
        kakera_type: KakeraType,
        button_id: Option<String>,
    },
    CharacterInfo { name: String, series: String, exists: bool },
    RollsRemaining { count: u32, reset_time: Option<String> },
    ClaimAvailable { available: bool, reset_time: Option<String> },
    DailyReady,
    Unknown,
}

/// Loot kind, colour-coded by the embed colour.
#[derive(Debug, Clone, Copy, PartialEq, Eq, Structural)]
pub enum KakeraType {
    Purple,
    Blue,
    Teal,
    Green,
    Yellow,
    Orange,
    Red,
    Pink,
    Rainbow,
    Light,
    Unknown,
}

/// The exact colour table mapping an embed colour to a loot kind.
pub open spec fn spec_kakera_from_color(color: Option<u32>) -> KakeraType {
    match color {
        Some(c) => {
            if c == 0x9B59B6 { KakeraType::Purple }
            else if c == 0x3498DB { KakeraType::Blue }
            else if c == 0x1ABC9C { KakeraType::Teal }
            else if c == 0x2ECC71 { KakeraType::Green }
            else if c == 0xF1C40F { KakeraType::Yellow }
            else if c == 0xE67E22 { KakeraType::Orange }
            else if c == 0xE74C3C { KakeraType::Red }
            else if c == 0xFFB6C1 { KakeraType::Pink }
            else if c == 0x00FFFF { KakeraType::Rainbow }
            else if c == 0xFFFFFF { KakeraType::Light }
            else { KakeraType::Unknown }
        },
        None => KakeraType::Unknown,
    }
}

impl KakeraType {
    /// Look a loot kind up in the fixed colour palette.
    pub fn from_color(color: Option<u32>) -> (r: Self)
        ensures
            r == spec_kakera_from_color(color),
    {
        match color {
            Some(0x9B59B6) => KakeraType::Purple,
            Some(0x3498DB) => KakeraType::Blue,
            Some(0x1ABC9C) => KakeraType::Teal,
            Some(0x2ECC71) => KakeraType::Green,
            Some(0xF1C40F) => KakeraType::Yellow,
            Some(0xE67E22) => KakeraType::Orange,
            Some(0xE74C3C) => KakeraType::Red,
            Some(0xFFB6C1) => KakeraType::Pink,
            Some(0x00FFFF) => KakeraType::Rainbow,
            Some(0xFFFFFF) => KakeraType::Light,
            _ => KakeraType::Unknown,
        }
    }
}

/// The ownership phrase that marks an already-claimed offer.
pub open spec fn belongs_marker() -> Seq<char> {
    "Belongs to"@
}

/// The loot-currency substring looked for in button emoji names.
pub open spec fn kakera_marker() -> Seq<char> {
    "kakera"@
}

/// The loot-currency footer token: digits directly before this marker give
/// the reward value.
pub open spec fn kakera_footer_marker() -> Seq<char> {
    "<:kakera"@
}

/// The label that precedes a claim rank.
pub open spec fn claims_rank_marker() -> Seq<char> {
    "Claims: #"@
}

/// The word in a button label that marks a claim affordance.
pub open spec fn marry_marker() -> Seq<char> {
    "marry"@
}

/// The heart glyphs accepted as a claim emoji, exactly.
pub open spec fn is_claim_emoji_seq(s: Seq<char>) -> bool {
    ||| s == "\u{1F496}"@
    ||| s == "\u{2764}\u{FE0F}"@
    ||| s == "\u{1F495}"@
    ||| s == "\u{1F497}"@
    ||| s == "\u{1F498}"@
    ||| s == "\u{1F49D}"@
}

/// The heart glyphs whose presence in a description marks a preferred offer.
pub open spec fn wished_in(d: Seq<char>) -> bool {
    contains_seq(d, "\u{1F496}"@) || contains_seq(d, "\u{2764}\u{FE0F}"@)
}

/// A button that affords a claim: a heart emoji, or a heart or the word
/// `marry` in its label.
pub open spec fn spec_button_is_claim(b: Button) -> bool {
    ||| (b.emoji matches Some(e) && e.name matches Some(n) && is_claim_emoji_seq(n@))
    ||| (b.label matches Some(l) && (contains_seq(l@, "\u{1F496}"@)
        || contains_seq(lower_of(l@), marry_marker())))
}

/// A button that collects loot: its emoji name holds the loot marker.
pub open spec fn spec_button_is_kakera(b: Button) -> bool {
    b.emoji matches Some(e) && e.name matches Some(n) && contains_seq(n@, kakera_marker())
}

/// The view of an optional string, for contracts over copied ids.
pub open spec fn opt_str_view(o: Option<String>) -> Option<Seq<char>> {
    match o {
        Some(s) => Some(s@),
        None => None,
    }
}

/// Copy an optional string.
pub fn clone_opt_string(o: &Option<String>) -> (r: Option<String>)
    ensures
        opt_str_view(r) == opt_str_view(*o),
{
    match o {
        Some(s) => Some(String::from_str(s.as_str())),
        None => None,
    }
}

/// First claim button of one row, scanning from `i`.
pub open spec fn find_claim_in_row(bs: Seq<Button>, i: int) -> Option<Button>
    decreases bs.len() + 1 - i,
{
    if i < 0 || i >= bs.len() {
        None
    } else if spec_button_is_claim(bs[i]) {
        Some(bs[i])
    } else {
        find_claim_in_row(bs, i + 1)
    }
}

/// First claim button over the rows from `r` on, row-major.
pub open spec fn find_claim_rows(rows: Seq<Component>, r: int) -> Option<Button>
    decreases rows.len() + 1 - r,
{
    if r < 0 || r >= rows.len() {
        None
    } else {
        match find_claim_in_row(rows[r].components@, 0) {
            Some(b) => Some(b),
            None => find_claim_rows(rows, r + 1),
        }
    }
}

/// The first button of the message, row-major, that affords a claim.
pub open spec fn spec_find_claim(rows: Seq<Component>) -> Option<Button> {
    find_claim_rows(rows, 0)
}

/// First loot button of one row, scanning from `i`.
pub open spec fn find_kakera_in_row(bs: Seq<Button>, i: int) -> Option<Button>
    decreases bs.len() + 1 - i,
{
    if i < 0 || i >= bs.len() {
        None
    } else if spec_button_is_kakera(bs[i]) {
        Some(bs[i])
    } else {
        find_kakera_in_row(bs, i + 1)
    }
}

/// First loot button over the rows from `r` on, row-major.
pub open spec fn find_kakera_rows(rows: Seq<Component>, r: int) -> Option<Button>
    decreases rows.len() + 1 - r,
{
    if r < 0 || r >= rows.len() {
        None
    } else {
        match find_kakera_in_row(rows[r].components@, 0) {
            Some(b) => Some(b),
            None => find_kakera_rows(rows, r + 1),
        }
    }
}

/// The first button of the message, row-major, whose emoji marks loot.
pub open spec fn spec_find_kakera(rows: Seq<Component>) -> Option<Button> {
    find_kakera_rows(rows, 0)
}

/// The description characters, or empty when the embed has none.
pub open spec fn desc_view(e: Embed) -> Seq<char> {
    match e.description {
        Some(d) => d@,
        None => Seq::empty(),
    }
}

/// The embed-derived offer name: the author name, else empty.
pub open spec fn author_name_view(e: Embed) -> Seq<char> {
    match e.author {
        Some(a) => a.name@,
        None => Seq::empty(),
    }
}

/// The reward value read from a text: the digits of the leftmost
/// number-then-loot-marker occurrence, when they fit a `u32`.
pub open spec fn spec_kakera_value(t: Seq<char>) -> Option<u32> {
    match first_num_pat_from(t, kakera_footer_marker(), false, Seq::empty(), 0) {
        Some(i) => {
            let e = digit_run_end(t, i);
            let v = digits_val(t.subrange(i, e));
            if v <= u32::MAX {
                Some(v as u32)
            } else {
                None
            }
        },
        None => None,
    }
}

/// The claim rank read from a description: the digits after the leftmost
/// rank label, when they fit a `u32`.
pub open spec fn spec_claim_rank(d: Seq<char>) -> Option<u32> {
    match first_lit_num_from(d, claims_rank_marker(), 0) {
        Some(k) => {
            let st = k + claims_rank_marker().len();
            let e = digit_run_end(d, st);
            let v = digits_val(d.subrange(st, e));
            if v <= u32::MAX {
                Some(v as u32)
            } else {
                None
            }
        },
        None => None,
    }
}

/// The reward value an embed footer carries, if any.
pub open spec fn footer_kakera(e: Embed) -> Option<u32> {
    match e.footer {
        Some(f) => spec_kakera_value(f.text@),
        None => None,
    }
}

/// Rule: an embed with both an author name and a description is an offer.
pub open spec fn spec_is_offer(msg: DiscordMessage) -> bool {
    msg.embeds@.len() > 0 && msg.embeds@[0].author is Some && msg.embeds@[0].description is Some
}

/// Rule: a lookup result is an offer-shaped embed with no reward-style
/// button on the message, no ownership phrase, and some content.
pub open spec fn spec_embed_lookup(msg: DiscordMessage, e: Embed) -> bool {
    &&& e.author is Some
    &&& e.description is Some
    &&& spec_find_claim(msg.components@) is None
    &&& spec_find_kakera(msg.components@) is None
    &&& !contains_seq(desc_view(e), belongs_marker())
    &&& ((e.fields matches Some(f) && f@.len() > 0) || desc_view(e).len() > 0)
}

pub open spec fn spec_is_lookup(msg: DiscordMessage) -> bool {
    msg.embeds@.len() > 0 && spec_embed_lookup(msg, msg.embeds@[0])
}

/// Rule: some button of the message carries the loot marker.
pub open spec fn spec_is_loot(msg: DiscordMessage) -> bool {
    spec_find_kakera(msg.components@) is Some
}

/// Rule: text that reports the remaining action budget.
pub open spec fn spec_is_rolls(c: Seq<char>) -> bool {
    ||| contains_seq(c, "rolls left"@)
    ||| (contains_seq(c, "roll"@) && contains_seq(c, "reset"@))
    ||| contains_seq(c, "roulette is limited"@)
}

/// Rule: text that reports the claim cooldown.
pub open spec fn spec_is_claim_status(c: Seq<char>) -> bool {
    contains_seq(c, "claim"@) && (contains_seq(c, "available"@) || contains_seq(c, "reset"@))
}

/// The remaining-roll count read from a budget report.
pub open spec fn spec_rolls_count(c: Seq<char>) -> u32 {
    if contains_seq(c, "roulette is limited"@) {
        0
    } else {
        match first_num_pat_from(c, "roll"@, true, "left"@, 0) {
            Some(i) => {
                let e = digit_run_end(c, i);
                let v = digits_val(c.subrange(i, e));
                if v <= u32::MAX {
                    v as u32
                } else {
                    0
                }
            },
            None => 0,
        }
    }
}

/// The reset hint read from a budget report: minutes when the roulette is
/// limited, else hours first and minutes as the fallback.
pub open spec fn spec_rolls_reset(c: Seq<char>) -> Option<Seq<char>> {
    if contains_seq(c, "roulette is limited"@) {
        match first_num_pat_from(c, "min"@, false, "left"@, 0) {
            Some(i) => {
                let e = digit_run_end(c, i);
                let v = digits_val(c.subrange(i, e));
                if v <= i64::MAX {
                    Some(dec_digits(v) + seq!['m'])
                } else {
                    None
                }
            },
            None => None,
        }
    } else {
        let hours = match first_reset_pat_from(c, 'h', 0) {
            Some(k) => {
                let st = reset_pat_num(c, k);
                let e = digit_run_end(c, st);
                let v = digits_val(c.subrange(st, e));
                if v <= i64::MAX {
                    Some(dec_digits(v) + seq!['h'])
                } else {
                    None
                }
            },
            None => None,
        };
        if hours is Some {
            hours
        } else {
            match first_reset_pat_from(c, 'm', 0) {
                Some(k) => {
                    let st = reset_pat_num(c, k);
                    let e = digit_run_end(c, st);
                    let v = digits_val(c.subrange(st, e));
                    if v <= i64::MAX {
                        Some(dec_digits(v) + seq!['m'])
                    } else {
                        None
                    }
                },
                None => None,
            }
        }
    }
}

/// What a character offer carries, field by field.
pub open spec fn offer_payload(msg: DiscordMessage, e: Embed, r: MudaeMessage) -> bool {
    r matches MudaeMessage::CharacterRoll {
        character,
        message_id,
        channel_id,
        has_claim_button,
        claim_button_id,
    } && character.name@ == author_name_view(e)
        && character.series@ == trim_sp(first_line(desc_view(e)))
        && character.kakera_value == footer_kakera(e)
        && opt_str_view(character.image_url) == (match e.image {
            Some(im) => Some(im.url@),
            None => None::<Seq<char>>,
        })
        && character.is_claimed == contains_seq(desc_view(e), belongs_marker())
        && character.claim_rank == spec_claim_rank(desc_view(e))
        && character.is_wished == wished_in(desc_view(e))
        && message_id == msg.id
        && channel_id == msg.channel_id
        && has_claim_button == (spec_find_claim(msg.components@) is Some)
        && opt_str_view(claim_button_id) == (match spec_find_claim(msg.components@) {
            Some(b) => opt_str_view(b.custom_id),
            None => None::<Seq<char>>,
        })
}

/// What a lookup result carries: the name from the author or title, the
/// series from the first description line.
pub open spec fn lookup_payload(e: Embed, r: MudaeMessage) -> bool {
    r matches MudaeMessage::CharacterInfo { name, series, exists } && name@ == (match e.author {
        Some(a) => a.name@,
        None => match e.title {
            Some(t) => t@,
            None => Seq::empty(),
        },
    }) && series@ == (match e.description {
        Some(d) => trim_sp(first_line(d@)),
        None => Seq::empty(),
    }) && exists == true
}

/// What a loot offer carries: the colour-coded kind and the first loot
/// button's action id.
pub open spec fn loot_payload(msg: DiscordMessage, r: MudaeMessage) -> bool {
    r matches MudaeMessage::KakeraLoot { message_id, channel_id, kakera_type, button_id }
        && message_id == msg.id
        && channel_id == msg.channel_id
        && kakera_type == spec_kakera_from_color(if msg.embeds@.len() > 0 {
            msg.embeds@[0].color
        } else {
            None
        })
        && opt_str_view(button_id) == (match spec_find_kakera(msg.components@) {
            Some(b) => opt_str_view(b.custom_id),
            None => None::<Seq<char>>,
        })
}

/// What a budget report carries.
pub open spec fn rolls_payload(c: Seq<char>, r: MudaeMessage) -> bool {
    r matches MudaeMessage::RollsRemaining { count, reset_time } && count == spec_rolls_count(c)
        && opt_str_view(reset_time) == spec_rolls_reset(c)
}

/// What a claim-cooldown report carries.
pub open spec fn claim_payload(c: Seq<char>, r: MudaeMessage) -> bool {
    r matches MudaeMessage::ClaimAvailable { available, reset_time } && available == (contains_seq(
        c, "can claim"@) || contains_seq(c, "claim available"@)) && reset_time is None
}

/// The whole cascade: which event each message classifies to.
pub open spec fn classified(msg: DiscordMessage, r: MudaeMessage) -> bool {
    &&& spec_is_lookup(msg) ==> lookup_payload(msg.embeds@[0], r)
    &&& !spec_is_lookup(msg) && spec_is_offer(msg) ==> offer_payload(msg, msg.embeds@[0], r)
    &&& !spec_is_lookup(msg) && !spec_is_offer(msg) && spec_is_loot(msg) ==> loot_payload(msg, r)
    &&& !spec_is_lookup(msg) && !spec_is_offer(msg) && !spec_is_loot(msg)
        && spec_is_rolls(msg.content@) ==> rolls_payload(msg.content@, r)
    &&& !spec_is_lookup(msg) && !spec_is_offer(msg) && !spec_is_loot(msg)
        && !spec_is_rolls(msg.content@) && spec_is_claim_status(msg.content@) ==> claim_payload(
        msg.content@, r)
    &&& !spec_is_lookup(msg) && !spec_is_offer(msg) && !spec_is_loot(msg)
        && !spec_is_rolls(msg.content@) && !spec_is_claim_status(msg.content@) ==> r is Unknown
}

/// A pattern occurrence includes its marker, so a text without the marker
/// carries no occurrence.
proof fn lemma_pat_needs_marker(t: Seq<char>, i: int)
    requires
        0 <= i,
        first_num_pat_from(t, kakera_footer_marker(), false, Seq::empty(), i) is Some,
    ensures
        contains_seq(t, kakera_footer_marker()),
    decreases t.len() + 1 - i,
{
    if i < 0 || i >= t.len() {
    } else if num_pat_at(t, i, kakera_footer_marker(), false, Seq::empty()) {
        assert(match_at(t, sp_run_end(t, digit_run_end(t, i)), kakera_footer_marker()));
    } else {
        lemma_pat_needs_marker(t, i + 1);
    }
}

/// Law: a footer text that holds the loot-currency marker nowhere yields no
/// reward value.
pub proof fn lemma_no_marker_no_value(t: Seq<char>)
    requires
        !contains_seq(t, kakera_footer_marker()),
    ensures
        spec_kakera_value(t) is None,
{
    if spec_kakera_value(t) is Some {
        lemma_pat_needs_marker(t, 0);
    }
}

/// Law: a message whose first embed carries both an author name and a
/// description, no ownership phrase, and some reward-style button classifies
/// as a character offer named by the author, with the series read from the
/// first description line, trimmed. (Without any reward-style button such a
/// message classifies as a lookup result instead.)
pub proof fn lemma_offer_classification(msg: DiscordMessage, r: MudaeMessage)
    requires
        msg.embeds@.len() > 0,
        msg.embeds@[0].author is Some,
        msg.embeds@[0].description is Some,
        !contains_seq(desc_view(msg.embeds@[0]), belongs_marker()),
        spec_find_claim(msg.components@) is Some || spec_find_kakera(msg.components@) is Some,
        classified(msg, r),
    ensures
        r matches MudaeMessage::CharacterRoll { character, .. } && character.name@
            == author_name_view(msg.embeds@[0]) && character.series@ == trim_sp(first_line(
            desc_view(msg.embeds@[0]))),
{
    assert(!spec_is_lookup(msg));
    assert(spec_is_offer(msg));
}

/// Law: an offer whose description holds the ownership phrase reads as
/// already claimed, whatever else the message carries.
pub proof fn lemma_ownership_marks_claimed(msg: DiscordMessage, r: MudaeMessage)
    requires
        spec_is_offer(msg),
        contains_seq(desc_view(msg.embeds@[0]), belongs_marker()),
        classified(msg, r),
    ensures
        r matches MudaeMessage::CharacterRoll { character, .. } && character.is_claimed,
{
    assert(!spec_is_lookup(msg));
}

/// The classifier. All methods are associated functions: classification is
/// pure and carries no state.
pub struct MudaeParser;

impl MudaeParser {
    /// Is this exactly one of the heart glyphs that afford a claim?
    pub fn is_claim_emoji(emoji: &str) -> (r: bool)
        ensures
            r == is_claim_emoji_seq(emoji@),
    {
        ||| str_eq(emoji, "\u{1F496}")
        ||| str_eq(emoji, "\u{2764}\u{FE0F}")
        ||| str_eq(emoji, "\u{1F495}")
        ||| str_eq(emoji, "\u{1F497}")
        ||| str_eq(emoji, "\u{1F498}")
        ||| str_eq(emoji, "\u{1F49D}")
    }

    /// Does this button afford a claim?
    pub fn button_is_claim(b: &Button) -> (r: bool)
        ensures
            r == spec_button_is_claim(*b),
    {
        if let Some(e) = &b.emoji {
            if let Some(n) = &e.name {
                if Self::is_claim_emoji(n.as_str()) {
                    return true;
                }
            }
        }
        if let Some(l) = &b.label {
            if contains_str(l.as_str(), "\u{1F496}") {
                return true;
            }
            let lowered = to_lowercase(l.as_str());
            if contains_str(lowered.as_str(), "marry") {
                return true;
            }
        }
        false
    }

    /// Does this button collect loot?
    pub fn button_is_kakera(b: &Button) -> (r: bool)
        ensures
            r == spec_button_is_kakera(*b),
    {
        if let Some(e) = &b.emoji {
            if let Some(n) = &e.name {
                return contains_str(n.as_str(), "kakera");
            }
        }
        false
    }

    /// Scan rows then buttons in order for the first claim affordance; hand
    /// back whether one exists and its opaque action id.
    pub fn find_claim_button(components: &Vec<Component>) -> (r: (bool, Option<String>))
        ensures
            r.0 == (spec_find_claim(components@) is Some),
            opt_str_view(r.1) == (match spec_find_claim(components@) {
                Some(b) => opt_str_view(b.custom_id),
                None => None::<Seq<char>>,
            }),
    {
        let nrows = components.len();
        let mut r: usize = 0;
        while r < nrows
            invariant
                0 <= r <= nrows,
                nrows == components@.len(),
                spec_find_claim(components@) == find_claim_rows(components@, r as int),
            decreases nrows - r,
        {
            let row = &components[r];
            let nb = row.components.len();
            let mut i: usize = 0;
            while i < nb
                invariant
                    0 <= i <= nb,
                    0 <= r < nrows,
                    nrows == components@.len(),
                    nb == row.components@.len(),
                    row == components@[r as int],
                    spec_find_claim(components@) == find_claim_rows(components@, r as int),
                    find_claim_in_row(row.components@, 0) == find_claim_in_row(
                        row.components@, i as int),
                decreases nb - i,
            {
                let b = &row.components[i];
                if Self::button_is_claim(b) {
                    return (true, clone_opt_string(&b.custom_id));
                }
                i += 1;
            }
            assert(find_claim_in_row(row.components@, nb as int) is None);
            r += 1;
        }
        (false, None)
    }

    /// Scan rows then buttons in order for the first loot button.
    pub fn find_kakera_button(components: &Vec<Component>) -> (r: Option<Button>)
        ensures
            r matches Some(b) ==> spec_find_kakera(components@) matches Some(sb)
                && opt_str_view(b.custom_id) == opt_str_view(sb.custom_id),
            r is None <==> spec_find_kakera(components@) is None,
    {
        let nrows = components.len();
        let mut r: usize = 0;
        while r < nrows
            invariant
                0 <= r <= nrows,
                nrows == components@.len(),
                spec_find_kakera(components@) == find_kakera_rows(components@, r as int),
            decreases nrows - r,
        {
            let row = &components[r];
            let nb = row.components.len();
            let mut i: usize = 0;
            while i < nb
                invariant
                    0 <= i <= nb,
                    0 <= r < nrows,
                    nrows == components@.len(),
                    nb == row.components@.len(),
                    row == components@[r as int],
                    spec_find_kakera(components@) == find_kakera_rows(components@, r as int),
                    find_kakera_in_row(row.components@, 0) == find_kakera_in_row(
                        row.components@, i as int),
                decreases nb - i,
            {
                let b = &row.components[i];
                if Self::button_is_kakera(b) {
                    let copy = Button {
                        button_type: b.button_type,
                        style: b.style,
                        label: clone_opt_string(&b.label),
                        custom_id: clone_opt_string(&b.custom_id),
                        emoji: match &b.emoji {
                            Some(e) => Some(crate::message::ButtonEmoji {
                                name: clone_opt_string(&e.name),
                                id: clone_opt_string(&e.id),
                            }),
                            None => None,
                        },
                    };
                    return Some(copy);
                }
                i += 1;
            }
            assert(find_kakera_in_row(row.components@, nb as int) is None);
            r += 1;
        }
        None
    }

    /// An embed shaped like a character offer: both an author name and a
    /// description.
    pub fn is_character_roll(embed: &Embed) -> (r: bool)
        ensures
            r == (embed.author is Some && embed.description is Some),
    {
        embed.author.is_some() && embed.description.is_some()
    }

    /// The series named by a description: its first line, trimmed.
    pub fn extract_series(description: &str) -> (r: String)
        ensures
            r@ == trim_sp(first_line(description@)),
    {
        String::from_str(trim(split_first_line(description)))
    }

    /// The reward value in a footer text: the number directly before the
    /// loot-currency token.
    pub fn extract_kakera_value(text: &str) -> (r: Option<u32>)
        ensures
            r == spec_kakera_value(text@),
    {
        proof {
            reveal_strlit("");
            assert(""@ =~= Seq::<char>::empty());
        }
        match find_num_pattern(text, "<:kakera", false, "") {
            Some((start, end)) => match parse_digits(text, start, end, 0xFFFF_FFFF) {
                Some(v) => Some(v as u32),
                None => None,
            },
            None => None,
        }
    }

    /// The claim rank in a description: the number after the rank label.
    pub fn extract_claim_rank(description: &str) -> (r: Option<u32>)
        ensures
            r == spec_claim_rank(description@),
    {
        match find_lit_num(description, "Claims: #") {
            Some((start, end)) => match parse_digits(description, start, end, 0xFFFF_FFFF) {
                Some(v) => Some(v as u32),
                None => None,
            },
            None => None,
        }
    }

    /// Read a character offer out of the message's first embed.
    pub fn parse_character_roll(message: &DiscordMessage, embed: &Embed) -> (r: MudaeMessage)
        ensures
            offer_payload(*message, *embed, r),
    {
        proof {
            reveal_strlit("");
            assert(""@ =~= Seq::<char>::empty());
        }
        let name = match &embed.author {
            Some(a) => String::from_str(a.name.as_str()),
            None => String::new(),
        };
        let description: &str = match &embed.description {
            Some(d) => d.as_str(),
            None => "",
        };
        let series = Self::extract_series(description);
        let kakera_value = match &embed.footer {
            Some(f) => Self::extract_kakera_value(f.text.as_str()),
            None => None,
        };
        let image_url = match &embed.image {
            Some(im) => Some(String::from_str(im.url.as_str())),
            None => None,
        };
        let is_claimed = contains_str(description, "Belongs to");
        let claim_rank = Self::extract_claim_rank(description);
        let is_wished = contains_str(description, "\u{1F496}")
            || contains_str(description, "\u{2764}\u{FE0F}");
        let (has_claim_button, claim_button_id) = Self::find_claim_button(&message.components);
        MudaeMessage::CharacterRoll {
            character: ParsedCharacter {
                name,
                series,
                kakera_value,
                image_url,
                is_claimed,
                claim_rank,
                is_wished,
            },
            message_id: message.id,
            channel_id: message.channel_id,
            has_claim_button,
            claim_button_id,
        }
    }

    /// Is any button of the message a loot button?
    pub fn is_kakera_loot(message: &DiscordMessage) -> (r: bool)
        ensures
            r == spec_is_loot(*message),
    {
        Self::find_kakera_button(&message.components).is_some()
    }

    /// Read a loot offer: kind from the embed colour, action id from the
    /// first loot button.
    pub fn parse_kakera_loot(message: &DiscordMessage) -> (r: MudaeMessage)
        ensures
            loot_payload(*message, r),
    {
        let embed_color = if message.embeds.len() > 0 {
            message.embeds[0].color
        } else {
            None
        };
        let kakera_type = KakeraType::from_color(embed_color);
        let button_id = match Self::find_kakera_button(&message.components) {
            Some(b) => clone_opt_string(&b.custom_id),
            None => None,
        };
        MudaeMessage::KakeraLoot {
            message_id: message.id,
            channel_id: message.channel_id,
            kakera_type,
            button_id,
        }
    }

    /// An offer-shaped embed with no reward-style button, no ownership
    /// phrase, and some content: a lookup result.
    pub fn is_character_info(message: &DiscordMessage, embed: &Embed) -> (r: bool)
        ensures
            r == spec_embed_lookup(*message, *embed),
    {
        proof {
            reveal_strlit("");
            assert(""@ =~= Seq::<char>::empty());
        }
        if !(embed.author.is_some() && embed.description.is_some()) {
            return false;
        }
        let (has_claim, _) = Self::find_claim_button(&message.components);
        if has_claim {
            return false;
        }
        if Self::find_kakera_button(&message.components).is_some() {
            return false;
        }
        let description: &str = match &embed.description {
            Some(d) => d.as_str(),
            None => "",
        };
        if contains_str(description, "Belongs to") {
            return false;
        }
        let has_fields = match &embed.fields {
            Some(f) => f.len() > 0,
            None => false,
        };
        has_fields || description.unicode_len() > 0
    }

    /// Read a lookup result: name from the author or title, series from the
    /// first description line.
    pub fn parse_character_info(embed: &Embed) -> (r: MudaeMessage)
        ensures
            lookup_payload(*embed, r),
    {
        let name = match &embed.author {
            Some(a) => String::from_str(a.name.as_str()),
            None => match &embed.title {
                Some(t) => String::from_str(t.as_str()),
                None => String::new(),
            },
        };
        let series = match &embed.description {
            Some(d) => Self::extract_series(d.as_str()),
            None => String::new(),
        };
        MudaeMessage::CharacterInfo { name, series, exists: true }
    }

    /// Text that reports the remaining action budget.
    pub fn is_rolls_info(content: &str) -> (r: bool)
        ensures
            r == spec_is_rolls(content@),
    {
        contains_str(content, "rolls left") || (contains_str(content, "roll") && contains_str(
            content, "reset")) || contains_str(content, "roulette is limited")
    }

    /// Read a budget report: the remaining count and the reset hint.
    pub fn parse_rolls_info(content: &str) -> (r: MudaeMessage)
        ensures
            rolls_payload(content@, r),
    {
        if contains_str(content, "roulette is limited") {
            let reset_time = match find_num_pattern(content, "min", false, "left") {
                Some((start, end)) => match parse_digits(content, start, end, 0x7FFF_FFFF_FFFF_FFFF) {
                    Some(v) => {
                        let mut t = u64_to_string(v);
                        push_char(&mut t, 'm');
                        assert(t@ =~= dec_digits(v as nat) + seq!['m']);
                        Some(t)
                    },
                    None => None,
                },
                None => None,
            };
            return MudaeMessage::RollsRemaining { count: 0, reset_time };
        }
        let count: u32 = match find_num_pattern(content, "roll", true, "left") {
            Some((start, end)) => match parse_digits(content, start, end, 0xFFFF_FFFF) {
                Some(v) => v as u32,
                None => 0,
            },
            None => 0,
        };
        let reset_time = match find_reset_pattern(content, 'h') {
            Some((start, end)) => match parse_digits(content, start, end, 0x7FFF_FFFF_FFFF_FFFF) {
                Some(v) => {
                    let mut t = u64_to_string(v);
                    push_char(&mut t, 'h');
                    assert(t@ =~= dec_digits(v as nat) + seq!['h']);
                    Some(t)
                },
                None => None,
            },
            None => None,
        };
        let reset_time = if reset_time.is_some() {
            reset_time
        } else {
            match find_reset_pattern(content, 'm') {
                Some((start, end)) => match parse_digits(content, start, end, 0x7FFF_FFFF_FFFF_FFFF) {
                    Some(v) => {
                        let mut t = u64_to_string(v);
                        push_char(&mut t, 'm');
                        assert(t@ =~= dec_digits(v as nat) + seq!['m']);
                        Some(t)
                    },
                    None => None,
                },
                None => None,
            }
        };
        MudaeMessage::RollsRemaining { count, reset_time }
    }

    /// Text that reports the claim cooldown.
    pub fn is_claim_info(content: &str) -> (r: bool)
        ensures
            r == spec_is_claim_status(content@),
    {
        contains_str(content, "claim") && (contains_str(content, "available") || contains_str(
            content, "reset"))
    }

    /// Read a claim-cooldown report.
    pub fn parse_claim_info(content: &str) -> (r: MudaeMessage)
        ensures
            claim_payload(content@, r),
    {
        let available = contains_str(content, "can claim") || contains_str(
            content, "claim available");
        MudaeMessage::ClaimAvailable { available, reset_time: None }
    }

    /// The name an embed offers, straight from its author field.
    pub fn extract_character_name_from_embed(embed: &Embed) -> (r: Option<String>)
        ensures
            opt_str_view(r) == (match embed.author {
                Some(a) => Some(a.name@),
                None => None::<Seq<char>>,
            }),
    {
        match &embed.author {
            Some(a) => Some(String::from_str(a.name.as_str())),
            None => None,
        }
    }

    /// The series an embed offers: first description line, trimmed.
    pub fn extract_series_from_embed(embed: &Embed) -> (r: Option<String>)
        ensures
            opt_str_view(r) == (match embed.description {
                Some(d) => Some(trim_sp(first_line(d@))),
                None => None::<Seq<char>>,
            }),
    {
        match &embed.description {
            Some(d) => Some(Self::extract_series(d.as_str())),
            None => None,
        }
    }

    /// The reward value in a text, as `extract_kakera_value` reads it.
    pub fn extract_kakera(text: &str) -> (r: Option<u32>)
        ensures
            r == spec_kakera_value(text@),
    {
        Self::extract_kakera_value(text)
    }

    /// Classify a message: the ordered cascade, first matching rule wins,
    /// total with an `Unknown` fallback.
    pub fn parse(message: &DiscordMessage) -> (r: MudaeMessage)
        ensures
            classified(*message, r),
    {
        if message.embeds.len() > 0 {
            let embed = &message.embeds[0];
            if Self::is_character_info(message, embed) {
                return Self::parse_character_info(embed);
            }
            if Self::is_character_roll(embed) {
                return Self::parse_character_roll(message, embed);
            }
        }
        if Self::is_kakera_loot(message) {
            return Self::parse_kakera_loot(message);
        }
        if Self::is_rolls_info(message.content.as_str()) {
            return Self::parse_rolls_info(message.content.as_str());
        }
        if Self::is_claim_info(message.content.as_str()) {
            return Self::parse_claim_info(message.content.as_str());
        }
        MudaeMessage::Unknown
    }
}

} // verus!
