//! The decision engine: classified events in, outbound action plans and
//! state updates out. Whether to claim an offer is decided here — never the
//! sending itself, which the caller performs; a click plan always carries
//! the reaction fallback so a failed click is retried as a reaction.
use vstd::prelude::*;
use vstd::string::*;
use crate::config::Config;
use crate::message::{DiscordMessage, GatewayEvent};
use crate::parser::{
    author_name_view, belongs_marker, classified, desc_view, footer_kakera, opt_str_view,
    spec_find_claim, spec_find_kakera, spec_is_claim_status, spec_is_loot, spec_is_lookup,
    spec_is_offer, spec_is_rolls, MudaeMessage, MudaeParser, ParsedCharacter,
};
use crate::search::{build_search_result, LookupCoordinator, SearchResult};
use crate::stats::{bumped, ChannelActivity, ConnectionStatus, EventType, RollEntry, Stats};
use crate::text::{
    contains_seq, contains_str, digit_run_end, digits_val, first_line, lower_of, parse_digits,
    scan_digits, to_lowercase, trim_sp,
};
use crate::tracker::{random_delay, CooldownTracker};
use crate::utils::truncated;
use crate::utils::truncate_string;
use crate::wishlist::{first_wanted_from, WishlistManager};

verus! {

/// One outbound call for the chat client to perform.
#[derive(Debug, Clone)]
pub enum OutboundAction {
    SendText { channel_id: u64, text: String },
    AddReaction { channel_id: u64, message_id: u64, emoji: String },
    ClickButton { channel_id: u64, message_id: u64, button_id: String },
}

/// The engine's verdict on one character offer.
#[derive(Debug)]
pub enum OfferOutcome {
    /// Someone owns the character already: no outbound call at all.
    SkippedClaimed,
    /// Automation is paused: no outbound call.
    SkippedPaused,
    /// The global claim affordance is on cooldown: no outbound call.
    SkippedUnavailable,
    /// Nobody wants this character: no outbound call.
    NotPreferred,
    /// Claim it: wait the jittered delay, perform `primary`, and on failure
    /// perform `fallback` before giving up.
    Attempt { delay_ms: u64, primary: OutboundAction, fallback: Option<OutboundAction> },
}

/// A loot collection plan: wait, then perform the action once.
#[derive(Debug)]
pub struct LootPlan {
    pub delay_ms: u64,
    pub action: OutboundAction,
}

/// What handling one game-bot message asks of the caller.
#[derive(Debug)]
pub enum HandleOutcome {
    Offer(OfferOutcome),
    Loot(Option<LootPlan>),
    Lookup(Option<SearchResult>),
    Noted,
}

/// The offer is preferred: flagged in the embed, or matched by the store
/// when the store is consulted at all.
pub open spec fn spec_should_claim(
    wl: &WishlistManager,
    wishlist_enabled: bool,
    character: &ParsedCharacter,
) -> bool {
    character.is_wished || (wishlist_enabled && first_wanted_from(wl.entries(), lower_of(
        character.name@), Some(character.series@), wl.spec_fuzzy_enabled(), wl.spec_threshold(),
        0) is Some)
}

/// The offer cascade: ownership, pause, preference, claim cooldown — first
/// failing gate wins; a preferred offer yields a claim plan whose primary is
/// the button click when an action id exists, with the heart reaction as the
/// fallback, and the bare heart reaction otherwise.
pub open spec fn offer_decision_ok(
    is_claimed: bool,
    paused: bool,
    claim_available: bool,
    wanted: bool,
    button_id: Option<Seq<char>>,
    message_id: u64,
    channel_id: u64,
    r: OfferOutcome,
) -> bool {
    if is_claimed {
        r is SkippedClaimed
    } else if paused {
        r is SkippedPaused
    } else if !wanted {
        r is NotPreferred
    } else if !claim_available {
        r is SkippedUnavailable
    } else {
        r matches OfferOutcome::Attempt { delay_ms, primary, fallback }
            && 100 <= delay_ms < 600
            && (match button_id {
            Some(id) => primary matches OutboundAction::ClickButton {
                channel_id: c2,
                message_id: m2,
                button_id: b2,
            } && c2 == channel_id && m2 == message_id && b2@ == id && (
            fallback matches Some(OutboundAction::AddReaction {
                channel_id: c3,
                message_id: m3,
                emoji,
            }) && c3 == channel_id && m3 == message_id && emoji@ == "\u{1F496}"@),
            None => primary matches OutboundAction::AddReaction {
                channel_id: c2,
                message_id: m2,
                emoji,
            } && c2 == channel_id && m2 == message_id && emoji@ == "\u{1F496}"@
                && fallback is None,
        })
    }
}

/// The loot plan: none when collection is off; otherwise a short jittered
/// delay and one action — the button click when an action id exists, the
/// gem reaction otherwise.
pub open spec fn loot_plan_ok(
    enabled: bool,
    button_id: Option<Seq<char>>,
    message_id: u64,
    channel_id: u64,
    r: Option<LootPlan>,
) -> bool {
    if !enabled {
        r is None
    } else {
        r matches Some(plan) && 50 <= plan.delay_ms < 250 && (match button_id {
            Some(id) => plan.action matches OutboundAction::ClickButton {
                channel_id: c2,
                message_id: m2,
                button_id: b2,
            } && c2 == channel_id && m2 == message_id && b2@ == id,
            None => plan.action matches OutboundAction::AddReaction {
                channel_id: c2,
                message_id: m2,
                emoji,
            } && c2 == channel_id && m2 == message_id && emoji@ == "\u{1F48E}"@,
        })
    }
}

/// The five cumulative counters, bundled so a contract can say that an
/// operation leaves all of them alone.
pub open spec fn counters_of(s: Stats) -> (u64, u64, u64, u64, u64) {
    (
        s.characters_rolled,
        s.characters_claimed,
        s.wishlist_matches,
        s.kakera_collected,
        s.rolls_executed,
    )
}

/// A game-bot message: sent under the bot's id, or by an author whose
/// lowercased name holds the bot's name.
pub open spec fn spec_is_game_bot(msg: DiscordMessage) -> bool {
    msg.author.id == 432610292342587392u64 || contains_seq(lower_of(msg.author.username@),
        "mudae"@)
}

/// What noting a plain user message leaves behind: nothing for empty text or
/// the engine's own messages; otherwise one truncated channel-feed record and
/// no other change.
pub open spec fn user_note_ok(pre: MessageHandler, post: MessageHandler, msg: DiscordMessage) -> bool {
    &&& (msg.content@.len() == 0 || msg.author.id == pre.user_id ==> post == pre)
    &&& (msg.content@.len() > 0 && msg.author.id != pre.user_id ==> {
        &&& post.stats.channel_activity@.len() > 0
        &&& (post.stats.channel_activity@.last() matches ChannelActivity::UserMessage {
            username,
            content,
        } && username@ == msg.author.username@ && content@ == truncated(msg.content@, 50))
        &&& counters_of(post.stats) == counters_of(pre.stats)
        &&& post.config == pre.config
        &&& post.wishlist == pre.wishlist
        &&& post.tracker == pre.tracker
        &&& post.lookup == pre.lookup
        &&& post.user_id == pre.user_id
        &&& post.target_channels == pre.target_channels
    })
}

/// A reset hint of the form `Nh` or `Nm` as an absolute instant, saturating
/// at the top of the millisecond scale.
pub open spec fn reset_hint_instant(h: Seq<char>, now: u64) -> Option<u64> {
    let e = digit_run_end(h, 0);
    if 0 < e && e < h.len() && (h[e] == 'h' || h[e] == 'm') {
        let unit: nat = if h[e] == 'h' {
            3600000
        } else {
            60000
        };
        let sum = now + digits_val(h.take(e)) * unit;
        if sum > u64::MAX {
            Some(u64::MAX)
        } else {
            Some(sum as u64)
        }
    } else {
        None
    }
}

/// Read a reset hint (`4h`, `30m`) into an absolute millisecond instant.
pub fn parse_reset_hint(hint: &str, now: u64) -> (r: Option<u64>)
    ensures
        r == reset_hint_instant(hint@, now),
{
    let n = hint.unicode_len();
    let e = scan_digits(hint, 0);
    proof {
        crate::text::lemma_digit_run_end(hint@, 0);
    }
    if e == 0 || e >= n {
        return None;
    }
    let u = hint.get_char(e);
    if !(u == 'h' || u == 'm') {
        return None;
    }
    let unit: u64 = if u == 'h' {
        3600000
    } else {
        60000
    };
    proof {
        assert(hint@.take(e as int) =~= hint@.subrange(0, e as int));
    }
    let v = match parse_digits(hint, 0, e, u64::MAX) {
        Some(v) => v,
        None => {
            proof {
                assert(digits_val(hint@.take(e as int)) * unit >= digits_val(
                    hint@.take(e as int))) by (nonlinear_arith)
                    requires
                        unit >= 1,
                ;
            }
            return Some(u64::MAX);
        },
    };
    if v > u64::MAX / unit {
        proof {
            assert(v * unit > u64::MAX) by (nonlinear_arith)
                requires
                    v > u64::MAX / unit,
                    unit == 3600000 || unit == 60000,
            ;
        }
        return Some(u64::MAX);
    }
    proof {
        assert(v * unit <= u64::MAX) by (nonlinear_arith)
            requires
                v <= u64::MAX / unit,
                unit == 3600000 || unit == 60000,
        ;
    }
    let ms = v * unit;
    if now > u64::MAX - ms {
        Some(u64::MAX)
    } else {
        Some(now + ms)
    }
}

/// What handling one game-bot message guarantees, case by case along the
/// classification cascade: the returned outcome, the state each event kind
/// overwrites, and that everything else stays put.
pub open spec fn mudae_outcome_ok(
    pre: MessageHandler,
    post: MessageHandler,
    msg: DiscordMessage,
    now: u64,
    r: HandleOutcome,
) -> bool {
    &&& post.user_id == pre.user_id
    &&& post.target_channels == pre.target_channels
    &&& (spec_is_lookup(msg) ==> {
        &&& r matches HandleOutcome::Lookup(res) && {
            let e = msg.embeds@[0];
            &&& (res is Some <==> pre.lookup.spec_pending() == Some(msg.channel_id))
            &&& (res matches Some(sr) ==> sr.exists == true && sr.name@ == (match e.author {
                Some(a) => a.name@,
                None => match e.title {
                    Some(t) => t@,
                    None => Seq::<char>::empty(),
                },
            }) && sr.series@ == (match e.description {
                Some(d) => trim_sp(first_line(d@)),
                None => Seq::<char>::empty(),
            }) && opt_str_view(sr.image_url) == (match e.image {
                Some(im) => Some(im.url@),
                None => None::<Seq<char>>,
            }) && sr.kakera_value == footer_kakera(e))
        }
        &&& (pre.lookup.spec_pending() == Some(msg.channel_id) ==> post.lookup.spec_pending()
            is None)
        &&& (pre.lookup.spec_pending() != Some(msg.channel_id) ==> post.lookup.spec_pending()
            == pre.lookup.spec_pending())
        &&& post.tracker == pre.tracker
        &&& post.wishlist == pre.wishlist
        &&& post.config == pre.config
        &&& counters_of(post.stats) == counters_of(pre.stats)
    })
    &&& (!spec_is_lookup(msg) && spec_is_offer(msg) ==> {
        let e = msg.embeds@[0];
        &&& r matches HandleOutcome::Offer(oc) && offer_decision_ok(contains_seq(desc_view(e),
            belongs_marker()), pre.stats.paused, pre.tracker.spec_claim_available(),
            crate::parser::wished_in(desc_view(e)) || (pre.config.wishlist_enabled
            && first_wanted_from(pre.wishlist.entries(), lower_of(author_name_view(e)), Some(
            trim_sp(first_line(desc_view(e)))), pre.wishlist.spec_fuzzy_enabled(),
            pre.wishlist.spec_threshold(), 0) is Some), (match spec_find_claim(msg.components@) {
            Some(b) => opt_str_view(b.custom_id),
            None => None::<Seq<char>>,
        }), msg.id, msg.channel_id, oc)
        &&& post.stats.characters_rolled == bumped(pre.stats.characters_rolled)
        &&& post.stats.rolls_remaining == (if pre.stats.rolls_remaining > 0 {
            (pre.stats.rolls_remaining - 1) as u64
        } else {
            0u64
        })
        &&& post.stats.wishlist_matches == (if r matches HandleOutcome::Offer(oc2)
            && oc2 is Attempt {
            bumped(pre.stats.wishlist_matches)
        } else {
            pre.stats.wishlist_matches
        })
        &&& post.stats.characters_claimed == pre.stats.characters_claimed
        &&& post.stats.kakera_collected == pre.stats.kakera_collected
        &&& post.stats.rolls_executed == pre.stats.rolls_executed
        &&& post.tracker == pre.tracker
        &&& post.wishlist == pre.wishlist
        &&& post.config == pre.config
        &&& post.lookup == pre.lookup
    })
    &&& (!spec_is_lookup(msg) && !spec_is_offer(msg) && spec_is_loot(msg) ==> {
        &&& r matches HandleOutcome::Loot(plan) && loot_plan_ok(pre.config.auto_react_kakera, (
        match spec_find_kakera(msg.components@) {
            Some(b) => opt_str_view(b.custom_id),
            None => None::<Seq<char>>,
        }), msg.id, msg.channel_id, plan)
        &&& post.tracker == pre.tracker
        &&& post.wishlist == pre.wishlist
        &&& post.config == pre.config
        &&& post.lookup == pre.lookup
        &&& counters_of(post.stats) == counters_of(pre.stats)
    })
    &&& (!spec_is_lookup(msg) && !spec_is_offer(msg) && !spec_is_loot(msg) && spec_is_rolls(
        msg.content@) ==> {
        &&& r is Noted
        &&& post.tracker.spec_budget() == crate::parser::spec_rolls_count(msg.content@) as u64
        &&& post.stats.rolls_remaining == crate::parser::spec_rolls_count(msg.content@) as u64
        &&& post.stats.next_roll_reset == (match crate::parser::spec_rolls_reset(msg.content@) {
            Some(h) => reset_hint_instant(h, now),
            None => None::<u64>,
        })
        &&& post.tracker.spec_reset_hint() == post.stats.next_roll_reset
        &&& post.tracker.spec_cooldowns() == pre.tracker.spec_cooldowns()
        &&& post.stats.activity_log@.len() > 0
        &&& post.stats.activity_log@.last().event_type == EventType::Info
        &&& counters_of(post.stats) == counters_of(pre.stats)
        &&& post.wishlist == pre.wishlist
        &&& post.config == pre.config
        &&& post.lookup == pre.lookup
    })
    &&& (!spec_is_lookup(msg) && !spec_is_offer(msg) && !spec_is_loot(msg) && !spec_is_rolls(
        msg.content@) && spec_is_claim_status(msg.content@) ==> {
        &&& r is Noted
        &&& post.tracker.spec_claim_available() == (contains_seq(msg.content@, "can claim"@)
            || contains_seq(msg.content@, "claim available"@))
        &&& post.stats.claim_available == post.tracker.spec_claim_available()
        &&& post.tracker.spec_budget() == pre.tracker.spec_budget()
        &&& post.tracker.spec_cooldowns() == pre.tracker.spec_cooldowns()
        &&& post.stats.activity_log@.len() > 0
        &&& post.stats.activity_log@.last().event_type == EventType::Info
        &&& counters_of(post.stats) == counters_of(pre.stats)
        &&& post.wishlist == pre.wishlist
        &&& post.config == pre.config
        &&& post.lookup == pre.lookup
    })
    &&& (!spec_is_lookup(msg) && !spec_is_offer(msg) && !spec_is_loot(msg) && !spec_is_rolls(
        msg.content@) && !spec_is_claim_status(msg.content@) ==> {
        &&& (pre.lookup.spec_pending() == Some(msg.channel_id) && msg.embeds@.len() > 0
            && msg.embeds@[0].author is Some ==> {
            let e = msg.embeds@[0];
            &&& r matches HandleOutcome::Lookup(res) && res matches Some(sr) && sr.exists == true
                && sr.name@ == author_name_view(e) && sr.series@ == (match e.description {
                Some(d) => trim_sp(first_line(d@)),
                None => Seq::<char>::empty(),
            }) && opt_str_view(sr.image_url) == (match e.image {
                Some(im) => Some(im.url@),
                None => None::<Seq<char>>,
            }) && sr.kakera_value == footer_kakera(e)
            &&& post.lookup.spec_pending() is None
        })
        &&& (!(pre.lookup.spec_pending() == Some(msg.channel_id) && msg.embeds@.len() > 0
            && msg.embeds@[0].author is Some) ==> {
            &&& r is Noted
            &&& post.lookup.spec_pending() == pre.lookup.spec_pending()
        })
        &&& post.tracker == pre.tracker
        &&& post.wishlist == pre.wishlist
        &&& post.config == pre.config
        &&& counters_of(post.stats) == counters_of(pre.stats)
    })
}

/// What routing one message guarantees: an off-target channel leaves no
/// trace; a game-bot message carries the full per-event-kind contract; any
/// other message at most feeds the channel activity.
pub open spec fn routed_ok(
    pre: MessageHandler,
    post: MessageHandler,
    msg: DiscordMessage,
    now: u64,
    r: HandleOutcome,
) -> bool {
    let on_target = pre.target_channels@.len() == 0 || pre.target_channels@.contains(
        msg.channel_id);
    &&& (!on_target ==> post == pre && r is Noted)
    &&& (on_target && spec_is_game_bot(msg) ==> mudae_outcome_ok(pre, post, msg, now, r))
    &&& (on_target && !spec_is_game_bot(msg) ==> user_note_ok(pre, post, msg) && r is Noted)
}

/// Everything the inbound consumer drives: configuration, the preference
/// store, the cooldown and budget tracker, session statistics and the
/// lookup slot.
pub struct MessageHandler {
    pub config: Config,
    pub wishlist: WishlistManager,
    pub tracker: CooldownTracker,
    pub stats: Stats,
    pub lookup: LookupCoordinator,
    pub user_id: u64,
    pub target_channels: Vec<u64>,
}

impl MessageHandler {
    pub fn new(
        config: Config,
        wishlist: WishlistManager,
        tracker: CooldownTracker,
        stats: Stats,
        target_channels: Vec<u64>,
    ) -> (r: Self)
        ensures
            r.config == config,
            r.wishlist == wishlist,
            r.tracker == tracker,
            r.stats == stats,
            r.target_channels == target_channels,
            r.user_id == 0,
            r.lookup.spec_pending() is None,
    {
        Self {
            config,
            wishlist,
            tracker,
            stats,
            lookup: LookupCoordinator::new(),
            user_id: 0,
            target_channels,
        }
    }

    pub fn set_user_id(&mut self, user_id: u64)
        ensures
            *final(self) == (MessageHandler { user_id, ..*old(self) }),
    {
        self.user_id = user_id;
    }

    /// With no configured targets every channel counts; otherwise only the
    /// listed ones.
    pub fn is_target_channel(&self, channel_id: u64) -> (r: bool)
        ensures
            r == (self.target_channels@.len() == 0 || self.target_channels@.contains(channel_id)),
    {
        let n = self.target_channels.len();
        if n == 0 {
            return true;
        }
        let mut i: usize = 0;
        while i < n
            invariant
                0 <= i <= n,
                n == self.target_channels@.len(),
                forall|j: int| 0 <= j < i ==> self.target_channels@[j] != channel_id,
            decreases n - i,
        {
            if self.target_channels[i] == channel_id {
                return true;
            }
            i += 1;
        }
        assert(!self.target_channels@.contains(channel_id));
        false
    }

    /// A game-bot message: sent by the bot's id, or by an author whose name
    /// contains the bot's name.
    pub fn is_mudae_message(&self, message: &DiscordMessage) -> (r: bool)
        ensures
            r == spec_is_game_bot(*message),
    {
        if message.author.id == Config::mudae_bot_id() {
            return true;
        }
        let lowered = to_lowercase(message.author.username.as_str());
        contains_str(lowered.as_str(), "mudae")
    }

    /// Consult the embed flag first, then the preference store when it is
    /// enabled.
    pub fn should_claim_character(&self, character: &ParsedCharacter) -> (r: bool)
        ensures
            r == spec_should_claim(&self.wishlist, self.config.wishlist_enabled, character),
    {
        if character.is_wished {
            return true;
        }
        if self.config.wishlist_enabled {
            if self.wishlist.is_wished(character.name.as_str(), Some(
                character.series.as_str())).is_some() {
                return true;
            }
        }
        false
    }

    /// Decide one offer. An owned character, a paused engine, a cooling
    /// claim or an unwanted name never yields an outbound call; a wanted one
    /// yields exactly one claim plan.
    pub fn decide_character_roll(
        &self,
        character: &ParsedCharacter,
        message_id: u64,
        channel_id: u64,
        claim_button_id: &Option<String>,
    ) -> (r: OfferOutcome)
        ensures
            offer_decision_ok(character.is_claimed, self.stats.paused,
                self.tracker.spec_claim_available(), spec_should_claim(&self.wishlist,
                self.config.wishlist_enabled, character), opt_str_view(*claim_button_id),
                message_id, channel_id, r),
    {
        if character.is_claimed {
            return OfferOutcome::SkippedClaimed;
        }
        if self.stats.is_paused() {
            return OfferOutcome::SkippedPaused;
        }
        if !self.should_claim_character(character) {
            return OfferOutcome::NotPreferred;
        }
        if !self.tracker.is_claim_available() {
            return OfferOutcome::SkippedUnavailable;
        }
        let delay_ms = random_delay(100, 600);
        match claim_button_id {
            Some(id) => OfferOutcome::Attempt {
                delay_ms,
                primary: OutboundAction::ClickButton {
                    channel_id,
                    message_id,
                    button_id: String::from_str(id.as_str()),
                },
                fallback: Some(OutboundAction::AddReaction {
                    channel_id,
                    message_id,
                    emoji: String::from_str("\u{1F496}"),
                }),
            },
            None => OfferOutcome::Attempt {
                delay_ms,
                primary: OutboundAction::AddReaction {
                    channel_id,
                    message_id,
                    emoji: String::from_str("\u{1F496}"),
                },
                fallback: None,
            },
        }
    }

    /// Decide one loot offer: nothing when collection is off, else a short
    /// delay and one collection action.
    pub fn decide_kakera_loot(
        &self,
        message_id: u64,
        channel_id: u64,
        button_id: &Option<String>,
    ) -> (r: Option<LootPlan>)
        ensures
            loot_plan_ok(self.config.auto_react_kakera, opt_str_view(*button_id), message_id,
                channel_id, r),
    {
        if !self.config.auto_react_kakera {
            return None;
        }
        let delay_ms = random_delay(50, 250);
        match button_id {
            Some(id) => Some(LootPlan {
                delay_ms,
                action: OutboundAction::ClickButton {
                    channel_id,
                    message_id,
                    button_id: String::from_str(id.as_str()),
                },
            }),
            None => Some(LootPlan {
                delay_ms,
                action: OutboundAction::AddReaction {
                    channel_id,
                    message_id,
                    emoji: String::from_str("\u{1F48E}"),
                },
            }),
        }
    }

    /// Record the outcome of a claim attempt.
    pub fn record_claim_result(&mut self, success: bool, now: u64)
        ensures
            final(self).stats.characters_claimed == (if success {
                bumped(old(self).stats.characters_claimed)
            } else {
                old(self).stats.characters_claimed
            }),
            final(self).stats.activity_log@.len() > 0,
            final(self).stats.activity_log@.last().event_type == (if success {
                EventType::Claim
            } else {
                EventType::Error
            }),
            final(self).stats.characters_rolled == old(self).stats.characters_rolled,
            final(self).stats.wishlist_matches == old(self).stats.wishlist_matches,
            final(self).stats.kakera_collected == old(self).stats.kakera_collected,
            final(self).stats.rolls_executed == old(self).stats.rolls_executed,
            final(self).config == old(self).config,
            final(self).wishlist == old(self).wishlist,
            final(self).tracker == old(self).tracker,
            final(self).lookup == old(self).lookup,
    {
        if success {
            self.stats.increment_claimed();
            self.stats.log_event(EventType::Claim, String::from_str("Claim succeeded"), now);
        } else {
            self.stats.log_event(EventType::Error, String::from_str("Claim failed"), now);
        }
    }

    /// Record the outcome of a loot collection attempt.
    pub fn record_kakera_result(&mut self, success: bool, now: u64)
        ensures
            final(self).stats.kakera_collected == (if success {
                bumped(old(self).stats.kakera_collected)
            } else {
                old(self).stats.kakera_collected
            }),
            final(self).stats.activity_log@.len() > 0,
            final(self).stats.activity_log@.last().event_type == (if success {
                EventType::Success
            } else {
                EventType::Error
            }),
            final(self).stats.characters_rolled == old(self).stats.characters_rolled,
            final(self).stats.characters_claimed == old(self).stats.characters_claimed,
            final(self).stats.wishlist_matches == old(self).stats.wishlist_matches,
            final(self).stats.rolls_executed == old(self).stats.rolls_executed,
            final(self).config == old(self).config,
            final(self).wishlist == old(self).wishlist,
            final(self).tracker == old(self).tracker,
            final(self).lookup == old(self).lookup,
    {
        if success {
            self.stats.increment_kakera();
            self.stats.log_event(EventType::Success, String::from_str("Kakera collected"), now);
        } else {
            self.stats.log_event(EventType::Error, String::from_str("Kakera missed"), now);
        }
    }

    /// A budget report arrived: overwrite the local counter and hints
    /// authoritatively.
    pub fn apply_rolls_remaining(&mut self, count: u32, reset_time: &Option<String>, now: u64)
        ensures
            final(self).stats.rolls_remaining == count as u64,
            final(self).tracker.spec_budget() == count as u64,
            final(self).stats.next_roll_reset == (match *reset_time {
                Some(h) => reset_hint_instant(h@, now),
                None => None,
            }),
            final(self).tracker.spec_reset_hint() == final(self).stats.next_roll_reset,
            final(self).tracker.spec_cooldowns() == old(self).tracker.spec_cooldowns(),
            final(self).tracker.spec_claim_available() == old(self).tracker.spec_claim_available(),
            final(self).stats.activity_log@.len() > 0,
            final(self).stats.activity_log@.last().event_type == EventType::Info,
            counters_of(final(self).stats) == counters_of(old(self).stats),
            final(self).stats.paused == old(self).stats.paused,
            final(self).config == old(self).config,
            final(self).wishlist == old(self).wishlist,
            final(self).lookup == old(self).lookup,
            final(self).user_id == old(self).user_id,
            final(self).target_channels == old(self).target_channels,
    {
        self.stats.set_rolls_remaining(count as u64);
        let reset_instant = match reset_time {
            Some(h) => parse_reset_hint(h.as_str(), now),
            None => None,
        };
        self.stats.set_next_roll_reset(reset_instant);
        self.tracker.set_budget(count as u64);
        self.tracker.set_reset_hint(reset_instant);
        self.stats.log_event(EventType::Info, String::from_str("Budget report"), now);
    }

    /// A claim-cooldown report arrived: gate or free the engine's claims.
    pub fn apply_claim_status(&mut self, available: bool, now: u64)
        ensures
            final(self).tracker.spec_claim_available() == available,
            final(self).stats.claim_available == available,
            final(self).tracker.spec_cooldowns() == old(self).tracker.spec_cooldowns(),
            final(self).tracker.spec_budget() == old(self).tracker.spec_budget(),
            final(self).stats.activity_log@.len() > 0,
            final(self).stats.activity_log@.last().event_type == EventType::Info,
            counters_of(final(self).stats) == counters_of(old(self).stats),
            final(self).stats.paused == old(self).stats.paused,
            final(self).config == old(self).config,
            final(self).wishlist == old(self).wishlist,
            final(self).lookup == old(self).lookup,
            final(self).user_id == old(self).user_id,
            final(self).target_channels == old(self).target_channels,
    {
        self.tracker.set_claim_available(available);
        self.stats.set_claim_available(available);
        self.stats.log_event(EventType::Info, String::from_str("Claim status report"), now);
    }

    /// Note a plain user message in the channel feed, truncated for display;
    /// the engine's own messages and empty ones leave no trace.
    pub fn handle_user_message(&mut self, message: &DiscordMessage)
        ensures
            user_note_ok(*old(self), *final(self), *message),
    {
        if message.content.unicode_len() == 0 {
            return;
        }
        if message.author.id == self.user_id {
            return;
        }
        let content = truncate_string(message.content.as_str(), 50);
        let username = String::from_str(message.author.username.as_str());
        self.stats.add_channel_activity(ChannelActivity::UserMessage { username, content });
    }

    /// Record and decide one character offer: count the roll, spend local
    /// budget, remember the roll, and — when the offer survives every gate —
    /// count the preference match and hand back the claim plan.
    pub fn handle_character_roll(
        &mut self,
        character: &ParsedCharacter,
        message_id: u64,
        channel_id: u64,
        claim_button_id: &Option<String>,
        now: u64,
    ) -> (r: OfferOutcome)
        ensures
            offer_decision_ok(character.is_claimed, old(self).stats.paused,
                old(self).tracker.spec_claim_available(), spec_should_claim(&old(self).wishlist,
                old(self).config.wishlist_enabled, character), opt_str_view(*claim_button_id),
                message_id, channel_id, r),
            final(self).stats.characters_rolled == bumped(old(self).stats.characters_rolled),
            final(self).stats.rolls_remaining == (if old(self).stats.rolls_remaining > 0 {
                (old(self).stats.rolls_remaining - 1) as u64
            } else {
                0u64
            }),
            final(self).stats.wishlist_matches == (if r is Attempt {
                bumped(old(self).stats.wishlist_matches)
            } else {
                old(self).stats.wishlist_matches
            }),
            final(self).stats.roll_history@.len() > 0,
            (final(self).stats.roll_history@.last() matches RollEntry {
                timestamp,
                character_name,
                series,
                kakera_value,
                claimed,
                is_wished,
            } && timestamp == now && character_name@ == character.name@ && series@
                == character.series@ && kakera_value == character.kakera_value && claimed
                == character.is_claimed && is_wished == character.is_wished),
            final(self).stats.characters_claimed == old(self).stats.characters_claimed,
            final(self).stats.kakera_collected == old(self).stats.kakera_collected,
            final(self).stats.rolls_executed == old(self).stats.rolls_executed,
            final(self).stats.paused == old(self).stats.paused,
            final(self).stats.claim_available == old(self).stats.claim_available,
            final(self).tracker == old(self).tracker,
            final(self).wishlist == old(self).wishlist,
            final(self).config == old(self).config,
            final(self).lookup == old(self).lookup,
            final(self).user_id == old(self).user_id,
            final(self).target_channels == old(self).target_channels,
    {
        self.stats.increment_rolled();
        let current = self.stats.get_rolls_remaining();
        if current > 0 {
            self.stats.set_rolls_remaining(current - 1);
        }
        self.stats.add_channel_activity(ChannelActivity::Roll {
            character_name: String::from_str(character.name.as_str()),
            kakera_value: character.kakera_value,
            is_wished: character.is_wished,
            claimed: character.is_claimed,
        });
        self.stats.add_roll(RollEntry {
            timestamp: now,
            character_name: String::from_str(character.name.as_str()),
            series: String::from_str(character.series.as_str()),
            kakera_value: character.kakera_value,
            claimed: character.is_claimed,
            is_wished: character.is_wished,
        });
        let r = self.decide_character_roll(character, message_id, channel_id, claim_button_id);
        let attempt = match &r {
            OfferOutcome::Attempt { .. } => true,
            _ => false,
        };
        if attempt {
            self.stats.increment_wishlist_matches();
            self.stats.log_event(EventType::Wishlist, String::from_str("Preference match"), now);
        }
        r
    }

    /// Classify one game-bot message and act on it: the returned outcome
    /// carries whatever outbound work is the caller's to perform.
    #[verifier::rlimit(50)]
    pub fn handle_mudae_message(&mut self, message: &DiscordMessage, now: u64) -> (r: HandleOutcome)
        ensures
            mudae_outcome_ok(*old(self), *final(self), *message, now, r),
    {
        let parsed = MudaeParser::parse(message);
        match parsed {
            MudaeMessage::CharacterInfo { name, series, exists } => {
                let taken = self.lookup.on_result(message.channel_id);
                let res = if taken {
                    let image_url = if message.embeds.len() > 0 {
                        match &message.embeds[0].image {
                            Some(im) => Some(String::from_str(im.url.as_str())),
                            None => None,
                        }
                    } else {
                        None
                    };
                    let kakera_value = if message.embeds.len() > 0 {
                        match &message.embeds[0].footer {
                            Some(f) => MudaeParser::extract_kakera(f.text.as_str()),
                            None => None,
                        }
                    } else {
                        None
                    };
                    Some(build_search_result(name, series, image_url, kakera_value, exists))
                } else {
                    if exists {
                        let mut info = name;
                        info.append(" (");
                        info.append(series.as_str());
                        info.append(")");
                        self.stats.add_channel_activity(ChannelActivity::MudaeInfo {
                            message: info,
                        });
                    }
                    None
                };
                HandleOutcome::Lookup(res)
            },
            MudaeMessage::CharacterRoll {
                character,
                message_id,
                channel_id,
                has_claim_button: _,
                claim_button_id,
            } => {
                let oc = self.handle_character_roll(&character, message_id, channel_id,
                    &claim_button_id, now);
                HandleOutcome::Offer(oc)
            },
            MudaeMessage::KakeraLoot { message_id, channel_id, kakera_type: _, button_id } => {
                let plan = self.decide_kakera_loot(message_id, channel_id, &button_id);
                if plan.is_some() {
                    self.stats.log_event(EventType::Kakera, String::from_str("Kakera detected"),
                        now);
                }
                HandleOutcome::Loot(plan)
            },
            MudaeMessage::RollsRemaining { count, reset_time } => {
                self.apply_rolls_remaining(count, &reset_time, now);
                HandleOutcome::Noted
            },
            MudaeMessage::ClaimAvailable { available, reset_time: _ } => {
                self.apply_claim_status(available, now);
                HandleOutcome::Noted
            },
            MudaeMessage::DailyReady => {
                self.stats.log_event(EventType::Info, String::from_str("Daily commands ready"),
                    now);
                HandleOutcome::Noted
            },
            MudaeMessage::Unknown => {
                if message.embeds.len() > 0 && message.embeds[0].author.is_some() {
                    let taken = self.lookup.on_result(message.channel_id);
                    if taken {
                        let embed = &message.embeds[0];
                        let name = match &embed.author {
                            Some(a) => String::from_str(a.name.as_str()),
                            None => String::new(),
                        };
                        let series = match &embed.description {
                            Some(d) => MudaeParser::extract_series(d.as_str()),
                            None => String::new(),
                        };
                        let image_url = match &embed.image {
                            Some(im) => Some(String::from_str(im.url.as_str())),
                            None => None,
                        };
                        let kakera_value = match &embed.footer {
                            Some(f) => MudaeParser::extract_kakera(f.text.as_str()),
                            None => None,
                        };
                        return HandleOutcome::Lookup(Some(build_search_result(name, series,
                            image_url, kakera_value, true)));
                    }
                }
                self.note_unrecognized(message);
                HandleOutcome::Noted
            },
        }
    }

    /// A best-effort informational record for an unrecognized game-bot
    /// message: the embed author with its first description line, or the
    /// truncated plain text.
    fn note_unrecognized(&mut self, message: &DiscordMessage)
        ensures
            final(self).config == old(self).config,
            final(self).wishlist == old(self).wishlist,
            final(self).tracker == old(self).tracker,
            final(self).lookup == old(self).lookup,
            counters_of(final(self).stats) == counters_of(old(self).stats),
            final(self).user_id == old(self).user_id,
            final(self).target_channels == old(self).target_channels,
    {
        if message.embeds.len() > 0 {
            let embed = &message.embeds[0];
            match &embed.author {
                Some(a) => {
                    if a.name.unicode_len() > 0 {
                        let series = match &embed.description {
                            Some(d) => MudaeParser::extract_series(d.as_str()),
                            None => String::new(),
                        };
                        let mut info = String::from_str(a.name.as_str());
                        if series.as_str().unicode_len() > 0 {
                            info.append(" (");
                            info.append(series.as_str());
                            info.append(")");
                        }
                        self.stats.add_channel_activity(ChannelActivity::MudaeInfo {
                            message: info,
                        });
                    }
                },
                None => {
                    if message.content.unicode_len() > 0 {
                        let text = truncate_string(message.content.as_str(), 50);
                        self.stats.add_channel_activity(ChannelActivity::MudaeInfo {
                            message: text,
                        });
                    }
                },
            }
        } else if message.content.unicode_len() > 0 {
            let text = truncate_string(message.content.as_str(), 50);
            self.stats.add_channel_activity(ChannelActivity::MudaeInfo { message: text });
        }
    }

    /// Route one message: only target channels are read; the game bot's
    /// messages feed the engine, everything else only the channel feed.
    pub fn handle_message(&mut self, message: &DiscordMessage, now: u64) -> (r: HandleOutcome)
        ensures
            routed_ok(*old(self), *final(self), *message, now, r),
    {
        if !self.is_target_channel(message.channel_id) {
            return HandleOutcome::Noted;
        }
        if self.is_mudae_message(message) {
            self.handle_mudae_message(message, now)
        } else {
            self.handle_user_message(message);
            HandleOutcome::Noted
        }
    }

    /// Drive the engine from one gateway event.
    pub fn handle_event(&mut self, event: &GatewayEvent, now: u64) -> (r: HandleOutcome)
        ensures
            *event matches GatewayEvent::Ready { user_id, username, .. } ==> {
                &&& final(self).user_id == user_id
                &&& final(self).stats.user_id == user_id
                &&& (final(self).stats.username matches Some(u) && u@ == username@)
                &&& final(self).stats.connection_status == ConnectionStatus::Connected
                &&& final(self).stats.activity_log@.len() > 0
                &&& final(self).stats.activity_log@.last().event_type == EventType::Success
                &&& counters_of(final(self).stats) == counters_of(old(self).stats)
                &&& final(self).config == old(self).config
                &&& final(self).wishlist == old(self).wishlist
                &&& final(self).tracker == old(self).tracker
                &&& final(self).lookup == old(self).lookup
                &&& final(self).target_channels == old(self).target_channels
                &&& r is Noted
            },
            *event matches GatewayEvent::MessageCreate(m) ==> routed_ok(*old(self), *final(self),
                m, now, r),
            *event matches GatewayEvent::MessageUpdate(m) ==> routed_ok(*old(self), *final(self),
                m, now, r),
            *event matches GatewayEvent::ReactionAdd { .. } ==> *final(self) == *old(self)
                && r is Noted,
            *event matches GatewayEvent::Unknown(_) ==> *final(self) == *old(self) && r is Noted,
    {
        match event {
            GatewayEvent::Ready { user_id, username, session_id: _ } => {
                self.user_id = *user_id;
                self.stats.set_user_id(*user_id);
                self.stats.set_username(String::from_str(username.as_str()));
                self.stats.set_connection_status(crate::stats::ConnectionStatus::Connected);
                self.stats.log_event(EventType::Success, String::from_str("Connected"), now);
                HandleOutcome::Noted
            },
            GatewayEvent::MessageCreate(message) => self.handle_message(message, now),
            GatewayEvent::MessageUpdate(message) => self.handle_message(message, now),
            GatewayEvent::ReactionAdd { .. } => HandleOutcome::Noted,
            GatewayEvent::Unknown(_) => HandleOutcome::Noted,
        }
    }
}

} // verus!
