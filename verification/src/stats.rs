//! Session statistics and the activity feed: counters, connection state,
//! pause flag, budget mirror and bounded logs. Timestamps come in as
//! millisecond values.
use vstd::prelude::*;
use vstd::string::*;
use crate::text::{dec_digits, u64_to_string};
use crate::utils::{fmt_duration, format_duration};

verus! {

#[derive(Debug, Clone, Copy, PartialEq, Eq, Structural)]
pub enum EventType {
    Info,
    Success,
    Warning,
    Error,
    Roll,
    Claim,
    Kakera,
    Wishlist,
}

#[derive(Debug, Clone, Copy, PartialEq, Eq, Structural)]
pub enum ConnectionStatus {
    Disconnected,
    Connecting,
    Connected,
    Reconnecting,
}

#[derive(Debug, Clone)]
pub struct ActivityEvent {
    pub timestamp: u64,
    pub event_type: EventType,
    pub message: String,
}

#[derive(Debug, Clone)]
pub struct RollEntry {
    pub timestamp: u64,
    pub character_name: String,
    pub series: String,
    pub kakera_value: Option<u32>,
    pub claimed: bool,
    pub is_wished: bool,
}

#[derive(Debug, Clone)]
pub enum ChannelActivity {
    Roll { character_name: String, kakera_value: Option<u32>, is_wished: bool, claimed: bool },
    UserMessage { username: String, content: String },
    MudaeInfo { message: String },
}

#[derive(Debug, Clone, Default)]
pub struct SavedStats {
    pub characters_rolled: u64,
    pub characters_claimed: u64,
    pub wishlist_matches: u64,
    pub kakera_collected: u64,
    pub rolls_executed: u64,
    pub total_uptime_seconds: u64,
}

/// A counter bump that wraps at the top rather than failing.
pub open spec fn bumped(c: u64) -> u64 {
    if c == u64::MAX {
        0u64
    } else {
        (c + 1) as u64
    }
}

fn bump(c: u64) -> (r: u64)
    ensures
        r == bumped(c),
{
    if c == u64::MAX {
        0
    } else {
        c + 1
    }
}

/// Session statistics; the caps bound the activity feeds.
pub struct Stats {
    pub start_time: u64,
    pub characters_rolled: u64,
    pub characters_claimed: u64,
    pub wishlist_matches: u64,
    pub kakera_collected: u64,
    pub rolls_executed: u64,
    pub total_uptime_seconds: u64,
    pub connection_status: ConnectionStatus,
    pub claim_available: bool,
    pub rolls_remaining: u64,
    pub next_roll_reset: Option<u64>,
    pub activity_log: Vec<ActivityEvent>,
    pub roll_history: Vec<RollEntry>,
    pub channel_activity: Vec<ChannelActivity>,
    pub user_id: u64,
    pub username: Option<String>,
    pub paused: bool,
    pub max_log_entries: usize,
    pub max_channel_activity: usize,
}

impl Stats {
    /// Fresh statistics for a session starting at `start_time`.
    pub fn new(start_time: u64) -> (r: Self)
        ensures
            r.characters_rolled == 0,
            r.characters_claimed == 0,
            r.wishlist_matches == 0,
            r.kakera_collected == 0,
            r.rolls_executed == 0,
            r.total_uptime_seconds == 0,
            r.connection_status == ConnectionStatus::Disconnected,
            r.claim_available == true,
            r.rolls_remaining == 0,
            r.paused == false,
            r.start_time == start_time,
            r.activity_log@.len() == 0,
            r.roll_history@.len() == 0,
            r.channel_activity@.len() == 0,
            r.max_log_entries == 100,
            r.max_channel_activity == 50,
    {
        Self {
            start_time,
            characters_rolled: 0,
            characters_claimed: 0,
            wishlist_matches: 0,
            kakera_collected: 0,
            rolls_executed: 0,
            total_uptime_seconds: 0,
            connection_status: ConnectionStatus::Disconnected,
            claim_available: true,
            rolls_remaining: 0,
            next_roll_reset: None,
            activity_log: Vec::new(),
            roll_history: Vec::new(),
            channel_activity: Vec::new(),
            user_id: 0,
            username: None,
            paused: false,
            max_log_entries: 100,
            max_channel_activity: 50,
        }
    }

    /// Resume cumulative counters saved by an earlier session.
    pub fn from_saved(saved: &SavedStats, start_time: u64) -> (r: Self)
        ensures
            r.characters_rolled == saved.characters_rolled,
            r.characters_claimed == saved.characters_claimed,
            r.wishlist_matches == saved.wishlist_matches,
            r.kakera_collected == saved.kakera_collected,
            r.rolls_executed == saved.rolls_executed,
            r.total_uptime_seconds == saved.total_uptime_seconds,
            r.claim_available == true,
            r.rolls_remaining == 0,
            r.paused == false,
            r.start_time == start_time,
            r.activity_log@.len() == 0,
    {
        let mut r = Self::new(start_time);
        r.characters_rolled = saved.characters_rolled;
        r.characters_claimed = saved.characters_claimed;
        r.wishlist_matches = saved.wishlist_matches;
        r.kakera_collected = saved.kakera_collected;
        r.rolls_executed = saved.rolls_executed;
        r.total_uptime_seconds = saved.total_uptime_seconds;
        r
    }

    /// Cumulative uptime: past sessions plus this one, saturating.
    pub open spec fn spec_total_uptime(&self, now: u64) -> u64 {
        if self.total_uptime_seconds + self.spec_uptime_secs(now) <= u64::MAX {
            (self.total_uptime_seconds + self.spec_uptime_secs(now)) as u64
        } else {
            u64::MAX
        }
    }

    /// Whole seconds this session has run by `now`.
    pub open spec fn spec_uptime_secs(&self, now: u64) -> u64 {
        if now >= self.start_time {
            ((now - self.start_time) / 1000) as u64
        } else {
            0u64
        }
    }

    pub fn uptime_secs(&self, now: u64) -> (r: u64)
        ensures
            r == self.spec_uptime_secs(now),
    {
        if now >= self.start_time {
            (now - self.start_time) / 1000
        } else {
            0
        }
    }

    /// Cumulative uptime: past sessions plus this one, saturating.
    pub fn get_total_uptime_seconds(&self, now: u64) -> (r: u64)
        ensures
            r == self.spec_total_uptime(now),
    {
        let session = self.uptime_secs(now);
        if session <= u64::MAX - self.total_uptime_seconds {
            self.total_uptime_seconds + session
        } else {
            u64::MAX
        }
    }

    /// The counters as they are persisted across sessions.
    pub fn to_saved(&self, now: u64) -> (r: SavedStats)
        ensures
            r.characters_rolled == self.characters_rolled,
            r.characters_claimed == self.characters_claimed,
            r.wishlist_matches == self.wishlist_matches,
            r.kakera_collected == self.kakera_collected,
            r.rolls_executed == self.rolls_executed,
            r.total_uptime_seconds == self.spec_total_uptime(now),
    {
        SavedStats {
            characters_rolled: self.characters_rolled,
            characters_claimed: self.characters_claimed,
            wishlist_matches: self.wishlist_matches,
            kakera_collected: self.kakera_collected,
            rolls_executed: self.rolls_executed,
            total_uptime_seconds: self.get_total_uptime_seconds(now),
        }
    }

    pub fn increment_rolled(&mut self)
        ensures
            *final(self) == (Stats { characters_rolled: bumped(old(self).characters_rolled),
                ..*old(self) }),
    {
        self.characters_rolled = bump(self.characters_rolled);
    }

    pub fn increment_claimed(&mut self)
        ensures
            *final(self) == (Stats { characters_claimed: bumped(old(self).characters_claimed),
                ..*old(self) }),
    {
        self.characters_claimed = bump(self.characters_claimed);
    }

    pub fn increment_wishlist_matches(&mut self)
        ensures
            *final(self) == (Stats { wishlist_matches: bumped(old(self).wishlist_matches),
                ..*old(self) }),
    {
        self.wishlist_matches = bump(self.wishlist_matches);
    }

    pub fn increment_kakera(&mut self)
        ensures
            *final(self) == (Stats { kakera_collected: bumped(old(self).kakera_collected),
                ..*old(self) }),
    {
        self.kakera_collected = bump(self.kakera_collected);
    }

    pub fn increment_rolls_executed(&mut self)
        ensures
            *final(self) == (Stats { rolls_executed: bumped(old(self).rolls_executed),
                ..*old(self) }),
    {
        self.rolls_executed = bump(self.rolls_executed);
    }

    pub fn get_rolled(&self) -> (r: u64)
        ensures
            r == self.characters_rolled,
    {
        self.characters_rolled
    }

    pub fn get_claimed(&self) -> (r: u64)
        ensures
            r == self.characters_claimed,
    {
        self.characters_claimed
    }

    pub fn get_wishlist_matches(&self) -> (r: u64)
        ensures
            r == self.wishlist_matches,
    {
        self.wishlist_matches
    }

    pub fn get_kakera(&self) -> (r: u64)
        ensures
            r == self.kakera_collected,
    {
        self.kakera_collected
    }

    pub fn get_rolls_executed(&self) -> (r: u64)
        ensures
            r == self.rolls_executed,
    {
        self.rolls_executed
    }

    pub fn set_connection_status(&mut self, status: ConnectionStatus)
        ensures
            *final(self) == (Stats { connection_status: status, ..*old(self) }),
    {
        self.connection_status = status;
    }

    pub fn get_connection_status(&self) -> (r: ConnectionStatus)
        ensures
            r == self.connection_status,
    {
        self.connection_status
    }

    pub fn set_claim_available(&mut self, available: bool)
        ensures
            *final(self) == (Stats { claim_available: available, ..*old(self) }),
    {
        self.claim_available = available;
    }

    pub fn is_claim_available(&self) -> (r: bool)
        ensures
            r == self.claim_available,
    {
        self.claim_available
    }

    pub fn set_rolls_remaining(&mut self, count: u64)
        ensures
            *final(self) == (Stats { rolls_remaining: count, ..*old(self) }),
    {
        self.rolls_remaining = count;
    }

    pub fn get_rolls_remaining(&self) -> (r: u64)
        ensures
            r == self.rolls_remaining,
    {
        self.rolls_remaining
    }

    pub fn set_next_roll_reset(&mut self, reset_time: Option<u64>)
        ensures
            *final(self) == (Stats { next_roll_reset: reset_time, ..*old(self) }),
    {
        self.next_roll_reset = reset_time;
    }

    pub fn get_next_roll_reset(&self) -> (r: Option<u64>)
        ensures
            r == self.next_roll_reset,
    {
        self.next_roll_reset
    }

    /// The wait until the budget resets, as text: `Unknown` without a hint,
    /// `Available` once the hinted instant has passed.
    pub fn format_time_until_roll_reset(&self, now: u64) -> (r: String)
        ensures
            r@ == (match self.next_roll_reset {
                Some(reset) => if reset > now {
                    fmt_duration((((reset - now) / 1000) as u64))
                } else {
                    "Available"@
                },
                None => "Unknown"@,
            }),
    {
        match self.next_roll_reset {
            Some(reset) => {
                if reset > now {
                    format_duration((reset - now) / 1000)
                } else {
                    String::from_str("Available")
                }
            },
            None => String::from_str("Unknown"),
        }
    }

    pub fn set_user_id(&mut self, id: u64)
        ensures
            *final(self) == (Stats { user_id: id, ..*old(self) }),
    {
        self.user_id = id;
    }

    pub fn get_user_id(&self) -> (r: u64)
        ensures
            r == self.user_id,
    {
        self.user_id
    }

    pub fn set_username(&mut self, name: String)
        ensures
            *final(self) == (Stats { username: Some(name), ..*old(self) }),
    {
        self.username = Some(name);
    }

    pub fn get_username(&self) -> (r: &Option<String>)
        ensures
            r == self.username,
    {
        &self.username
    }

    pub fn is_paused(&self) -> (r: bool)
        ensures
            r == self.paused,
    {
        self.paused
    }

    pub fn set_paused(&mut self, paused: bool)
        ensures
            *final(self) == (Stats { paused, ..*old(self) }),
    {
        self.paused = paused;
    }

    /// Flip the pause flag; the new state comes back.
    pub fn toggle_paused(&mut self) -> (r: bool)
        ensures
            *final(self) == (Stats { paused: !old(self).paused, ..*old(self) }),
            r == !old(self).paused,
    {
        self.paused = !self.paused;
        self.paused
    }

    /// Append to the activity log, dropping the oldest entry at the cap.
    pub fn log_event(&mut self, event_type: EventType, message: String, now: u64)
        ensures
            final(self).activity_log@.len() <= old(self).activity_log@.len() + 1,
            final(self).activity_log@.len() > 0,
            final(self).activity_log@.last().event_type == event_type,
            final(self).activity_log@.last().message@ == message@,
            final(self).activity_log@.last().timestamp == now,
            old(self).activity_log@.len() < old(self).max_log_entries ==> final(
                self).activity_log@.drop_last() == old(self).activity_log@,
            *final(self) == (Stats { activity_log: final(self).activity_log, ..*old(self) }),
    {
        let event = ActivityEvent { timestamp: now, event_type, message };
        if self.activity_log.len() >= self.max_log_entries && self.activity_log.len() > 0 {
            let dropped = self.activity_log.remove(0);
        }
        self.activity_log.push(event);
        proof {
            assert(final(self).activity_log@.last() == event);
            if old(self).activity_log@.len() < old(self).max_log_entries {
                assert(final(self).activity_log@.drop_last() =~= old(self).activity_log@);
            }
        }
    }

    /// Append to the roll history, capped at fifty entries.
    pub fn add_roll(&mut self, entry: RollEntry)
        ensures
            final(self).roll_history@.len() <= old(self).roll_history@.len() + 1,
            final(self).roll_history@.len() > 0,
            final(self).roll_history@.last() == entry,
            old(self).roll_history@.len() < 50 ==> final(self).roll_history@.drop_last() == old(
                self).roll_history@,
            *final(self) == (Stats { roll_history: final(self).roll_history, ..*old(self) }),
    {
        if self.roll_history.len() >= 50 {
            let dropped = self.roll_history.remove(0);
        }
        self.roll_history.push(entry);
        proof {
            if old(self).roll_history@.len() < 50 {
                assert(final(self).roll_history@.drop_last() =~= old(self).roll_history@);
            }
        }
    }

    /// Append to the channel feed, dropping the oldest entry at the cap.
    pub fn add_channel_activity(&mut self, activity: ChannelActivity)
        ensures
            final(self).channel_activity@.len() <= old(self).channel_activity@.len() + 1,
            final(self).channel_activity@.len() > 0,
            final(self).channel_activity@.last() == activity,
            old(self).channel_activity@.len() < old(self).max_channel_activity ==> final(
                self).channel_activity@.drop_last() == old(self).channel_activity@,
            *final(self) == (Stats { channel_activity: final(self).channel_activity, ..*old(self) }),
    {
        if self.channel_activity.len() >= self.max_channel_activity
            && self.channel_activity.len() > 0 {
            let dropped = self.channel_activity.remove(0);
        }
        self.channel_activity.push(activity);
        proof {
            if old(self).channel_activity@.len() < old(self).max_channel_activity {
                assert(final(self).channel_activity@.drop_last() =~= old(self).channel_activity@);
            }
        }
    }

    pub fn get_activity_log(&self) -> (r: &Vec<ActivityEvent>)
        ensures
            r == self.activity_log,
    {
        &self.activity_log
    }

    pub fn get_roll_history(&self) -> (r: &Vec<RollEntry>)
        ensures
            r == self.roll_history,
    {
        &self.roll_history
    }

    pub fn get_channel_activity(&self) -> (r: &Vec<ChannelActivity>)
        ensures
            r == self.channel_activity,
    {
        &self.channel_activity
    }

    /// Zero-padded two-digit rendering for clock-style output.
    pub fn format_uptime(&self, now: u64) -> (r: String)
        ensures
            r@ == clock_text(self.spec_uptime_secs(now)),
    {
        clock_of_seconds(self.uptime_secs(now))
    }

    pub fn format_total_uptime(&self, now: u64) -> (r: String)
        ensures
            r@ == clock_text(self.spec_total_uptime(now)),
    {
        let total = self.get_total_uptime_seconds(now);
        clock_of_seconds(total)
    }
}

/// A number with at least two digits: a leading zero below ten.
pub open spec fn pad2(n: nat) -> Seq<char> {
    if n < 10 {
        seq!['0'] + dec_digits(n)
    } else {
        dec_digits(n)
    }
}

/// `HH:MM:SS` with each part zero-padded to two digits.
pub open spec fn clock_text(total_secs: u64) -> Seq<char> {
    let h = total_secs as nat / 3600;
    let m = (total_secs as nat % 3600) / 60;
    let s = total_secs as nat % 60;
    pad2(h) + seq![':'] + pad2(m) + seq![':'] + pad2(s)
}

fn pad2_exec(n: u64) -> (r: String)
    ensures
        r@ == pad2(n as nat),
{
    proof {
        reveal_strlit("0");
        assert("0"@ =~= seq!['0']);
    }
    if n < 10 {
        let mut r = String::from_str("0");
        let d = u64_to_string(n);
        r.append(d.as_str());
        r
    } else {
        u64_to_string(n)
    }
}

/// Render seconds as a zero-padded clock.
pub fn clock_of_seconds(total_secs: u64) -> (r: String)
    ensures
        r@ == clock_text(total_secs),
{
    proof {
        reveal_strlit(":");
        assert(":"@ =~= seq![':']);
    }
    let mut r = pad2_exec(total_secs / 3600);
    r.append(":");
    let m = pad2_exec((total_secs % 3600) / 60);
    r.append(m.as_str());
    r.append(":");
    let s = pad2_exec(total_secs % 60);
    r.append(s.as_str());
    r
}

} // verus!
