//! Decisions of the periodic control loop: whether this cycle sends the
//! primary command, waits out a cooldown or an empty budget, or idles; and
//! when the once-a-day command pair is due. The loop itself — sleeping and
//! sending — is the caller's.
use vstd::prelude::*;
use vstd::string::*;
use crate::config::Config;
use crate::tracker::CooldownTracker;
use crate::utils::parse_time_spec;
use crate::utils::parse_time;

verus! {

/// What one cycle of the loop does for one channel.
#[derive(Debug)]
pub enum SchedulerStep {
    /// Automation is off or paused: sleep briefly and look again.
    Idle { sleep_ms: u64 },
    /// The budget is spent: sleep longer; budget reports unblock the loop.
    OutOfBudget { sleep_ms: u64 },
    /// The primary command is still cooling: wait for it.
    OnCooldown { sleep_ms: u64 },
    /// No command is configured at all.
    NoCommand { sleep_ms: u64 },
    /// Send the command, mark its cooldown, spend one budget unit, then
    /// sleep briefly.
    Send { command: String, sleep_ms: u64 },
}

/// The cycle's rule: pause and budget gate everything; the first configured
/// command is the one sent, and only once its cooldown has passed.
pub open spec fn sched_decision(
    auto_roll: bool,
    paused: bool,
    budget: u64,
    first_cmd: Option<Seq<char>>,
    first_ready: bool,
    r: SchedulerStep,
) -> bool {
    if !auto_roll || paused {
        r matches SchedulerStep::Idle { sleep_ms } && sleep_ms == 5000
    } else if budget == 0 {
        r matches SchedulerStep::OutOfBudget { sleep_ms } && sleep_ms == 10000
    } else {
        match first_cmd {
            None => r matches SchedulerStep::NoCommand { sleep_ms } && sleep_ms == 5000,
            Some(c) => if first_ready {
                r matches SchedulerStep::Send { command, sleep_ms } && command@ == c && sleep_ms
                    == 1000
            } else {
                r matches SchedulerStep::OnCooldown { sleep_ms } && sleep_ms == 1000
            },
        }
    }
}

/// Decide one cycle for one channel at time `now`.
pub fn scheduler_step(config: &Config, tracker: &CooldownTracker, paused: bool, now: u64) -> (r:
    SchedulerStep)
    ensures
        sched_decision(config.auto_roll, paused, tracker.spec_budget(), (
            if config.roll_commands@.len() > 0 {
            Some(config.roll_commands@[0]@)
        } else {
            None
        }), config.roll_commands@.len() > 0 && tracker.spec_cooldowns().spec_ready(
            config.roll_commands@[0]@, now), r),
{
    if !config.auto_roll || paused {
        return SchedulerStep::Idle { sleep_ms: 5000 };
    }
    if tracker.budget() == 0 {
        return SchedulerStep::OutOfBudget { sleep_ms: 10000 };
    }
    if config.roll_commands.len() == 0 {
        return SchedulerStep::NoCommand { sleep_ms: 5000 };
    }
    let first = &config.roll_commands[0];
    if tracker.cooldown_ready(first.as_str(), now) {
        SchedulerStep::Send { command: String::from_str(first.as_str()), sleep_ms: 1000 }
    } else {
        SchedulerStep::OnCooldown { sleep_ms: 1000 }
    }
}

/// Account for a sent command: its cooldown starts and one budget unit is
/// spent.
pub fn note_roll_sent(tracker: &mut CooldownTracker, command: &str, now: u64)
    ensures
        final(tracker).spec_cooldowns().spec_get(command@) == Some(now),
        final(tracker).spec_budget() == (if old(tracker).spec_budget() > 0 {
            (old(tracker).spec_budget() - 1) as u64
        } else {
            0u64
        }),
        final(tracker).spec_claim_available() == old(tracker).spec_claim_available(),
        final(tracker).spec_reset_hint() == old(tracker).spec_reset_hint(),
{
    tracker.mark_used(command, now);
    tracker.decrement_budget();
}

/// The scheduled time of day in minutes; an unreadable setting means
/// midnight.
pub open spec fn schedule_minutes(daily_time: Seq<char>) -> u32 {
    match parse_time_spec(daily_time) {
        Some((h, m)) => (h * 60 + m) as u32,
        None => 0,
    }
}

pub fn parse_schedule_minutes(daily_time: &str) -> (r: u32)
    ensures
        r == schedule_minutes(daily_time@),
{
    match parse_time(daily_time) {
        Some((h, m)) => h * 60 + m,
        None => 0,
    }
}

/// The daily pair is due: never run before, or last run on an earlier local
/// calendar day with the scheduled time of day already passed.
pub open spec fn daily_due(
    last_daily_day: Option<u64>,
    today: u64,
    minutes_now: u32,
    scheduled_minutes: u32,
) -> bool {
    match last_daily_day {
        None => true,
        Some(d) => d != today && minutes_now >= scheduled_minutes,
    }
}

pub fn should_run_daily(
    last_daily_day: Option<u64>,
    today: u64,
    minutes_now: u32,
    scheduled_minutes: u32,
) -> (r: bool)
    ensures
        r == daily_due(last_daily_day, today, minutes_now, scheduled_minutes),
{
    match last_daily_day {
        None => true,
        Some(d) => d != today && minutes_now >= scheduled_minutes,
    }
}

/// The once-a-day command pair, in sending order.
pub fn daily_commands() -> (r: Vec<String>)
    ensures
        r@.len() == 2,
        r@[0]@ == "$daily"@,
        r@[1]@ == "$dk"@,
{
    let mut r: Vec<String> = Vec::new();
    r.push(String::from_str("$daily"));
    r.push(String::from_str("$dk"));
    r
}

/// The command that asks the game bot for a budget report.
pub fn check_rolls_command() -> (r: &'static str)
    ensures
        r@ == "$ru"@,
{
    "$ru"
}

/// The command that asks the game bot for a claim-cooldown report.
pub fn check_claim_command() -> (r: &'static str)
    ensures
        r@ == "$tu"@,
{
    "$tu"
}

} // verus!
