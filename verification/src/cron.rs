//! The crawl scheduler: a two-phase state machine. Freshly started it is
//! warming up, and fires once after a fixed short delay; after any fire it
//! is steady, and fires on the configured period. Each fire issues one root
//! page-one search request; overlapping fires are not suppressed.

pub mod fetch_profiles;

use vstd::prelude::*;
use crate::config::AppConfig;

verus! {

/// The two phases of the crawl schedule.
pub enum SchedulerPhase {
    /// Freshly started: one fire is due after the warm-up delay.
    WarmingUp,
    /// Fired at least once: fires follow the configured period.
    Steady,
}

/// How long the warm-up phase waits before the first fire.
pub open spec fn spec_warmup_delay_secs() -> u64 {
    5
}

/// The crawl schedule's state.
pub struct Scheduler {
    pub phase: SchedulerPhase,
}

impl Scheduler {
    /// A freshly started schedule: warming up.
    pub fn new() -> (r: Scheduler)
        ensures
            r.phase is WarmingUp,
    {
        Scheduler { phase: SchedulerPhase::WarmingUp }
    }

    /// How long to wait before the next fire: the warm-up delay once, the
    /// configured period thereafter.
    pub fn next_fire_delay_secs(&self, config: &AppConfig) -> (r: u64)
        ensures
            r == match self.phase {
                SchedulerPhase::WarmingUp => spec_warmup_delay_secs(),
                SchedulerPhase::Steady => config.cron.fetch_profiles.seconds,
            },
    {
        match self.phase {
            SchedulerPhase::WarmingUp => 5,
            SchedulerPhase::Steady => config.cron.fetch_profiles.seconds,
        }
    }

    /// One fire happened: the schedule is steady from here on, whatever
    /// phase it was in.
    pub fn fired(&mut self)
        ensures
            final(self).phase is Steady,
    {
        self.phase = SchedulerPhase::Steady;
    }
}

} // verus!
