//! When a library's statistics are brought up to date: on a timer, for as
//! long as somebody has asked for them lately.

use vstd::prelude::*;

verus! {

/// For how long after the last request the statistics are kept up to date,
/// in milliseconds.
pub const FIVE_MINUTES: u64 = 300000;

/// How far apart two requests must lie for the later one to count as a new
/// request, in milliseconds.
pub const TWO_MINUTES: u64 = 120000;

/// What wakes the updater.
#[derive(Debug, Clone, Copy, PartialEq, Eq, Structural)]
pub enum Message {
    /// The timer has ticked, at this time.
    Tick(u64),
    /// The statistics were asked for, at this time.
    Requested(u64),
}

/// What the updater does on a message.
#[derive(Debug, Clone, Copy, PartialEq, Eq, Structural)]
pub enum UpdaterAction {
    /// Nothing.
    Nothing,
    /// Compute the statistics anew and tell those who show them.
    Update,
}

/// The time from `earlier` to `later`, zero where `later` is not later.
pub open spec fn elapsed(earlier: u64, later: u64) -> int {
    if later >= earlier {
        later - earlier
    } else {
        0
    }
}

/// The updater of one library's statistics. Times are milliseconds on a
/// clock that does not go back.
#[derive(Debug, Clone, Copy, PartialEq, Eq, Structural)]
pub struct StatisticsUpdater {
    /// When the statistics were last asked for.
    pub last_received_at: u64,
}

impl StatisticsUpdater {
    /// An updater that starts at `now`, as if asked then.
    pub fn new(now: u64) -> (updater: Self)
        ensures
            updater.last_received_at == now,
    {
        StatisticsUpdater { last_received_at: now }
    }

    /// Takes one message. A tick leads to an update while the last request
    /// is less than five minutes old. A request moves the time of the last
    /// request only where it comes more than two minutes after it.
    pub fn on(&mut self, message: Message) -> (action: UpdaterAction)
        ensures
            match message {
                Message::Tick(now) => {
                    &&& final(self).last_received_at == old(self).last_received_at
                    &&& action == if elapsed(old(self).last_received_at, now) < FIVE_MINUTES {
                        UpdaterAction::Update
                    } else {
                        UpdaterAction::Nothing
                    }
                },
                Message::Requested(instant) => {
                    &&& action == UpdaterAction::Nothing
                    &&& final(self).last_received_at == if elapsed(
                        old(self).last_received_at,
                        instant,
                    ) > TWO_MINUTES {
                        instant
                    } else {
                        old(self).last_received_at
                    }
                },
            },
    {
        match message {
            Message::Tick(now) => {
                if now.saturating_sub(self.last_received_at) < FIVE_MINUTES {
                    UpdaterAction::Update
                } else {
                    UpdaterAction::Nothing
                }
            },
            Message::Requested(instant) => {
                if instant.saturating_sub(self.last_received_at) > TWO_MINUTES {
                    self.last_received_at = instant;
                }
                UpdaterAction::Nothing
            },
        }
    }
}

} // verus!
