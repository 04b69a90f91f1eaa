//! When a wait ends.
//!
//! The wait itself neither sleeps nor listens: it is told what happened and when,
//! and says whether to go on or what to report. Times are nanoseconds since the
//! wait began.

use crate::report::WaitReason;
use vstd::prelude::*;

verus! {

/// How long a wait lasts that names no time.
pub const DEFAULT_WAIT: u64 = 600_000_000_000;

/// The longest wait.
pub const MAX_WAIT: u64 = 1_800_000_000_000;

/// The shortest wait.
pub const MIN_WAIT: u64 = 100_000_000;

/// A child's final message and its status arrive as separate events a moment
/// apart; reporting them as one wake saves the parent a second call.
pub const COALESCE: u64 = 750_000_000;

/// With no child at work nothing is going to end a wait. It lingers briefly for a
/// child that was just assigned work, and then says so instead of blocking.
pub const IDLE_GRACE: u64 = 5_000_000_000;

/// Reports that bypass the activity stream are still noticed within this bound.
pub const RECHECK: u64 = 5_000_000_000;

/// A wait that goes on.
#[derive(Debug, Clone, Copy, PartialEq, Eq, Structural)]
pub struct Waiting {
    /// When the wait is over.
    pub deadline: u64,
    /// When the wait is next looked at.
    pub until: u64,
    /// When what was noticed is reported.
    pub settle_at: Option<u64>,
    /// Whether root messages can still wake the wait.
    pub wakes_open: bool,
}

/// What is the case when something happens.
#[derive(Debug, Clone, Copy, PartialEq, Eq, Structural)]
pub struct WaitFacts {
    /// Whether there is something that the parent has not been shown.
    pub unseen: bool,
    /// Whether a child is at work.
    pub working: bool,
}

/// What happened.
#[derive(Debug, Clone, Copy, PartialEq, Eq, Structural)]
pub enum WaitEvent {
    /// The call was abandoned, with or without input that was not reported yet.
    Cancelled { input: bool },
    /// Input came in that was not reported yet.
    InputArrived,
    /// A root message came in.
    Woken,
    /// Root messages were missed.
    WakesLagged,
    /// No root message can come any more.
    WakesClosed,
    /// A child did something, which may or may not be news.
    Activity { news: bool },
    /// Activity was missed.
    ActivityLagged,
    /// The activity stream ended.
    ActivityClosed,
    /// It is time to look again.
    Recheck,
    /// The time that was set is over.
    Elapsed,
}

/// What a wait does next.
#[derive(Debug, Clone, Copy, PartialEq, Eq, Structural)]
pub enum WaitStep {
    Continue,
    Report { reason: WaitReason },
    /// The activity stream closed under the wait.
    Fail,
}

/// A time within bounds.
pub open spec fn clamped(timeout: u64) -> u64 {
    if timeout < MIN_WAIT {
        MIN_WAIT
    } else if timeout > MAX_WAIT {
        MAX_WAIT
    } else {
        timeout
    }
}

/// The wait that begins, and whether it is over at once.
pub open spec fn begun(
    timeout: u64,
    is_root: bool,
    facts: WaitFacts,
    input: bool,
) -> (Waiting, WaitStep) {
    let deadline = clamped(timeout);
    let waiting = Waiting {
        deadline,
        until: if !facts.working && deadline > IDLE_GRACE {
            IDLE_GRACE
        } else {
            deadline
        },
        settle_at: None,
        wakes_open: is_root,
    };
    if facts.unseen {
        (waiting, WaitStep::Report { reason: WaitReason::ChildUpdate })
    } else if input {
        (waiting, WaitStep::Report { reason: WaitReason::InputPending })
    } else {
        (waiting, WaitStep::Continue)
    }
}

/// Whether something that happened is a reason to look at the children.
pub open spec fn calls_for_check(event: WaitEvent) -> bool {
    match event {
        WaitEvent::Woken | WaitEvent::WakesLagged | WaitEvent::ActivityLagged | WaitEvent::Recheck =>
            true,
        WaitEvent::Activity { news } => news,
        _ => false,
    }
}

/// The wait after the time that was set is over. What was noticed can vanish
/// again while it is collected, and is then not reported: an empty result would
/// read as a dropped message.
pub open spec fn after_elapsed(waiting: Waiting, facts: WaitFacts) -> (Waiting, WaitStep) {
    if waiting.settle_at is Some {
        (
            Waiting { settle_at: None, ..waiting },
            if facts.unseen {
                WaitStep::Report { reason: WaitReason::ChildUpdate }
            } else {
                WaitStep::Continue
            },
        )
    } else if waiting.until < waiting.deadline && facts.working {
        (Waiting { until: waiting.deadline, ..waiting }, WaitStep::Continue)
    } else if waiting.until < waiting.deadline {
        (waiting, WaitStep::Report { reason: WaitReason::NoActiveChildren })
    } else {
        (waiting, WaitStep::Report { reason: WaitReason::Timeout })
    }
}

/// The wait after something happened, and what it does next.
pub open spec fn stepped(
    waiting: Waiting,
    event: WaitEvent,
    facts: WaitFacts,
    now: u64,
) -> (Waiting, WaitStep) {
    match event {
        WaitEvent::Cancelled { input } => (
            waiting,
            WaitStep::Report {
                reason: if input {
                    WaitReason::InputPending
                } else {
                    WaitReason::Cancelled
                },
            },
        ),
        WaitEvent::InputArrived => (
            waiting,
            WaitStep::Report { reason: WaitReason::InputPending },
        ),
        WaitEvent::ActivityClosed => (waiting, WaitStep::Fail),
        WaitEvent::WakesClosed => (Waiting { wakes_open: false, ..waiting }, WaitStep::Continue),
        WaitEvent::Elapsed => after_elapsed(waiting, facts),
        _ => if calls_for_check(event) && waiting.settle_at is None && facts.unseen {
            (
                Waiting {
                    settle_at: Some(
                        if now > u64::MAX - COALESCE {
                            u64::MAX
                        } else {
                            (now + COALESCE) as u64
                        },
                    ),
                    ..waiting
                },
                WaitStep::Continue,
            )
        } else {
            (waiting, WaitStep::Continue)
        },
    }
}

/// Whether input is to be reported: one pending input interrupts at most one wait
/// until it clears.
pub fn claim_input(pending: bool, reported: &mut bool) -> (res: bool)
    ensures
        res == (pending && !*old(reported)),
        *final(reported) == (*old(reported) || pending),
{
    if pending && !*reported {
        *reported = true;
        true
    } else {
        false
    }
}

impl Waiting {
    /// Begins a wait of a given length for the root session or another, or says
    /// that it is over at once.
    pub fn begin(timeout: u64, is_root: bool, facts: WaitFacts, input: bool) -> (res: (
        Waiting,
        WaitStep,
    ))
        ensures
            res == begun(timeout, is_root, facts, input),
    {
        let deadline: u64 = if timeout < MIN_WAIT {
            MIN_WAIT
        } else if timeout > MAX_WAIT {
            MAX_WAIT
        } else {
            timeout
        };
        let until: u64 = if !facts.working && deadline > IDLE_GRACE {
            IDLE_GRACE
        } else {
            deadline
        };
        let waiting = Waiting { deadline, until, settle_at: None, wakes_open: is_root };
        if facts.unseen {
            (waiting, WaitStep::Report { reason: WaitReason::ChildUpdate })
        } else if input {
            (waiting, WaitStep::Report { reason: WaitReason::InputPending })
        } else {
            (waiting, WaitStep::Continue)
        }
    }

    /// Begins a wait beside input that may be pending. Input is reported only where
    /// nothing unseen ends the wait; otherwise it is left for the next one.
    pub fn begin_with(
        timeout: u64,
        is_root: bool,
        facts: WaitFacts,
        pending: bool,
        reported: &mut bool,
    ) -> (res: (Waiting, WaitStep))
        ensures
            res == begun(timeout, is_root, facts, pending && !*old(reported)),
            *final(reported) == (*old(reported) || !facts.unseen && pending),
    {
        let input = !facts.unseen && claim_input(pending, reported);
        Self::begin(timeout, is_root, facts, input)
    }

    /// When the wait is next looked at.
    pub open spec fn wake_time(self) -> u64 {
        match self.settle_at {
            Some(at) => at,
            None => self.until,
        }
    }

    /// When the wait is next looked at.
    pub fn wake_at(&self) -> (res: u64)
        ensures
            res == self.wake_time(),
    {
        match self.settle_at {
            Some(at) => at,
            None => self.until,
        }
    }

    /// Takes in what happened, and says what the wait does next.
    pub fn step(&mut self, event: WaitEvent, facts: WaitFacts, now: u64) -> (res: WaitStep)
        ensures
            (*final(self), res) == stepped(*old(self), event, facts, now),
    {
        match event {
            WaitEvent::Cancelled { input } => {
                if input {
                    return WaitStep::Report { reason: WaitReason::InputPending };
                }
                return WaitStep::Report { reason: WaitReason::Cancelled };
            },
            WaitEvent::InputArrived => {
                return WaitStep::Report { reason: WaitReason::InputPending };
            },
            WaitEvent::ActivityClosed => return WaitStep::Fail,
            WaitEvent::WakesClosed => {
                self.wakes_open = false;
                return WaitStep::Continue;
            },
            WaitEvent::Elapsed => {
                if self.settle_at.is_some() {
                    self.settle_at = None;
                    if facts.unseen {
                        return WaitStep::Report { reason: WaitReason::ChildUpdate };
                    }
                    return WaitStep::Continue;
                }
                if self.until < self.deadline && facts.working {
                    self.until = self.deadline;
                    return WaitStep::Continue;
                }
                if self.until < self.deadline {
                    return WaitStep::Report { reason: WaitReason::NoActiveChildren };
                }
                return WaitStep::Report { reason: WaitReason::Timeout };
            },
            _ => {},
        }
        let check = match event {
            WaitEvent::Woken
            | WaitEvent::WakesLagged
            | WaitEvent::ActivityLagged
            | WaitEvent::Recheck => true,
            WaitEvent::Activity { news } => news,
            _ => false,
        };
        if check && self.settle_at.is_none() && facts.unseen {
            self.settle_at = Some(
                if now > u64::MAX - COALESCE {
                    u64::MAX
                } else {
                    now + COALESCE
                },
            );
        }
        WaitStep::Continue
    }
}

/// A wait never claims what is not so: an update is reported only where there is
/// something unseen, idleness only where no child works, and a timeout only
/// where the deadline is what was waited for.
pub proof fn law_reports_are_true(
    waiting: Waiting,
    event: WaitEvent,
    facts: WaitFacts,
    now: u64,
)
    requires
        waiting.until <= waiting.deadline,
    ensures
        ({
            let step = stepped(waiting, event, facts, now).1;
            &&& step == (WaitStep::Report { reason: WaitReason::ChildUpdate }) ==> facts.unseen
            &&& step == (WaitStep::Report { reason: WaitReason::NoActiveChildren })
                ==> !facts.working
            &&& step == (WaitStep::Report { reason: WaitReason::Timeout })
                ==> waiting.wake_time() == waiting.deadline
        }),
{
}

/// A wait ends: where the time that was set is over again and again and nothing
/// else happens, the third time at the latest it reports.
pub proof fn law_a_wait_ends(
    waiting: Waiting,
    first: WaitFacts,
    second: WaitFacts,
    third: WaitFacts,
)
    requires
        waiting.until <= waiting.deadline,
    ensures
        ({
            let one = after_elapsed(waiting, first);
            let two = after_elapsed(one.0, second);
            let three = after_elapsed(two.0, third);
            one.1 is Report || two.1 is Report || three.1 is Report
        }),
{
}

/// A wait is never set beyond its deadline, except to collect what it noticed
/// before.
pub proof fn law_waits_stay_within_their_time(
    waiting: Waiting,
    event: WaitEvent,
    facts: WaitFacts,
    now: u64,
)
    requires
        waiting.until <= waiting.deadline,
    ensures
        ({
            let after = stepped(waiting, event, facts, now).0;
            &&& after.deadline == waiting.deadline
            &&& waiting.until <= after.until <= after.deadline
            &&& waiting.settle_at is None && after.settle_at is Some ==> after.settle_at->Some_0
                <= now + COALESCE
        }),
{
}

/// However long a wait is asked for, it lasts from a tenth of a second to half an
/// hour.
pub proof fn law_waits_are_bounded(timeout: u64, is_root: bool, facts: WaitFacts, input: bool)
    ensures
        MIN_WAIT <= begun(timeout, is_root, facts, input).0.deadline <= MAX_WAIT,
        begun(timeout, is_root, facts, input).0.until <= begun(
            timeout,
            is_root,
            facts,
            input,
        ).0.deadline,
        MIN_WAIT <= timeout <= MAX_WAIT ==> begun(timeout, is_root, facts, input).0.deadline
            == timeout,
{
}

} // verus!
