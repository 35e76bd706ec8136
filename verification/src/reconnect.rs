//! When to dial again after a session is over.

use vstd::arithmetic::power2::{lemma2_to64, lemma_pow2_unfold, pow2};
use vstd::prelude::*;

verus! {

/// How long to wait before the first attempt to dial again, in seconds.
pub const INITIAL_BACKOFF: u64 = 1;

/// How long to wait at most, in seconds.
pub const MAX_BACKOFF: u64 = 30;

/// How long a session has to last to count as stable, in seconds.
pub const STABLE_AFTER: u64 = 30;

/// How a session went.
#[derive(Debug, Clone, Copy, PartialEq, Eq, Structural)]
pub enum Outcome {
    /// It is over, well or not, after this many full seconds.
    Ended { lasted: u64 },
    /// The user wants to stop.
    Interrupted,
}

/// What to do after a session.
#[derive(Debug, Clone, Copy, PartialEq, Eq, Structural)]
pub enum AfterSession {
    /// Wait this many seconds.
    Wait(u64),
    /// Stop.
    Exit,
}

/// What to do after a wait.
#[derive(Debug, Clone, Copy, PartialEq, Eq, Structural)]
pub enum AfterWait {
    /// Dial again.
    Dial,
    /// Stop.
    Exit,
}

/// How long to wait after a session that lasted `lasted` seconds, where `backoff` is what the
/// sessions before it have led to.
pub open spec fn delay(backoff: u64, lasted: u64) -> u64 {
    if lasted >= STABLE_AFTER {
        INITIAL_BACKOFF
    } else {
        backoff
    }
}

/// What a wait of `waited` seconds leads to: twice as long, within the limit.
pub open spec fn longer(waited: u64) -> u64 {
    if 2 * waited < MAX_BACKOFF {
        (2 * waited) as u64
    } else {
        MAX_BACKOFF
    }
}

/// What a session leads to: the wait to go on from, and what to do.
pub open spec fn after_outcome(backoff: u64, outcome: Outcome) -> (u64, AfterSession) {
    match outcome {
        Outcome::Interrupted => (backoff, AfterSession::Exit),
        Outcome::Ended { lasted } => (
            delay(backoff, lasted),
            AfterSession::Wait(delay(backoff, lasted)),
        ),
    }
}

/// What a wait leads to: the wait to go on from, and what to do.
pub open spec fn after_waiting(backoff: u64, interrupted: bool) -> (u64, AfterWait) {
    if interrupted {
        (backoff, AfterWait::Exit)
    } else {
        (longer(backoff), AfterWait::Dial)
    }
}

/// The state of dialing again and again.
#[derive(Debug)]
pub struct Reconnect {
    backoff: u64,
}

impl View for Reconnect {
    type V = u64;

    closed spec fn view(&self) -> u64 {
        self.backoff
    }
}

impl Reconnect {
    /// Before the first session.
    pub fn new() -> (r: Reconnect)
        ensures
            r@ == INITIAL_BACKOFF,
            r@ == 1,
    {
        Reconnect { backoff: INITIAL_BACKOFF }
    }

    /// What to do after a session. One that was stable makes up for those before it.
    pub fn after_session(&mut self, outcome: Outcome) -> (r: AfterSession)
        ensures
            match outcome {
                Outcome::Interrupted => r == AfterSession::Exit && final(self)@ == old(self)@,
                Outcome::Ended { lasted } => r == AfterSession::Wait(final(self)@) && final(self)@
                    == delay(old(self)@, lasted),
            },
            (final(self)@, r) == after_outcome(old(self)@, outcome),
    {
        match outcome {
            Outcome::Interrupted => AfterSession::Exit,
            Outcome::Ended { lasted } => {
                if lasted >= STABLE_AFTER {
                    self.backoff = INITIAL_BACKOFF;
                }
                AfterSession::Wait(self.backoff)
            },
        }
    }

    /// What to do after a wait, which the user may have interrupted.
    pub fn after_wait(&mut self, interrupted: bool) -> (r: AfterWait)
        ensures
            interrupted ==> r == AfterWait::Exit && final(self)@ == old(self)@,
            !interrupted ==> r == AfterWait::Dial && final(self)@ == longer(old(self)@),
            (final(self)@, r) == after_waiting(old(self)@, interrupted),
    {
        if interrupted {
            AfterWait::Exit
        } else {
            self.backoff = if self.backoff < MAX_BACKOFF / 2 {
                2 * self.backoff
            } else {
                MAX_BACKOFF
            };
            AfterWait::Dial
        }
    }
}

/// What a series of sessions that lasted `lasted` seconds each leads to, with a wait behind each
/// of them.
pub open spec fn backoff_after(lasted: Seq<u64>) -> u64
    decreases lasted.len(),
{
    if lasted.len() == 0 {
        INITIAL_BACKOFF
    } else {
        longer(delay(backoff_after(lasted.drop_last()), lasted.last()))
    }
}

/// How long the wait behind the last of a series of sessions is.
pub open spec fn wait_after(lasted: Seq<u64>) -> u64
    recommends
        lasted.len() > 0,
{
    delay(backoff_after(lasted.drop_last()), lasted.last())
}

/// A wait is never shorter than the first one and never longer than the limit.
pub proof fn waits_are_bounded(lasted: Seq<u64>)
    ensures
        INITIAL_BACKOFF <= backoff_after(lasted) <= MAX_BACKOFF,
        lasted.len() > 0 ==> INITIAL_BACKOFF <= wait_after(lasted) <= MAX_BACKOFF,
    decreases lasted.len(),
{
    if lasted.len() > 0 {
        waits_are_bounded(lasted.drop_last());
    }
}

/// As long as no session is stable, each wait is twice as long as the one before, until the limit
/// is reached: one second, two, four and so on.
pub proof fn waits_double_up_to_the_limit(lasted: Seq<u64>)
    requires
        lasted.len() > 0,
        forall|i: int| 0 <= i < lasted.len() ==> #[trigger] lasted[i] < STABLE_AFTER,
    ensures
        wait_after(lasted) == if pow2((lasted.len() - 1) as nat) < MAX_BACKOFF {
            pow2((lasted.len() - 1) as nat)
        } else {
            MAX_BACKOFF as nat
        },
    decreases lasted.len(),
{
    lemma2_to64();
    let before = lasted.drop_last();
    assert(lasted[lasted.len() - 1] < STABLE_AFTER);
    if before.len() > 0 {
        assert forall|i: int| 0 <= i < before.len() implies #[trigger] before[i] < STABLE_AFTER by {
            assert(before[i] == lasted[i]);
        }
        waits_double_up_to_the_limit(before);
        lemma_pow2_unfold(before.len());
    }
}

/// A stable session makes the next wait the shortest one, whatever went before.
pub proof fn a_stable_session_starts_over(before: Seq<u64>, lasted: u64)
    requires
        lasted >= STABLE_AFTER,
    ensures
        wait_after(before.push(lasted)) == INITIAL_BACKOFF,
{
}

/// The user can stop after a session and during a wait, and nothing else stops the connector: a
/// session that is over, well or not, is followed by a wait, and a wait by another session. After
/// a session of 30 seconds or more the wait is one second; otherwise it is the one that was due. A
/// wait makes twice as long a one due, up to 30 seconds.
pub proof fn only_the_user_stops_the_connector(backoff: u64, lasted: u64)
    ensures
        after_outcome(backoff, Outcome::Interrupted).1 == AfterSession::Exit,
        lasted >= 30 ==> after_outcome(backoff, Outcome::Ended { lasted }) == (
            1u64,
            AfterSession::Wait(1),
        ),
        lasted < 30 ==> after_outcome(backoff, Outcome::Ended { lasted }) == (
            backoff,
            AfterSession::Wait(backoff),
        ),
        after_waiting(backoff, true).1 == AfterWait::Exit,
        after_waiting(backoff, false).1 == AfterWait::Dial,
        2 * backoff <= 30 ==> after_waiting(backoff, false).0 == 2 * backoff,
        2 * backoff > 30 ==> after_waiting(backoff, false).0 == 30,
{
}

/// The waits in numbers: the first is one second, and each of the others is one second behind a
/// session of 30 seconds or more, and otherwise twice the one before, up to 30 seconds.
pub proof fn each_wait_follows_from_the_one_before(before: Seq<u64>, lasted: u64)
    ensures
        before.len() == 0 ==> wait_after(before.push(lasted)) == 1,
        lasted >= 30 ==> wait_after(before.push(lasted)) == 1,
        before.len() > 0 && lasted < 30 ==> wait_after(before.push(lasted)) == if 2 * wait_after(
            before,
        ) <= 30 {
            2 * wait_after(before)
        } else {
            30
        },
{
    assert(before.push(lasted).drop_last() =~= before);
}

} // verus!
