//! A one-shot, single-producer, multi-consumer shutdown signal.
//!
//! One sender and any number of receivers share a flag that starts unset and
//! is only ever set. The flag lives in an atomic. What a receiver reads from
//! it depends on what the sender has done by then, and no contract here can
//! order a reading against the firing, so reading the flag promises nothing of
//! its result. What is stated is everything that follows a reading: the
//! decisions of a waiter are functions of the value read, and those are exact.
//!
//! A waiter never spins. When the flag is unset it asks to be parked, and its
//! driver re-polls it only after the sender's wakeup.

use std::sync::atomic::AtomicBool;
use std::sync::Arc;
use vstd::prelude::*;

verus! {

/// The flag shared by one sender and all receivers made from it.
#[derive(Debug)]
pub struct ToggleState {
    toggled: AtomicBool,
}

/// The one handle that can set the flag.
#[derive(Debug)]
pub struct ToggleSender {
    state: Arc<ToggleState>,
    /// Whether this sender has set the flag.
    fired: bool,
}

/// A handle that observes the flag. Clones observe the same flag.
#[derive(Debug)]
pub struct ToggleReceiver {
    state: Arc<ToggleState>,
}

/// A pending or completed wait for the flag.
#[derive(Debug)]
pub enum ToggleWaiter {
    /// The flag was seen set. This state is final.
    Done,
    /// The flag was unset when last looked at.
    Waiting { state: Arc<ToggleState> },
}

/// What the driver of a waiter does after a poll.
#[derive(Debug, Clone, Copy, PartialEq, Eq, Structural)]
pub enum WaitStep {
    /// The wait is over.
    Resolved,
    /// Suspend until the sender's wakeup, then poll again.
    Parked,
}

/// The waiter that `waiter` becomes when it is polled and the flag is read as
/// `toggled`: a resolved waiter stays resolved, a waiting one resolves exactly
/// when the flag is set.
pub open spec fn waiter_after(waiter: ToggleWaiter, toggled: bool) -> ToggleWaiter {
    match waiter {
        ToggleWaiter::Done => ToggleWaiter::Done,
        ToggleWaiter::Waiting { state } => if toggled {
            ToggleWaiter::Done
        } else {
            waiter
        },
    }
}

/// What a poll tells the driver about a waiter in the state it has reached.
pub open spec fn step_of(waiter: ToggleWaiter) -> WaitStep {
    if waiter is Done {
        WaitStep::Resolved
    } else {
        WaitStep::Parked
    }
}

/// Once the flag is read as set, a waiter resolves at that poll, and a
/// resolved waiter stays resolved whatever is read afterwards.
pub proof fn lemma_set_flag_resolves(waiter: ToggleWaiter, later: bool)
    ensures
        step_of(waiter_after(waiter, true)) == WaitStep::Resolved,
        step_of(waiter_after(waiter_after(waiter, true), later)) == WaitStep::Resolved,
        waiter is Done ==> waiter_after(waiter, later) == waiter,
{
}

impl ToggleSender {
    /// The flag that this sender sets.
    pub closed spec fn flag(&self) -> ToggleState {
        *self.state
    }

    /// Whether this sender has set its flag.
    pub closed spec fn has_fired(&self) -> bool {
        self.fired
    }

    /// Whether this sender has set its flag.
    pub fn fired(&self) -> (fired: bool)
        ensures
            fired == self.has_fired(),
    {
        self.fired
    }

    /// Sets the flag. Setting it again changes nothing.
    pub fn toggle(&mut self)
        ensures
            final(self).has_fired(),
            final(self).flag() == old(self).flag(),
    {
        self.state.toggled.store(true, std::sync::atomic::Ordering::SeqCst);
        self.fired = true;
    }
}

impl ToggleReceiver {
    /// The flag that this receiver observes.
    pub closed spec fn flag(&self) -> ToggleState {
        *self.state
    }

    /// Reads the flag. The result is whatever the sender has made of the flag
    /// by now.
    pub fn is_toggled(&self) -> (set: bool) {
        self.state.toggled.load(std::sync::atomic::Ordering::SeqCst)
    }

    /// The waiter that a wait starts with when the flag was just read as
    /// `toggled`: resolved if it was set, else waiting on this receiver's
    /// flag.
    pub fn waiter_for(&self, toggled: bool) -> (waiter: ToggleWaiter)
        ensures
            toggled ==> waiter is Done,
            !toggled ==> waiter.watches(self.flag()),
    {
        if toggled {
            ToggleWaiter::Done
        } else {
            ToggleWaiter::Waiting { state: self.state.clone() }
        }
    }

    /// Starts a wait for the flag: reads it once and resolves at once if it is
    /// set.
    pub fn wait(&self) -> (waiter: ToggleWaiter)
        ensures
            waiter is Done || waiter.watches(self.flag()),
    {
        let toggled = self.is_toggled();
        self.waiter_for(toggled)
    }
}

impl Clone for ToggleReceiver {
    /// Another observer of the same flag.
    fn clone(&self) -> (other: Self)
        ensures
            other.flag() == self.flag(),
    {
        ToggleReceiver { state: self.state.clone() }
    }
}

impl ToggleWaiter {
    /// Whether this waiter is still waiting, and on `flag`.
    pub open spec fn watches(&self, flag: ToggleState) -> bool {
        self matches ToggleWaiter::Waiting { state } && **state == flag
    }

    /// Moves the waiter on by one poll at which the flag was read as
    /// `toggled`, and says what its driver does next.
    pub fn advance(&mut self, toggled: bool) -> (next: WaitStep)
        ensures
            *final(self) == waiter_after(*old(self), toggled),
            next == step_of(*final(self)),
    {
        match self {
            ToggleWaiter::Done => WaitStep::Resolved,
            ToggleWaiter::Waiting { state: _ } => {
                if toggled {
                    *self = ToggleWaiter::Done;
                    WaitStep::Resolved
                } else {
                    WaitStep::Parked
                }
            },
        }
    }

    /// Polls the waiter: reads the flag unless the wait is already over, and
    /// moves on by what was read.
    pub fn poll(&mut self) -> (next: WaitStep)
        ensures
            next == step_of(*final(self)),
            *old(self) is Done ==> next == WaitStep::Resolved,
            *final(self) == waiter_after(*old(self), next == WaitStep::Resolved),
    {
        let toggled = match self {
            ToggleWaiter::Done => true,
            ToggleWaiter::Waiting { state } => state.toggled.load(
                std::sync::atomic::Ordering::SeqCst,
            ),
        };
        self.advance(toggled)
    }

    /// Whether the wait is over.
    pub fn is_terminated(&self) -> (over: bool)
        ensures
            over == (self is Done),
    {
        match self {
            ToggleWaiter::Done => true,
            ToggleWaiter::Waiting { state: _ } => false,
        }
    }
}

/// A fresh flag, unset, with its sender and one receiver.
pub fn new_toggle() -> (pair: (ToggleSender, ToggleReceiver))
    ensures
        pair.0.flag() == pair.1.flag(),
        !pair.0.has_fired(),
{
    let state = Arc::new(ToggleState { toggled: AtomicBool::new(false) });
    (ToggleSender { state: state.clone(), fired: false }, ToggleReceiver { state })
}

} // verus!
