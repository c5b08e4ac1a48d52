//! Actions that cannot be undone — deleting a trip, stopping a share
//! (US-69) — are offered, then armed, then confirmed; and one confirmation
//! at a time, so a second press while the first is in flight sends nothing.

use vstd::prelude::*;

use crate::text::owned;

verus! {

/// Where an irreversible action stands: whether the question is showing,
/// whether its request is in flight, and the last problem to show.
#[derive(Debug, Clone, PartialEq)]
pub struct Irreversible {
    pub arming: bool,
    pub busy: bool,
    pub error: Option<String>,
}

impl Irreversible {
    /// Offered, not armed: nothing asked, nothing sent, nothing to show.
    pub fn new() -> (r: Self)
        ensures
            !r.arming,
            !r.busy,
            r.error is None,
    {
        Irreversible { arming: false, busy: false, error: None }
    }

    /// The action's button: the question shows, and any old problem goes.
    pub fn arm(&mut self)
        ensures
            final(self).arming,
            final(self).busy == old(self).busy,
            final(self).error is None,
    {
        self.error = None;
        self.arming = true;
    }

    /// "Cancel": the question goes.
    pub fn cancel(&mut self)
        ensures
            !final(self).arming,
            final(self).busy == old(self).busy,
            final(self).error == old(self).error,
    {
        self.arming = false;
    }

    /// The confirming button: whether to send the request now. Not while
    /// one is already in flight; otherwise it is sent, and counts as in
    /// flight from here.
    pub fn confirm(&mut self) -> (send: bool)
        ensures
            send == !old(self).busy,
            final(self).busy,
            final(self).arming == old(self).arming,
            final(self).error == old(self).error,
    {
        if self.busy {
            false
        } else {
            self.busy = true;
            true
        }
    }

    /// The request succeeded: nothing is in flight any more. (The screen
    /// then moves on: to the list for a deleted trip, off the list for a
    /// stopped share.)
    pub fn done(&mut self)
        ensures
            !final(self).busy,
            final(self).arming == old(self).arming,
            final(self).error == old(self).error,
    {
        self.busy = false;
    }

    /// The request was refused: the question goes, its words are shown,
    /// and nothing is in flight.
    pub fn refused(&mut self, problem: &str)
        ensures
            !final(self).arming,
            !final(self).busy,
            final(self).error matches Some(m) && m@ == problem@,
    {
        self.arming = false;
        self.error = Some(owned(problem));
        self.busy = false;
    }
}

} // verus!
