//! One run of a synchronization, step by step.
//!
//! The program does what touches the passphrase, the remote and the store;
//! after each step it reports what happened and is told what to do next.
//! Nothing is published that was not stored first, and so the ledger changes
//! when the reconciled ledger was stored. Whatever fails leaves the ledger
//! as it was when the run began: before that moment nothing has changed, and
//! after it the ledger is put back and the program is told to store the rows
//! that were there before.

use vstd::prelude::*;

use crate::budget::Budget;
use crate::error::ErrorKind;
use crate::ledger::Ledger;
use crate::sync::Snapshot;

verus! {

/// Where a synchronization stands.
#[derive(Debug, Clone, Copy, PartialEq, Eq, Structural)]
pub enum Phase {
    /// The key is being derived from the passphrase.
    AwaitingKey,
    /// The remote snapshot is being fetched.
    AwaitingFetch,
    /// The fetched snapshot is being decrypted.
    AwaitingDecryption,
    /// The reconciled ledger is being stored.
    AwaitingStore,
    /// The stored rows are being published.
    AwaitingPublication,
    /// Everything was stored and published.
    Done,
    /// Something failed, and nothing more is to be done.
    Aborted,
}

/// What the program reports after a step.
#[derive(Debug, PartialEq, Eq)]
pub enum Event {
    /// The key was derived.
    KeyDerived,
    /// The remote holds no snapshot.
    NothingFetched,
    /// The remote snapshot was fetched.
    Fetched,
    /// The fetched snapshot was decrypted into these rows.
    Decrypted(Snapshot),
    /// The reconciled ledger was stored.
    Stored,
    /// The stored rows were published.
    Published,
    /// The step failed.
    Failed(ErrorKind),
}

/// What the program is to do next.
#[derive(Debug, PartialEq, Eq)]
pub enum Action {
    /// Fetch the remote snapshot.
    Fetch,
    /// Decrypt what was fetched.
    Decrypt,
    /// Store these rows in one commit.
    Store(Snapshot),
    /// Encrypt and publish these rows.
    Publish(Snapshot),
    /// Nothing: the synchronization is complete.
    Finish,
    /// Nothing: the synchronization failed for this reason.
    Abort(ErrorKind),
    /// Store these rows, which are the ones that were stored before the
    /// run: the synchronization failed for this reason after the store.
    Restore(Snapshot, ErrorKind),
}

/// One run of a synchronization.
#[derive(Debug, PartialEq, Eq)]
pub struct Session {
    phase: Phase,
    candidate: Option<Budget>,
    previous: Option<Budget>,
}

/// A session as a value: its phase, the reconciled ledger that waits to be
/// stored, if there is one, and the ledger as it was before the reconciled
/// one took its place, if it did.
pub struct SessionState {
    pub phase: Phase,
    pub candidate: Option<Ledger>,
    pub previous: Option<Ledger>,
}

impl SessionState {
    /// The state in a phase in which no ledger is kept.
    pub open spec fn bare(phase: Phase) -> SessionState {
        SessionState { phase, candidate: None, previous: None }
    }

    /// Whether the state is sound: a reconciled ledger waits exactly while
    /// the session waits for it to be stored, the ledger from before is kept
    /// exactly while the session waits for the publication, and both are
    /// sound ledgers.
    pub open spec fn valid(self) -> bool {
        &&& self.candidate is Some <==> self.phase == Phase::AwaitingStore
        &&& self.candidate is Some ==> self.candidate->0.wf()
        &&& self.previous is Some <==> self.phase == Phase::AwaitingPublication
        &&& self.previous is Some ==> self.previous->0.wf()
    }

    /// The ledger as it was when the run began, where `ledger` is the
    /// ledger now.
    pub open spec fn origin(self, ledger: Ledger) -> Ledger {
        match self.previous {
            Some(previous) => previous,
            None => ledger,
        }
    }
}

/// What a step is, where the event is the one that its phase waits for and
/// nothing fails.
pub open spec fn proceeds(
    before: SessionState,
    ledger: Ledger,
    event: Event,
    after: SessionState,
    next: Ledger,
    action: Action,
) -> bool {
    match (before.phase, event) {
        (Phase::AwaitingKey, Event::KeyDerived) => {
            &&& after == SessionState::bare(Phase::AwaitingFetch)
            &&& next == ledger
            &&& action == Action::Fetch
        },
        (Phase::AwaitingFetch, Event::Fetched) => {
            &&& after == SessionState::bare(Phase::AwaitingDecryption)
            &&& next == ledger
            &&& action == Action::Decrypt
        },
        (Phase::AwaitingFetch, Event::NothingFetched) => {
            &&& after == SessionState {
                phase: Phase::AwaitingStore,
                candidate: Some(ledger),
                previous: None,
            }
            &&& next == ledger
            &&& action is Store
            &&& action->Store_0@ == ledger.rows()
        },
        (Phase::AwaitingDecryption, Event::Decrypted(rows)) => {
            &&& after == SessionState {
                phase: Phase::AwaitingStore,
                candidate: Some(ledger.merged(rows@)),
                previous: None,
            }
            &&& next == ledger
            &&& action is Store
            &&& action->Store_0@ == ledger.merged(rows@).rows()
        },
        (Phase::AwaitingStore, Event::Stored) => {
            &&& after == SessionState {
                phase: Phase::AwaitingPublication,
                candidate: None,
                previous: Some(ledger),
            }
            &&& next == before.candidate->0
            &&& action is Publish
            &&& action->Publish_0@ == next.rows()
        },
        (Phase::AwaitingPublication, Event::Published) => {
            &&& after == SessionState::bare(Phase::Done)
            &&& next == ledger
            &&& action == Action::Finish
        },
        _ => false,
    }
}

/// Why a step fails, if it does: the program reports a failure, the rows
/// cannot be reconciled, or the event is not the one that the phase waits for.
pub open spec fn failure_of(before: SessionState, ledger: Ledger, event: Event) -> Option<ErrorKind> {
    match (before.phase, event) {
        (Phase::Done, _) => None,
        (_, Event::Failed(kind)) => Some(kind),
        (Phase::AwaitingKey, Event::KeyDerived) => None,
        (Phase::AwaitingFetch, Event::Fetched) => None,
        (Phase::AwaitingFetch, Event::NothingFetched) => None,
        (Phase::AwaitingDecryption, Event::Decrypted(rows)) => ledger.merge_failure(rows@),
        (Phase::AwaitingStore, Event::Stored) => None,
        (Phase::AwaitingPublication, Event::Published) => None,
        _ => Some(ErrorKind::Other),
    }
}

/// What a step that fails has to give: the session is aborted and the
/// ledger is as it was when the run began. Where the reconciled ledger was
/// stored already, the ledger from before is put back and its rows are to be
/// stored again; otherwise nothing has changed and nothing is to be done.
pub open spec fn fails(
    before: SessionState,
    ledger: Ledger,
    kind: ErrorKind,
    after: SessionState,
    next: Ledger,
    action: Action,
) -> bool {
    &&& after == SessionState::bare(Phase::Aborted)
    &&& next == before.origin(ledger)
    &&& match before.previous {
        Some(previous) => action is Restore && action->Restore_0@ == previous.rows()
            && action->Restore_1 == kind,
        None => action == Action::Abort(kind),
    }
}

/// What a step has to give.
///
/// A session that is done stays done. A step that fails aborts the session
/// as `fails` says. Any other step moves the session on as `proceeds` says;
/// the ledger changes only when the reconciled ledger was stored, and then
/// to the ledger that was stored.
pub open spec fn stepped(
    before: SessionState,
    ledger: Ledger,
    event: Event,
    after: SessionState,
    next: Ledger,
    action: Action,
) -> bool {
    if before.phase == Phase::Done {
        after == before && next == ledger && action == Action::Finish
    } else {
        match failure_of(before, ledger, event) {
            Some(kind) => fails(before, ledger, kind, after, next, action),
            None => proceeds(before, ledger, event, after, next, action),
        }
    }
}

impl View for Session {
    type V = SessionState;

    closed spec fn view(&self) -> SessionState {
        SessionState {
            phase: self.phase,
            candidate: match self.candidate {
                Some(budget) => Some(budget@),
                None => None,
            },
            previous: match self.previous {
                Some(budget) => Some(budget@),
                None => None,
            },
        }
    }
}

/// Whatever fails leaves the ledger as it was when the run began: no step
/// but the last changes what the ledger was at the beginning, and a step
/// that aborts the session leaves exactly that ledger.
pub proof fn failure_leaves_the_ledger(
    before: SessionState,
    ledger: Ledger,
    event: Event,
    after: SessionState,
    next: Ledger,
    action: Action,
)
    requires
        before.valid(),
        stepped(before, ledger, event, after, next, action),
    ensures
        after.phase != Phase::Done ==> after.origin(next) == before.origin(ledger),
        after.phase == Phase::Aborted ==> next == before.origin(ledger),
        after.phase == Phase::Aborted && before.phase != Phase::AwaitingPublication ==> next
            == ledger,
{
}

impl Session {
    /// Whether the session is sound.
    pub open spec fn wf(&self) -> bool {
        self@.valid()
    }

    /// A session that has not begun: the key is to be derived first.
    pub fn new() -> (session: Session)
        ensures
            session.wf(),
            session@ == SessionState::bare(Phase::AwaitingKey),
    {
        Session { phase: Phase::AwaitingKey, candidate: None, previous: None }
    }

    /// Where the session stands.
    pub fn phase(&self) -> (phase: Phase)
        ensures
            phase == self@.phase,
    {
        self.phase
    }

    /// Aborts the session, and puts the ledger back where it has changed.
    fn abort(&mut self, budget: &mut Budget, kind: ErrorKind) -> (action: Action)
        requires
            old(self).wf(),
            old(budget).wf(),
        ensures
            final(self).wf(),
            final(budget).wf(),
            fails(old(self)@, old(budget)@, kind, final(self)@, final(budget)@, action),
    {
        self.phase = Phase::Aborted;
        self.candidate = None;
        match self.previous.take() {
            Some(previous) => {
                let rows = previous.snapshot();
                *budget = previous;
                Action::Restore(rows, kind)
            },
            None => Action::Abort(kind),
        }
    }

    /// Takes note of what the program reports, and says what it is to do next.
    pub fn advance(&mut self, budget: &mut Budget, event: Event) -> (action: Action)
        requires
            old(self).wf(),
            old(budget).wf(),
        ensures
            final(self).wf(),
            final(budget).wf(),
            stepped(old(self)@, old(budget)@, event, final(self)@, final(budget)@, action),
    {
        match self.phase {
            Phase::Done => {
                return Action::Finish;
            },
            _ => {},
        }
        match event {
            Event::Failed(kind) => self.abort(budget, kind),
            Event::KeyDerived => match self.phase {
                Phase::AwaitingKey => {
                    self.phase = Phase::AwaitingFetch;
                    Action::Fetch
                },
                _ => self.abort(budget, ErrorKind::Other),
            },
            Event::Fetched => match self.phase {
                Phase::AwaitingFetch => {
                    self.phase = Phase::AwaitingDecryption;
                    Action::Decrypt
                },
                _ => self.abort(budget, ErrorKind::Other),
            },
            Event::NothingFetched => match self.phase {
                Phase::AwaitingFetch => {
                    let candidate = budget.duplicate();
                    let rows = candidate.snapshot();
                    self.phase = Phase::AwaitingStore;
                    self.candidate = Some(candidate);
                    Action::Store(rows)
                },
                _ => self.abort(budget, ErrorKind::Other),
            },
            Event::Decrypted(remote) => match self.phase {
                Phase::AwaitingDecryption => {
                    let mut candidate = budget.duplicate();
                    match candidate.merge(&remote) {
                        Ok(()) => {
                            let rows = candidate.snapshot();
                            self.phase = Phase::AwaitingStore;
                            self.candidate = Some(candidate);
                            Action::Store(rows)
                        },
                        Err(error) => self.abort(budget, error.kind),
                    }
                },
                _ => self.abort(budget, ErrorKind::Other),
            },
            Event::Stored => match self.phase {
                Phase::AwaitingStore => {
                    match self.candidate.take() {
                        Some(mut candidate) => {
                            let rows = candidate.snapshot();
                            core::mem::swap(budget, &mut candidate);
                            self.previous = Some(candidate);
                            self.phase = Phase::AwaitingPublication;
                            Action::Publish(rows)
                        },
                        None => self.abort(budget, ErrorKind::Other),
                    }
                },
                _ => self.abort(budget, ErrorKind::Other),
            },
            Event::Published => match self.phase {
                Phase::AwaitingPublication => {
                    self.phase = Phase::Done;
                    self.previous = None;
                    Action::Finish
                },
                _ => self.abort(budget, ErrorKind::Other),
            },
        }
    }
}

} // verus!
