//! The service mode.

use vstd::prelude::*;

use crate::command::{Decision, Question};

verus! {

/// The command that enters the service mode.
pub struct Service;

/// The parameters of the command.
#[derive(Debug, Clone, Copy, PartialEq, Eq, Structural)]
pub struct Parameters {
    /// Skip every confirmation.
    pub force: bool,
    /// Drop the removed entities for good.
    pub cleanup: bool,
}

/// What the service mode does once it is entered.
#[derive(Debug, Clone, Copy, PartialEq, Eq, Structural)]
pub enum Work {
    /// Nothing.
    Nothing,
    /// Dropping the removed entities, once the user has agreed.
    Cleanup,
}

impl Service {
    /// The parameters that the flags of the command line give.
    pub fn parse_args(force: bool, cleanup: bool) -> (parameters: Parameters)
        ensures
            parameters == (Parameters { force, cleanup }),
    {
        Parameters { force, cleanup }
    }

    /// How a confirmation is settled: with force it is given without asking,
    /// without force the user is asked and offered a no.
    pub fn confirm_with_prompt<'a>(prompt: &'a str, force: bool) -> (decision: Decision<'a>)
        ensures
            force ==> decision == Decision::<'a>::Decided(true),
            !force ==> decision == Decision::Ask(Question { prompt, default: false }),
    {
        if force {
            Decision::Decided(true)
        } else {
            Decision::Ask(Question { prompt, default: false })
        }
    }

    /// How entering the service mode is confirmed.
    pub fn enter(parameters: &Parameters) -> (decision: Decision<'static>)
        ensures
            parameters.force ==> decision == Decision::<'static>::Decided(true),
            !parameters.force ==> decision is Ask && !decision->Ask_0.default
                && decision->Ask_0.prompt@ == "Do you actually NEED to enter service mode?"@,
    {
        Self::confirm_with_prompt("Do you actually NEED to enter service mode?", parameters.force)
    }

    /// What the service mode does once it is entered.
    pub fn work(parameters: &Parameters) -> (work: Work)
        ensures
            parameters.cleanup ==> work == Work::Cleanup,
            !parameters.cleanup ==> work == Work::Nothing,
    {
        if parameters.cleanup {
            Work::Cleanup
        } else {
            Work::Nothing
        }
    }

    /// How dropping the removed entities is confirmed.
    pub fn cleanup(force: bool) -> (decision: Decision<'static>)
        ensures
            force ==> decision == Decision::<'static>::Decided(true),
            !force ==> decision is Ask && !decision->Ask_0.default && decision->Ask_0.prompt@
                == "You will be unable to sync removed items. Proceed?"@,
    {
        Self::confirm_with_prompt("You will be unable to sync removed items. Proceed?", force)
    }
}

} // verus!
