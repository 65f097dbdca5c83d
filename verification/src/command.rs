//! What the commands of the program decide.
//!
//! A command talks to the user and to the budget in turn. What it asks, with
//! which words, and what it does with the answers is decided here; the
//! asking itself is left to the program.

pub mod add_account;
pub mod add_category;
pub mod add_plan;
pub mod add_transaction;
pub mod common;
pub mod initialize;
pub mod remove;
pub mod service;
pub mod sync;
pub mod transfer;

use vstd::prelude::*;

verus! {

/// A question that the user answers with yes or no.
#[derive(Debug, Clone, Copy, PartialEq, Eq)]
pub struct Question<'a> {
    /// The words of the question.
    pub prompt: &'a str,
    /// The answer that is offered.
    pub default: bool,
}

/// How a question is settled: by an answer that is known already, or by asking.
#[derive(Debug, Clone, Copy, PartialEq, Eq)]
pub enum Decision<'a> {
    /// The answer is known without asking.
    Decided(bool),
    /// The user has to be asked.
    Ask(Question<'a>),
}

/// Whether a command that has handled one item goes on to another.
///
/// A command that handles one item stops. A command that handles several
/// asks the user after each of them.
pub fn after_item<'a>(multi: bool, question: Question<'a>) -> (next: Decision<'a>)
    ensures
        multi ==> next == Decision::Ask(question),
        !multi ==> next == Decision::<'a>::Decided(false),
{
    if multi {
        Decision::Ask(question)
    } else {
        Decision::Decided(false)
    }
}

} // verus!
