//! Answers of the solution card commands.

use vstd::prelude::*;
use crate::models::SolutionCard;
use crate::text::prefixed;

verus! {

/// Answer to a request for a solution card.
#[derive(Debug)]
pub struct SolutionCardResponse {
    pub success: bool,
    pub card: Option<SolutionCard>,
    pub error: Option<String>,
}

/// Answer to a request to show the solution of a problem.
#[derive(Debug)]
pub struct SolutionCardToggleResponse {
    pub success: bool,
    pub is_viewing_solution: bool,
    pub card: Option<SolutionCard>,
    pub error: Option<String>,
}

/// Answer to a request to change a solution card.
#[derive(Debug)]
pub struct SolutionCardUpdateResponse {
    pub success: bool,
    pub error: Option<String>,
}

/// What showing the solution of a problem takes after the store has been
/// asked for the card.
#[derive(Debug)]
pub enum ToggleStep {
    /// The answer is known.
    Respond(SolutionCardToggleResponse),
    /// The card is missing and is to be created; the answer follows from
    /// the outcome.
    Create,
}

/// The text of an optional message.
pub open spec fn message_text(message: Option<String>) -> Option<Seq<char>> {
    match message {
        Some(m) => Some(m@),
        None => None,
    }
}

/// The answer to a request for the solution card, from what the store
/// found.
pub fn get_solution_card(found: Result<Option<SolutionCard>, String>) -> (response: SolutionCardResponse)
    ensures
        match found {
            Ok(card) => response.success && response.card == card && response.error is None,
            Err(e) => !response.success && response.card is None && message_text(response.error) == Some(
                "Failed to get solution card: "@ + e@,
            ),
        },
{
    match found {
        Ok(card) => SolutionCardResponse { success: true, card, error: None },
        Err(e) => SolutionCardResponse {
            success: false,
            card: None,
            error: Some(prefixed("Failed to get solution card: ", e.as_str())),
        },
    }
}

/// The answer to a request to create the solution card, from the outcome.
pub fn create_solution_card(created: Result<SolutionCard, String>) -> (response: SolutionCardResponse)
    ensures
        match created {
            Ok(card) => response.success && response.card == Some(card) && response.error is None,
            Err(e) => !response.success && response.card is None && message_text(response.error) == Some(
                "Failed to create solution card: "@ + e@,
            ),
        },
{
    match created {
        Ok(card) => SolutionCardResponse { success: true, card: Some(card), error: None },
        Err(e) => SolutionCardResponse {
            success: false,
            card: None,
            error: Some(prefixed("Failed to create solution card: ", e.as_str())),
        },
    }
}

/// The answer to a request to change a solution card, from the outcome;
/// `action` says what was to be changed.
pub fn update_response(outcome: Result<(), String>, action: &str) -> (response: SolutionCardUpdateResponse)
    ensures
        match outcome {
            Ok(_) => response.success && response.error is None,
            Err(e) => !response.success && message_text(response.error) == Some(
                "Failed to "@ + action@ + ": "@ + e@,
            ),
        },
{
    match outcome {
        Ok(_) => SolutionCardUpdateResponse { success: true, error: None },
        Err(e) => {
            let mut message = prefixed("Failed to ", action);
            vstd::string::StringExecFns::append(&mut message, ": ");
            vstd::string::StringExecFns::append(&mut message, e.as_str());
            SolutionCardUpdateResponse { success: false, error: Some(message) }
        },
    }
}

/// What showing the solution takes once the store has been asked for the
/// card: a card that is there is shown; a missing one is created if that
/// was asked for, and else reported as not shown; a failure is reported.
pub fn toggle_solution_view(found: Result<Option<SolutionCard>, String>, create_if_missing: bool) -> (step:
    ToggleStep)
    ensures
        match found {
            Ok(Some(card)) => step matches ToggleStep::Respond(r) && r.success && r.is_viewing_solution && r.card
                == Some(card) && r.error is None,
            Ok(None) => if create_if_missing {
                step is Create
            } else {
                step matches ToggleStep::Respond(r) && r.success && !r.is_viewing_solution && r.card is None
                    && r.error is None
            },
            Err(e) => step matches ToggleStep::Respond(r) && !r.success && !r.is_viewing_solution && r.card
                is None && message_text(r.error) == Some("Failed to check for solution card: "@ + e@),
        },
{
    match found {
        Ok(Some(card)) => ToggleStep::Respond(
            SolutionCardToggleResponse { success: true, is_viewing_solution: true, card: Some(card), error: None },
        ),
        Ok(None) => {
            if create_if_missing {
                ToggleStep::Create
            } else {
                ToggleStep::Respond(
                    SolutionCardToggleResponse {
                        success: true,
                        is_viewing_solution: false,
                        card: None,
                        error: None,
                    },
                )
            }
        },
        Err(e) => ToggleStep::Respond(
            SolutionCardToggleResponse {
                success: false,
                is_viewing_solution: false,
                card: None,
                error: Some(prefixed("Failed to check for solution card: ", e.as_str())),
            },
        ),
    }
}

/// The answer to a request to show the solution once the missing card has
/// been created, or has failed to be.
pub fn toggle_after_create(created: Result<SolutionCard, String>) -> (response: SolutionCardToggleResponse)
    ensures
        match created {
            Ok(card) => response.success && response.is_viewing_solution && response.card == Some(card)
                && response.error is None,
            Err(e) => !response.success && !response.is_viewing_solution && response.card is None
                && message_text(response.error) == Some("Failed to create solution card: "@ + e@),
        },
{
    match created {
        Ok(card) => SolutionCardToggleResponse {
            success: true,
            is_viewing_solution: true,
            card: Some(card),
            error: None,
        },
        Err(e) => SolutionCardToggleResponse {
            success: false,
            is_viewing_solution: false,
            card: None,
            error: Some(prefixed("Failed to create solution card: ", e.as_str())),
        },
    }
}

} // verus!
