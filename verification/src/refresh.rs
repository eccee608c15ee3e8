//! The refresh cycle: a precheck of both sources in the caller's context,
//! then the detached stages. Only the precheck's outcome reaches the caller;
//! a failure of a detached stage is logged and nothing more.

use vstd::prelude::*;
use crate::models::{opt_text, ApiError, RefreshResponse};

verus! {

/// One of the two sources that a refresh cycle reads.
#[derive(Clone, Copy, Debug, PartialEq, Eq, Structural)]
pub enum Source {
    CountryDirectory,
    ExchangeRates,
}

/// What can go wrong in a refresh cycle.
#[derive(Clone, Copy, Debug, PartialEq, Eq, Structural)]
pub enum RefreshError {
    /// A source could not be fetched or decoded.
    SourceUnavailable(Source),
    /// The store failed on a chunk.
    PersistenceError,
    /// The report could not be rendered or written.
    ReportError,
    /// The instant at which the cycle began lies outside the calendar, so
    /// that it has no text to stamp records or the report with.
    InstantOutOfRange,
}

/// Where the precheck stands.
#[derive(Clone, Copy, Debug, PartialEq, Eq, Structural)]
pub enum Precheck {
    /// The probe of this source is out.
    Probing(Source),
    /// Both sources answered; the cycle was handed to a detached unit.
    Dispatched,
    /// This source failed; nothing was dispatched and nothing is written.
    Rejected(Source),
}

/// What the caller of the precheck is to do next.
#[derive(Clone, Copy, Debug, PartialEq, Eq, Structural)]
pub enum PrecheckAction {
    /// Fetch once from this source and report whether that succeeded.
    Probe(Source),
    /// Hand the cycle to a detached unit of work and answer "accepted".
    Dispatch,
    /// Answer "source unavailable", naming the source; start no work.
    Reject(Source),
}

/// The outcome of the whole precheck: the country directory is probed first,
/// and the exchange rates only if it answered.
pub open spec fn precheck_outcome(countries_ok: bool, rates_ok: bool) -> Result<(), RefreshError> {
    if !countries_ok {
        Err(RefreshError::SourceUnavailable(Source::CountryDirectory))
    } else if !rates_ok {
        Err(RefreshError::SourceUnavailable(Source::ExchangeRates))
    } else {
        Ok(())
    }
}

/// The state after a probe came back, and the action it calls for.
pub open spec fn after_probe(state: Precheck, ok: bool) -> (Precheck, PrecheckAction) {
    match state {
        Precheck::Probing(source) => if !ok {
            (Precheck::Rejected(source), PrecheckAction::Reject(source))
        } else {
            match source {
                Source::CountryDirectory => (
                    Precheck::Probing(Source::ExchangeRates),
                    PrecheckAction::Probe(Source::ExchangeRates),
                ),
                Source::ExchangeRates => (Precheck::Dispatched, PrecheckAction::Dispatch),
            }
        },
        Precheck::Dispatched => (state, PrecheckAction::Dispatch),
        Precheck::Rejected(source) => (state, PrecheckAction::Reject(source)),
    }
}

/// Begins a precheck: the country directory is probed first.
pub fn begin_precheck() -> (start: (Precheck, PrecheckAction))
    ensures
        start.0 == Precheck::Probing(Source::CountryDirectory),
        start.1 == PrecheckAction::Probe(Source::CountryDirectory),
{
    (Precheck::Probing(Source::CountryDirectory), PrecheckAction::Probe(Source::CountryDirectory))
}

/// Takes the result of the probe that was out. A failed probe rejects the
/// request and names the source; the second successful probe dispatches the
/// cycle. A precheck that has ended stays as it is.
pub fn on_probe(state: Precheck, ok: bool) -> (next: (Precheck, PrecheckAction))
    ensures
        next == after_probe(state, ok),
{
    match state {
        Precheck::Probing(source) => {
            if !ok {
                (Precheck::Rejected(source), PrecheckAction::Reject(source))
            } else {
                match source {
                    Source::CountryDirectory => (
                        Precheck::Probing(Source::ExchangeRates),
                        PrecheckAction::Probe(Source::ExchangeRates),
                    ),
                    Source::ExchangeRates => (Precheck::Dispatched, PrecheckAction::Dispatch),
                }
            }
        },
        Precheck::Dispatched => (state, PrecheckAction::Dispatch),
        Precheck::Rejected(source) => (state, PrecheckAction::Reject(source)),
    }
}

/// The outcome of a precheck whose probes answered as given.
pub fn precheck(countries_ok: bool, rates_ok: bool) -> (outcome: Result<(), RefreshError>)
    ensures
        outcome == precheck_outcome(countries_ok, rates_ok),
        outcome.is_ok() == (countries_ok && rates_ok),
{
    if !countries_ok {
        Err(RefreshError::SourceUnavailable(Source::CountryDirectory))
    } else if !rates_ok {
        Err(RefreshError::SourceUnavailable(Source::ExchangeRates))
    } else {
        Ok(())
    }
}

/// The answer that the trigger of a refresh gets.
#[derive(Clone, Debug, PartialEq, Eq)]
pub enum RefreshReply {
    /// The cycle runs in the background; status 200.
    Accepted(RefreshResponse),
    /// A source was unavailable; status 503.
    Unavailable(ApiError),
}

/// The status code of "accepted".
pub const STATUS_OK: u16 = 200;

/// The status code of "no content".
pub const STATUS_NO_CONTENT: u16 = 204;

/// The status code of "not found".
pub const STATUS_NOT_FOUND: u16 = 404;

/// The status code of "internal server error".
pub const STATUS_INTERNAL_SERVER_ERROR: u16 = 500;

/// The status code of "service unavailable".
pub const STATUS_SERVICE_UNAVAILABLE: u16 = 503;

/// The sentence that names a failed source in a reply.
pub open spec fn source_details(source: Source) -> Seq<char> {
    match source {
        Source::CountryDirectory => "Could not fetch data from restcountries API"@,
        Source::ExchangeRates => "Could not fetch data from exchange rates API"@,
    }
}

impl RefreshReply {
    /// The status code of the reply.
    pub open spec fn status(&self) -> u16 {
        match self {
            RefreshReply::Accepted(_) => STATUS_OK,
            RefreshReply::Unavailable(_) => STATUS_SERVICE_UNAVAILABLE,
        }
    }

    /// The status code of the reply.
    pub fn status_code(&self) -> (code: u16)
        ensures
            code == self.status(),
    {
        match self {
            RefreshReply::Accepted(_) => STATUS_OK,
            RefreshReply::Unavailable(_) => STATUS_SERVICE_UNAVAILABLE,
        }
    }
}

/// The answer to the trigger for a precheck's outcome: "accepted" when both
/// sources answered, else "unavailable" with the failed source named in the
/// details. Errors of the detached stages never get here.
pub fn refresh_reply(outcome: Result<(), RefreshError>) -> (reply: RefreshReply)
    ensures
        match outcome {
            Ok(()) => reply matches RefreshReply::Accepted(body) && body.message@
                == "Refresh started in background"@,
            Err(RefreshError::SourceUnavailable(source)) => reply matches RefreshReply::Unavailable(
                body,
            ) && body.error@ == "External data source unavailable"@ && opt_text(body.details)
                == Some(source_details(source)),
            Err(_) => reply matches RefreshReply::Unavailable(body) && body.error@
                == "External data source unavailable"@ && body.details.is_none(),
        },
{
    match outcome {
        Ok(()) => RefreshReply::Accepted(
            RefreshResponse { message: String::from_str("Refresh started in background") },
        ),
        Err(RefreshError::SourceUnavailable(source)) => {
            let details = match source {
                Source::CountryDirectory => String::from_str(
                    "Could not fetch data from restcountries API",
                ),
                Source::ExchangeRates => String::from_str(
                    "Could not fetch data from exchange rates API",
                ),
            };
            RefreshReply::Unavailable(
                ApiError::with_details(
                    String::from_str("External data source unavailable"),
                    details,
                ),
            )
        },
        Err(_) => RefreshReply::Unavailable(
            ApiError::new(String::from_str("External data source unavailable")),
        ),
    }
}

/// A stage of the detached part of a cycle.
#[derive(Clone, Copy, Debug, PartialEq, Eq, Structural)]
pub enum Stage {
    /// Enrich every raw record and persist the result, chunk by chunk.
    Persist,
    /// Generate the summary report.
    Report,
    /// Nothing is left to do.
    Done,
}

/// How a stage of the detached part ended.
#[derive(Clone, Copy, Debug, PartialEq, Eq, Structural)]
pub enum StageOutcome {
    /// The stage went through.
    Completed,
    /// The stage failed at its own work: the store on a chunk, or the
    /// rendering or writing of the report.
    Faulted,
    /// The stage did nothing, because the instant of the cycle has no text.
    NoInstant,
}

/// What the detached unit is to do after a stage: the stage to run next, and
/// the error to log, if the stage failed.
#[derive(Clone, Copy, Debug, PartialEq, Eq, Structural)]
pub struct StageStep {
    pub next: Stage,
    pub log: Option<RefreshError>,
}

/// The error that a stage is logged with for the way it ended: none where
/// it went through; a persistence error for a fault of the store, a report
/// error for a fault of the report; and for an instant without text, that.
pub open spec fn logged_error(stage: Stage, outcome: StageOutcome) -> Option<RefreshError> {
    match (stage, outcome) {
        (Stage::Done, _) => None,
        (_, StageOutcome::Completed) => None,
        (_, StageOutcome::NoInstant) => Some(RefreshError::InstantOutOfRange),
        (Stage::Persist, StageOutcome::Faulted) => Some(RefreshError::PersistenceError),
        (Stage::Report, StageOutcome::Faulted) => Some(RefreshError::ReportError),
    }
}

/// The step after `stage` ended. The report follows the persistence
/// however that ended, generated from what the store holds, and the end
/// follows the report. A failure is logged; nothing is handed back to the
/// trigger.
pub open spec fn step_after(stage: Stage, outcome: StageOutcome) -> StageStep {
    StageStep {
        next: match stage {
            Stage::Persist => Stage::Report,
            Stage::Report => Stage::Done,
            Stage::Done => Stage::Done,
        },
        log: logged_error(stage, outcome),
    }
}

/// The first stage of the detached part.
pub fn first_stage() -> (stage: Stage)
    ensures
        stage == Stage::Persist,
{
    Stage::Persist
}

/// Says what follows a stage that ended, and what is to be logged.
pub fn next_stage(stage: Stage, outcome: StageOutcome) -> (step: StageStep)
    ensures
        step == step_after(stage, outcome),
{
    let next = match stage {
        Stage::Persist => Stage::Report,
        Stage::Report => Stage::Done,
        Stage::Done => Stage::Done,
    };
    let log = match (stage, outcome) {
        (Stage::Done, _) => None,
        (_, StageOutcome::Completed) => None,
        (_, StageOutcome::NoInstant) => Some(RefreshError::InstantOutOfRange),
        (Stage::Persist, StageOutcome::Faulted) => Some(RefreshError::PersistenceError),
        (Stage::Report, StageOutcome::Faulted) => Some(RefreshError::ReportError),
    };
    StageStep { next, log }
}

/// The state and the last action of a precheck whose probes answer as given.
pub open spec fn precheck_run(countries_ok: bool, rates_ok: bool) -> (Precheck, PrecheckAction) {
    let first = after_probe(Precheck::Probing(Source::CountryDirectory), countries_ok);
    match first.1 {
        PrecheckAction::Probe(_) => after_probe(first.0, rates_ok),
        _ => first,
    }
}

/// A cycle is dispatched exactly when both sources answered. Else the
/// request is rejected with the first failed source named, the exchange
/// rates are not even probed after a failed country directory, and no work
/// that could write a record is started.
pub proof fn law_dispatch_needs_both_sources(countries_ok: bool, rates_ok: bool)
    ensures
        (precheck_run(countries_ok, rates_ok).1 == PrecheckAction::Dispatch) == (countries_ok
            && rates_ok),
        precheck_outcome(countries_ok, rates_ok).is_ok() == (countries_ok && rates_ok),
        !countries_ok ==> precheck_run(countries_ok, rates_ok) == (
            Precheck::Rejected(Source::CountryDirectory),
            PrecheckAction::Reject(Source::CountryDirectory),
        ),
        countries_ok && !rates_ok ==> precheck_run(countries_ok, rates_ok) == (
            Precheck::Rejected(Source::ExchangeRates),
            PrecheckAction::Reject(Source::ExchangeRates),
        ) && precheck_outcome(countries_ok, rates_ok) == Err::<(), RefreshError>(
            RefreshError::SourceUnavailable(Source::ExchangeRates),
        ),
{
}

/// Every detached cycle ends, whatever fails: the report follows the
/// persistence however it ended, and the end follows the report. A stage is
/// logged with an error exactly when it did not go through, and a fault of
/// the store is logged as a persistence error.
pub proof fn law_detached_stages_end(persisted: StageOutcome, reported: StageOutcome)
    ensures
        step_after(Stage::Persist, persisted).next == Stage::Report,
        step_after(Stage::Report, reported).next == Stage::Done,
        step_after(Stage::Persist, persisted).log.is_some() == (persisted
            != StageOutcome::Completed),
        step_after(Stage::Report, reported).log.is_some() == (reported != StageOutcome::Completed),
        step_after(Stage::Persist, StageOutcome::Faulted).log == Some(
            RefreshError::PersistenceError,
        ),
        step_after(Stage::Report, StageOutcome::Faulted).log == Some(RefreshError::ReportError),
{
}

} // verus!
